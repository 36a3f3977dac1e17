# laoflchdb

The verified core of a small database and media service suite: S3-style
request signing and routing, an object store's keys and listings, the
metadata layouts of a key/value engine, a full-text index engine and a
SQL engine, a vector index's keys and snapshot records, and the decisions
of the image, face, rerank, summarize and model services.

- `src/` is the library, written in Verus: every function carries a
  contract and is proved against it. Calls into outside crates (hashing,
  URL coding, dates, UUIDs, snowflake ids, JSON, tokenizers) go through
  small trusted wrappers whose contracts say what those crates do.
- `tests/` runs the library on concrete inputs.
- `app/` holds what stays outside the verified code: the HTTP front,
  wire types with serde derives, command-line options, floating-point
  scoring, and the drivers that perform the steps the library decides
  (classification results, image uploads).
