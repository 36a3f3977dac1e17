//! The vector index services' own logic around the approximate
//! nearest-neighbour graph: configuration, index and table names, the keys
//! vectors are stored under, the node snapshot file format, paging,
//! consistency between graph and store, and which stored entries a rebuild
//! takes.

use vstd::prelude::*;
use crate::text;
use crate::text::{chars_eq, push_all, str_chars, string_from_chars};

verus! {

// ---------------------------------------------------------------------------
// Configuration
// ---------------------------------------------------------------------------

/// Settings of the single-index vector service.
pub struct HnswServiceConfig {
    /// Vector dimension.
    pub dim: usize,
    /// Maximum connections per node (M).
    pub m: u8,
    /// Candidate list size while building.
    pub ef_construction: usize,
    /// Candidate list size while searching.
    pub ef_search: usize,
    /// Maximum number of elements.
    pub max_elements: u64,
    /// Where the vectors are stored.
    pub kv_db_path: String,
    /// Where graph snapshots are written.
    pub snapshot_path: String,
}

impl Default for HnswServiceConfig {
    fn default() -> (r: HnswServiceConfig)
        ensures
            r.dim == 512,
            r.m == 32,
            r.ef_construction == 200,
            r.ef_search == 50,
            r.max_elements == 1_000_000,
            r.kv_db_path@ == "./laoflch_hnsw_data"@,
            r.snapshot_path@ == "./laoflch_hnsw_snapshots"@,
    {
        HnswServiceConfig {
            dim: 512,
            m: 32,
            ef_construction: 200,
            ef_search: 50,
            max_elements: 1_000_000,
            kv_db_path: "./laoflch_hnsw_data".to_string(),
            snapshot_path: "./laoflch_hnsw_snapshots".to_string(),
        }
    }
}

/// The distance an index ranks by.
#[derive(PartialEq, Eq, Structural, Clone, Copy)]
pub enum DistanceKind {
    Cosine,
    Euclidean,
    InnerProduct,
}

/// `euclidean`, `dot`/`dotproduct` (after lower-casing); anything else is
/// cosine.
pub open spec fn spec_distance_kind(s: Seq<char>) -> DistanceKind {
    let l = text::lowercase_of(s);
    if l == "euclidean"@ {
        DistanceKind::Euclidean
    } else if l == "dot"@ || l == "dotproduct"@ {
        DistanceKind::InnerProduct
    } else {
        DistanceKind::Cosine
    }
}

/// Read a distance name.
pub fn distance_metric_from_str(s: &str) -> (r: DistanceKind)
    ensures
        r == spec_distance_kind(s@),
{
    let l = text::to_lowercase_chars(&str_chars(s));
    if chars_eq(&l, &str_chars("euclidean")) {
        DistanceKind::Euclidean
    } else if chars_eq(&l, &str_chars("dot")) || chars_eq(&l, &str_chars("dotproduct")) {
        DistanceKind::InnerProduct
    } else {
        DistanceKind::Cosine
    }
}

/// One named index of the multi-index service.
pub struct IndexConfig {
    pub name: String,
    pub dim: usize,
    pub m: u8,
    pub ef_construction: usize,
    pub ef_search: usize,
    pub max_elements: u64,
    pub distance_metric: DistanceKind,
}

/// Settings of the multi-index service.
pub struct EmbeddingServiceConfig {
    pub indices: Vec<IndexConfig>,
    pub kv_db_path: String,
    pub snapshot_path: String,
    /// `snapshot` (restore a snapshot) or `rebuild` (rebuild from the store).
    pub startup_mode: String,
}

/// A 512-dimensional cosine index with the standard graph settings.
pub open spec fn is_standard_index(c: IndexConfig, name: Seq<char>) -> bool {
    &&& c.name@ == name
    &&& c.dim == 512
    &&& c.m == 32
    &&& c.ef_construction == 200
    &&& c.ef_search == 50
    &&& c.max_elements == 1_000_000
    &&& c.distance_metric == DistanceKind::Cosine
}

fn standard_index(name: &str) -> (r: IndexConfig)
    ensures
        is_standard_index(r, name@),
{
    IndexConfig {
        name: name.to_string(),
        dim: 512,
        m: 32,
        ef_construction: 200,
        ef_search: 50,
        max_elements: 1_000_000,
        distance_metric: DistanceKind::Cosine,
    }
}

impl Default for EmbeddingServiceConfig {
    fn default() -> (r: EmbeddingServiceConfig)
        ensures
            r.indices.len() == 4,
            is_standard_index(r.indices[0], "default"@),
            is_standard_index(r.indices[1], "image"@),
            is_standard_index(r.indices[2], "face"@),
            is_standard_index(r.indices[3], "memory"@),
            r.kv_db_path@ == "./laoflch_hnsw_data"@,
            r.snapshot_path@ == "./laoflch_hnsw_snapshots"@,
            r.startup_mode@ == "snapshot"@,
    {
        let mut indices: Vec<IndexConfig> = Vec::new();
        indices.push(standard_index("default"));
        indices.push(standard_index("image"));
        indices.push(standard_index("face"));
        indices.push(standard_index("memory"));
        EmbeddingServiceConfig {
            indices,
            kv_db_path: "./laoflch_hnsw_data".to_string(),
            snapshot_path: "./laoflch_hnsw_snapshots".to_string(),
            startup_mode: "snapshot".to_string(),
        }
    }
}

// ---------------------------------------------------------------------------
// Names and keys
// ---------------------------------------------------------------------------

/// The index a request names; `default` when it names none.
pub fn index_name_or_default(name: &str) -> (r: String)
    ensures
        r@ == (if name@.len() == 0 { "default"@ } else { name@ }),
{
    if name.is_empty() {
        "default".to_string()
    } else {
        string_from_chars(&str_chars(name))
    }
}

/// The store table of an index: `hnsw_{index}`.
pub fn vector_table_name(index: &str) -> (r: String)
    ensures
        r@ == "hnsw_"@ + index@,
{
    let mut t = str_chars("hnsw_");
    push_all(&mut t, &str_chars(index));
    string_from_chars(&t)
}

/// The store key of a vector: `v:{id}`.
pub open spec fn spec_vector_key(id: u64) -> Seq<char> {
    "v:"@ + text::decimal_seq(id as nat)
}

/// The store key of a vector.
pub fn vector_key(id: u64) -> (r: String)
    ensures
        r@ == spec_vector_key(id),
{
    let mut k = str_chars("v:");
    push_all(&mut k, &text::u64_to_decimal(id));
    string_from_chars(&k)
}

/// The id in a store key read as text: what follows `v:`, parsed as a
/// `u64`.
pub open spec fn spec_key_id(key: Seq<char>) -> Option<u64> {
    if text::has_prefix(key, "v:"@) {
        text::spec_parse_u64(key.subrange("v:"@.len() as int, key.len() as int))
    } else {
        None
    }
}

/// The id of a stored vector key (its bytes read as UTF-8, invalid sequences
/// replaced).
pub fn parse_vector_key(key: &[u8]) -> (r: Option<u64>)
    ensures
        r == spec_key_id(crate::s3_route::utf8_lossy(key@)),
{
    let t = crate::s3_route::lossy_text(key);
    let c = str_chars(t.as_str());
    let p = str_chars("v:");
    if text::starts_with(&c, &p) {
        text::parse_u64(&text::chars_from(&c, p.len()))
    } else {
        None
    }
}

/// The id a key gives back is the id the key was made from.
pub proof fn law_vector_key_roundtrip(id: u64)
    ensures
        spec_key_id(spec_vector_key(id)) == Some(id),
{
    let k = spec_vector_key(id);
    reveal_strlit("v:");
    assert(k.subrange(0, 2) =~= "v:"@);
    assert(k.subrange(2, k.len() as int) =~= text::decimal_seq(id as nat));
    text::lemma_parse_decimal_roundtrip(id);
}

/// The number of results a search returns: 10 when none is asked for.
pub fn effective_top_k(requested: i32) -> (r: usize)
    ensures
        r == (if requested <= 0 { 10 } else { requested as usize }),
{
    if requested <= 0 {
        10
    } else {
        requested as usize
    }
}

/// `向量维度不匹配: 需要 {dim}, 实际 {len}`.
pub fn dimension_mismatch_message(dim: usize, len: usize) -> (r: String)
    ensures
        r@ == "向量维度不匹配: 需要 "@ + text::decimal_seq(dim as nat) + ", 实际 "@ + text::decimal_seq(len as nat),
{
    let mut m = str_chars("向量维度不匹配: 需要 ");
    push_all(&mut m, &text::u64_to_decimal(dim as u64));
    push_all(&mut m, &str_chars(", 实际 "));
    push_all(&mut m, &text::u64_to_decimal(len as u64));
    string_from_chars(&m)
}

/// The multi-index insert check: the vector must have the index's
/// dimension; otherwise `向量维度不匹配: 索引名={index}, 需要 {dim}, 实际 {len}`.
pub fn check_index_dimension(index: &str, dim: usize, len: usize) -> (r: Result<(), String>)
    ensures
        r is Ok <==> dim == len,
        r matches Err(e) ==> e@ == "向量维度不匹配: 索引名="@ + index@ + ", 需要 "@ + text::decimal_seq(dim as nat)
            + ", 实际 "@ + text::decimal_seq(len as nat),
{
    if dim == len {
        return Ok(());
    }
    let mut m = str_chars("向量维度不匹配: 索引名=");
    push_all(&mut m, &str_chars(index));
    push_all(&mut m, &str_chars(", 需要 "));
    push_all(&mut m, &text::u64_to_decimal(dim as u64));
    push_all(&mut m, &str_chars(", 实际 "));
    push_all(&mut m, &text::u64_to_decimal(len as u64));
    Err(string_from_chars(&m))
}

/// `索引不存在: {index}`.
pub fn index_not_found_message(index: &str) -> (r: String)
    ensures
        r@ == "索引不存在: "@ + index@,
{
    let mut m = str_chars("索引不存在: ");
    push_all(&mut m, &str_chars(index));
    string_from_chars(&m)
}

/// A search needs a query vector: an empty one is refused with
/// `查询向量为空`.
pub fn check_search_query(len: usize) -> (r: Result<(), String>)
    ensures
        r is Ok <==> len > 0,
        r matches Err(e) ==> e@ == "查询向量为空"@,
{
    if len == 0 {
        Err("查询向量为空".to_string())
    } else {
        Ok(())
    }
}

/// The message of a finished search: `未找到匹配结果` without results, else
/// `搜索完成, 返回 {n} 条结果`.
pub fn search_message(n: usize) -> (r: String)
    ensures
        r@ == (if n == 0 {
            "未找到匹配结果"@
        } else {
            "搜索完成, 返回 "@ + text::decimal_seq(n as nat) + " 条结果"@
        }),
{
    if n == 0 {
        return "未找到匹配结果".to_string();
    }
    let mut m = str_chars("搜索完成, 返回 ");
    push_all(&mut m, &text::u64_to_decimal(n as u64));
    push_all(&mut m, &str_chars(" 条结果"));
    string_from_chars(&m)
}

/// The id a listing shows for a stored key: the key's id, or 0 when the key
/// is not a vector key.
pub fn listed_id(key: &[u8]) -> (r: u64)
    ensures
        r == match spec_key_id(crate::s3_route::utf8_lossy(key@)) {
            Some(id) => id,
            None => 0,
        },
{
    match parse_vector_key(key) {
        Some(id) => id,
        None => 0,
    }
}

/// The summary of all indices: `索引数: {count}, 总向量数: {total}`.
pub fn all_indices_message(count: usize, total: u64) -> (r: String)
    ensures
        r@ == "索引数: "@ + text::decimal_seq(count as nat) + ", 总向量数: "@ + text::decimal_seq(total as nat),
{
    let mut m = str_chars("索引数: ");
    push_all(&mut m, &text::u64_to_decimal(count as u64));
    push_all(&mut m, &str_chars(", 总向量数: "));
    push_all(&mut m, &text::u64_to_decimal(total));
    string_from_chars(&m)
}

/// The summary of one index: `索引: {index}, 向量数: {n}`.
pub fn index_message(index: &str, n: u64) -> (r: String)
    ensures
        r@ == "索引: "@ + index@ + ", 向量数: "@ + text::decimal_seq(n as nat),
{
    let mut m = str_chars("索引: ");
    push_all(&mut m, &str_chars(index));
    push_all(&mut m, &str_chars(", 向量数: "));
    push_all(&mut m, &text::u64_to_decimal(n));
    string_from_chars(&m)
}

/// The total number of vectors over the indices, when it fits a `u64`;
/// `None` where the sum would overflow.
pub fn total_elements(counts: &Vec<u64>) -> (r: Option<u64>)
    ensures
        match r {
            Some(t) => t == sum_counts(counts@),
            None => sum_counts(counts@) > u64::MAX,
        },
{
    let mut t: u64 = 0;
    let mut i: usize = 0;
    while i < counts.len()
        invariant
            i <= counts.len(),
            t == sum_counts(counts@.subrange(0, i as int)),
        decreases counts.len() - i,
    {
        assert(counts@.subrange(0, i + 1).drop_last() =~= counts@.subrange(0, i as int));
        match t.checked_add(counts[i]) {
            Some(n) => t = n,
            None => {
                proof {
                    lemma_sum_prefix(counts@, i + 1);
                }
                return None;
            },
        }
        i = i + 1;
    }
    assert(counts@.subrange(0, i as int) =~= counts@);
    Some(t)
}

/// The sum of the counts.
pub open spec fn sum_counts(c: Seq<u64>) -> nat
    decreases c.len(),
{
    if c.len() == 0 {
        0
    } else {
        (sum_counts(c.drop_last()) + c.last()) as nat
    }
}

proof fn lemma_sum_prefix(c: Seq<u64>, k: int)
    requires
        0 <= k <= c.len(),
    ensures
        sum_counts(c.subrange(0, k)) <= sum_counts(c),
    decreases c.len(),
{
    if k < c.len() {
        assert(c.drop_last().subrange(0, k) =~= c.subrange(0, k));
        lemma_sum_prefix(c.drop_last(), k);
    } else {
        assert(c.subrange(0, k) =~= c);
    }
}

/// The three snapshot files of a graph: `{dir}/{stem}.meta.cbor`,
/// `{dir}/{stem}.ids.cbor` and `{dir}/{stem}.nodes.cbor`.
pub fn snapshot_paths(dir: &str, stem: &str) -> (r: (String, String, String))
    ensures
        r.0@ == dir@ + seq!['/'] + stem@ + ".meta.cbor"@,
        r.1@ == dir@ + seq!['/'] + stem@ + ".ids.cbor"@,
        r.2@ == dir@ + seq!['/'] + stem@ + ".nodes.cbor"@,
{
    let mut base = str_chars(dir);
    base.push('/');
    push_all(&mut base, &str_chars(stem));
    let mut a = base.clone();
    push_all(&mut a, &str_chars(".meta.cbor"));
    let mut b = base.clone();
    push_all(&mut b, &str_chars(".ids.cbor"));
    let mut c = base.clone();
    push_all(&mut c, &str_chars(".nodes.cbor"));
    (string_from_chars(&a), string_from_chars(&b), string_from_chars(&c))
}

/// Requests are refused while the indices are being built.
pub fn check_building(building: bool) -> (r: Result<(), String>)
    ensures
        r is Ok <==> !building,
        r matches Err(e) ==> e@ == "HNSW 服务正在构建中，请稍后再试"@,
{
    if building {
        Err("HNSW 服务正在构建中，请稍后再试".to_string())
    } else {
        Ok(())
    }
}

// ---------------------------------------------------------------------------
// Snapshot node records
// ---------------------------------------------------------------------------

/// `256^k`.
pub open spec fn pow256(k: nat) -> nat
    decreases k,
{
    if k == 0 {
        1
    } else {
        256 * pow256((k - 1) as nat)
    }
}

/// The number a little-endian byte string denotes.
pub open spec fn le_value(b: Seq<u8>) -> nat
    decreases b.len(),
{
    if b.len() == 0 {
        0
    } else {
        b[0] as nat + 256 * le_value(b.drop_first())
    }
}

/// The `k` low bytes of `n`, least significant first.
pub open spec fn le_bytes(n: nat, k: nat) -> Seq<u8>
    decreases k,
{
    if k == 0 {
        Seq::empty()
    } else {
        seq![(n % 256) as u8] + le_bytes(n / 256, (k - 1) as nat)
    }
}

/// Reading back `k` little-endian bytes of a number below `256^k` gives the
/// number.
pub proof fn lemma_le_roundtrip(n: nat, k: nat)
    requires
        n < pow256(k),
    ensures
        le_bytes(n, k).len() == k,
        le_value(le_bytes(n, k)) == n,
    decreases k,
{
    if k > 0 {
        assert(n / 256 < pow256((k - 1) as nat)) by (nonlinear_arith)
            requires
                n < 256 * pow256((k - 1) as nat),
        ;
        lemma_le_roundtrip(n / 256, (k - 1) as nat);
        let b = le_bytes(n, k);
        assert(b.drop_first() =~= le_bytes(n / 256, (k - 1) as nat));
        assert((n % 256) + 256 * (n / 256) == n) by (nonlinear_arith);
    }
}

/// A little-endian value is below `256^len`.
pub proof fn lemma_le_value_bound(b: Seq<u8>)
    ensures
        le_value(b) < pow256(b.len()),
    decreases b.len(),
{
    if b.len() > 0 {
        lemma_le_value_bound(b.drop_first());
        assert(b[0] as nat + 256 * le_value(b.drop_first()) < 256 * pow256(b.drop_first().len())) by (nonlinear_arith)
            requires
                le_value(b.drop_first()) < pow256(b.drop_first().len()),
                b[0] < 256,
        ;
    }
}

proof fn lemma_pow256_values()
    ensures
        pow256(4) == 0x1_0000_0000,
        pow256(8) == 0x1_0000_0000_0000_0000,
{
    reveal_with_fuel(pow256, 9);
}

/// One node record: the id as 8 little-endian bytes, the data length as 4
/// little-endian bytes (its low 32 bits), then the data.
pub open spec fn encode_record(id: u64, data: Seq<u8>) -> Seq<u8> {
    le_bytes(id as nat, 8) + le_bytes(data.len(), 4) + data
}

/// Node records one after another.
pub open spec fn encode_records(rs: Seq<(u64, Seq<u8>)>) -> Seq<u8>
    decreases rs.len(),
{
    if rs.len() == 0 {
        Seq::empty()
    } else {
        encode_record(rs[0].0, rs[0].1) + encode_records(rs.drop_first())
    }
}

/// Why a node file could not be read.
#[derive(PartialEq, Eq, Structural, Clone, Copy)]
pub enum NodeDecodeError {
    /// The file ends inside a length field.
    LengthTruncated,
    /// The file ends inside a record's data.
    DataTruncated,
}

/// `prefix` in front of the records of a successful read.
pub open spec fn prepend_records(
    prefix: Seq<(u64, Seq<u8>)>,
    r: Result<Seq<(u64, Seq<u8>)>, NodeDecodeError>,
) -> Result<Seq<(u64, Seq<u8>)>, NodeDecodeError> {
    match r {
        Ok(t) => Ok(prefix + t),
        Err(e) => Err(e),
    }
}

/// Reading node records: fewer than 8 bytes left end the file (they are
/// ignored); a record cut inside its length or data is an error.
pub open spec fn decode_records(b: Seq<u8>) -> Result<Seq<(u64, Seq<u8>)>, NodeDecodeError>
    decreases b.len(),
{
    if b.len() < 8 {
        Ok(Seq::empty())
    } else if b.len() < 12 {
        Err(NodeDecodeError::LengthTruncated)
    } else {
        let n: int = le_value(b.subrange(8, 12)) as int;
        if b.len() < 12 + n {
            Err(NodeDecodeError::DataTruncated)
        } else {
            match decode_records(b.subrange(12 + n, b.len() as int)) {
                Ok(rest) => Ok(seq![(le_value(b.subrange(0, 8)) as u64, b.subrange(12, 12 + n))] + rest),
                Err(e) => Err(e),
            }
        }
    }
}

fn push_le(out: &mut Vec<u8>, x: u64, k: usize)
    ensures
        final(out)@ == old(out)@ + le_bytes(x as nat, k as nat),
    decreases k,
{
    if k > 0 {
        let ghost before = out@;
        out.push((x % 256) as u8);
        push_le(out, x / 256, k - 1);
        assert(out@ =~= before + le_bytes(x as nat, k as nat));
    }
}

/// Encode one node record.
pub fn encode_node_record(id: u64, data: &[u8]) -> (r: Vec<u8>)
    ensures
        r@ == encode_record(id, data@),
{
    let mut out: Vec<u8> = Vec::new();
    push_le(&mut out, id, 8);
    let len_low: u64 = (data.len() as u64) % 0x1_0000_0000;
    proof {
        lemma_le_low_bytes(data@.len(), 4);
        lemma_pow256_values();
    }
    push_le(&mut out, len_low, 4);
    let mut i: usize = 0;
    let ghost start = out@;
    while i < data.len()
        invariant
            i <= data.len(),
            out@ == start + data@.subrange(0, i as int),
        decreases data.len() - i,
    {
        out.push(data[i]);
        i = i + 1;
        assert(out@ =~= start + data@.subrange(0, i as int));
    }
    assert(data@.subrange(0, i as int) =~= data@);
    out
}

/// Only the low `k` bytes of a number make its `k` little-endian bytes.
proof fn lemma_le_low_bytes(n: nat, k: nat)
    ensures
        le_bytes(n, k) == le_bytes(n % pow256(k), k),
    decreases k,
{
    if k > 0 {
        let p = pow256((k - 1) as nat);
        assert(pow256(k) == 256 * p);
        assert(p > 0) by {
            lemma_pow256_positive((k - 1) as nat);
        }
        assert((n % (256 * p)) % 256 == n % 256 && (n % (256 * p)) / 256 == (n / 256) % p) by (nonlinear_arith)
            requires
                p > 0,
        {
            vstd::arithmetic::div_mod::lemma_mod_mod(n as int, 256, p as int);
            vstd::arithmetic::div_mod::lemma_mod_breakdown(n as int, 256, p as int);
        }
        lemma_le_low_bytes(n / 256, (k - 1) as nat);
    }
}

proof fn lemma_pow256_positive(k: nat)
    ensures
        pow256(k) > 0,
    decreases k,
{
    if k > 0 {
        lemma_pow256_positive((k - 1) as nat);
    }
}

/// Read a little-endian number from `b[start..start + k]`.
fn read_le(b: &[u8], start: usize, k: usize) -> (r: u64)
    requires
        k <= 8,
        start + k <= b.len(),
    ensures
        r == le_value(b@.subrange(start as int, start + k)),
{
    let mut v: u128 = 0;
    let mut i: usize = k;
    proof {
        lemma_pow256_values();
    }
    assert(b@.subrange(start + k, start + k) =~= Seq::<u8>::empty());
    while i > 0
        invariant
            i <= k <= 8,
            start + k <= b.len(),
            v == le_value(b@.subrange(start + i, start + k)),
            pow256(8) == 0x1_0000_0000_0000_0000,
        decreases i,
    {
        let ghost tail = b@.subrange(start + i, start + k);
        let ghost s = b@.subrange(start + i - 1, start + k);
        assert(s.drop_first() =~= tail);
        proof {
            lemma_le_value_bound(tail);
            lemma_pow_mono((k - i) as nat, 8);
        }
        v = v * 256 + b[start + i - 1] as u128;
        i = i - 1;
    }
    proof {
        lemma_le_value_bound(b@.subrange(start as int, start + k));
        lemma_pow_mono(k as nat, 8);
    }
    v as u64
}

proof fn lemma_pow_mono(a: nat, b: nat)
    requires
        a <= b,
    ensures
        pow256(a) <= pow256(b),
    decreases b,
{
    if a < b {
        lemma_pow_mono(a, (b - 1) as nat);
        lemma_pow256_positive((b - 1) as nat);
    }
}

/// Read a node file.
pub fn decode_node_records(bytes: &[u8]) -> (r: Result<Vec<(u64, Vec<u8>)>, NodeDecodeError>)
    ensures
        match r {
            Ok(v) => decode_records(bytes@) == Ok::<Seq<(u64, Seq<u8>)>, NodeDecodeError>(
                v@.map_values(|e: (u64, Vec<u8>)| (e.0, e.1@)),
            ),
            Err(e) => decode_records(bytes@) == Err::<Seq<(u64, Seq<u8>)>, NodeDecodeError>(e),
        },
{
    let mut out: Vec<(u64, Vec<u8>)> = Vec::new();
    let mut pos: usize = 0;
    let n = bytes.len();
    assert(bytes@.subrange(0, n as int) =~= bytes@);
    loop
        invariant
            pos <= n,
            n == bytes.len(),
            decode_records(bytes@) == prepend_records(
                out@.map_values(|e: (u64, Vec<u8>)| (e.0, e.1@)),
                decode_records(bytes@.subrange(pos as int, n as int)),
            ),
        decreases n - pos,
    {
        let ghost rest = bytes@.subrange(pos as int, n as int);
        if n - pos < 8 {
            assert(decode_records(rest) == Ok::<Seq<(u64, Seq<u8>)>, NodeDecodeError>(Seq::empty()));
            assert(out@.map_values(|e: (u64, Vec<u8>)| (e.0, e.1@)) + Seq::<(u64, Seq<u8>)>::empty()
                =~= out@.map_values(|e: (u64, Vec<u8>)| (e.0, e.1@)));
            return Ok(out);
        }
        if n - pos < 12 {
            assert(decode_records(rest) == Err::<Seq<(u64, Seq<u8>)>, NodeDecodeError>(NodeDecodeError::LengthTruncated));
            return Err(NodeDecodeError::LengthTruncated);
        }
        let id = read_le(bytes, pos, 8);
        let len = read_le(bytes, pos + 8, 4);
        assert(rest.subrange(0, 8) =~= bytes@.subrange(pos as int, pos + 8));
        assert(rest.subrange(8, 12) =~= bytes@.subrange(pos + 8, pos + 12));
        if ((n - pos - 12) as u64) < len {
            assert(decode_records(rest) == Err::<Seq<(u64, Seq<u8>)>, NodeDecodeError>(NodeDecodeError::DataTruncated));
            return Err(NodeDecodeError::DataTruncated);
        }
        let start = pos + 12;
        let end = start + len as usize;
        let mut data: Vec<u8> = Vec::new();
        let mut i = start;
        while i < end
            invariant
                start <= i <= end,
                end <= n,
                n == bytes.len(),
                data@ == bytes@.subrange(start as int, i as int),
            decreases end - i,
        {
            data.push(bytes[i]);
            i = i + 1;
            assert(data@ =~= bytes@.subrange(start as int, i as int));
        }
        assert(rest.subrange(12, 12 + len) =~= data@);
        assert(rest.subrange(12 + len, rest.len() as int) =~= bytes@.subrange(end as int, n as int));
        let ghost before = out@.map_values(|e: (u64, Vec<u8>)| (e.0, e.1@));
        let ghost item = (id, data@);
        out.push((id, data));
        assert(out@.map_values(|e: (u64, Vec<u8>)| (e.0, e.1@)) =~= before.push(item));
        proof {
            let r2 = decode_records(bytes@.subrange(end as int, n as int));
            match r2 {
                Ok(t) => {
                    assert(before + (seq![item] + t) =~= before.push(item) + t);
                },
                Err(e) => {},
            }
        }
        pos = end;
    }
}

/// Reading what was written gives the records back, when every record's
/// data is shorter than 2^32 bytes (the length field holds 32 bits).
pub proof fn law_node_records_roundtrip(rs: Seq<(u64, Seq<u8>)>)
    requires
        forall|i: int| 0 <= i < rs.len() ==> (#[trigger] rs[i]).1.len() < 0x1_0000_0000,
    ensures
        decode_records(encode_records(rs)) == Ok::<Seq<(u64, Seq<u8>)>, NodeDecodeError>(rs),
    decreases rs.len(),
{
    lemma_pow256_values();
    if rs.len() == 0 {
        assert(encode_records(rs) =~= Seq::<u8>::empty());
        assert(decode_records(Seq::<u8>::empty()) == Ok::<Seq<(u64, Seq<u8>)>, NodeDecodeError>(Seq::empty()));
        assert(rs =~= Seq::<(u64, Seq<u8>)>::empty());
    } else {
        let (id, data) = rs[0];
        assert(rs[0].1.len() < 0x1_0000_0000);
        let tail = rs.drop_first();
        assert forall|i: int| 0 <= i < tail.len() implies (#[trigger] tail[i]).1.len() < 0x1_0000_0000 by {
            assert(tail[i] == rs[i + 1]);
        }
        law_node_records_roundtrip(tail);
        lemma_le_roundtrip(id as nat, 8);
        lemma_le_roundtrip(data.len(), 4);
        let b = encode_records(rs);
        let n: int = data.len() as int;
        assert(b.subrange(0, 8) =~= le_bytes(id as nat, 8));
        assert(b.subrange(8, 12) =~= le_bytes(data.len(), 4));
        assert(b.subrange(12, 12 + n) =~= data);
        assert(b.subrange(12 + n, b.len() as int) =~= encode_records(tail));
        assert(seq![(id, data)] + tail =~= rs);
    }
}

// ---------------------------------------------------------------------------
// Paging, consistency, rebuilding
// ---------------------------------------------------------------------------

/// The entries a page covers: from `offset` (negative counts as zero) and at
/// most `limit` of them (a limit of zero or less means all), within `total`.
pub open spec fn spec_page(total: nat, offset: i32, limit: i32) -> (nat, nat) {
    let start: nat = if offset <= 0 { 0 } else if offset as nat > total { total } else { offset as nat };
    let end: nat = if limit <= 0 || start + limit as nat > total { total } else { start + limit as nat };
    (start, end)
}

/// The index range of a page of stored entries.
pub fn page_range(total: usize, offset: i32, limit: i32) -> (r: (usize, usize))
    ensures
        (r.0 as nat, r.1 as nat) == spec_page(total as nat, offset, limit),
        r.0 <= r.1 <= total,
{
    let start: usize = if offset <= 0 {
        0
    } else if offset as usize > total {
        total
    } else {
        offset as usize
    };
    let end: usize = if limit <= 0 || limit as usize > total - start {
        total
    } else {
        start + limit as usize
    };
    (start, end)
}

/// A page holds `limit` entries when that many remain after the offset,
/// else the rest.
pub proof fn law_page_size(total: nat, offset: i32, limit: i32)
    requires
        0 <= offset,
        offset as nat <= total,
        0 < limit,
    ensures
        spec_page(total, offset, limit).1 - spec_page(total, offset, limit).0 == if offset as nat + limit as nat
            <= total {
            limit as nat
        } else {
            (total - offset as nat) as nat
        },
{
}

/// The ids of the stored keys that are vector keys, in order.
pub open spec fn stored_ids(keys: Seq<Seq<u8>>) -> Seq<u64>
    decreases keys.len(),
{
    if keys.len() == 0 {
        Seq::empty()
    } else {
        let rest = stored_ids(keys.drop_last());
        match spec_key_id(crate::s3_route::utf8_lossy(keys.last())) {
            Some(id) => rest.push(id),
            None => rest,
        }
    }
}

/// The ids of stored vector keys; other keys are passed over.
pub fn ids_from_keys(keys: &Vec<Vec<u8>>) -> (r: Vec<u64>)
    ensures
        r@ == stored_ids(keys@.map_values(|k: Vec<u8>| k@)),
{
    let ghost ks = keys@.map_values(|k: Vec<u8>| k@);
    let mut ids: Vec<u64> = Vec::new();
    let mut i: usize = 0;
    while i < keys.len()
        invariant
            i <= keys.len(),
            ks == keys@.map_values(|k: Vec<u8>| k@),
            ids@ == stored_ids(ks.subrange(0, i as int)),
        decreases keys.len() - i,
    {
        let ghost next = ks.subrange(0, i + 1);
        assert(next.drop_last() =~= ks.subrange(0, i as int));
        assert(next.last() == keys@[i as int]@);
        match parse_vector_key(&keys[i]) {
            Some(id) => ids.push(id),
            None => {},
        }
        i = i + 1;
    }
    assert(ks.subrange(0, i as int) =~= ks);
    ids
}

fn contains_id(v: &Vec<u64>, x: u64) -> (r: bool)
    ensures
        r == v@.contains(x),
{
    let mut i: usize = 0;
    while i < v.len()
        invariant
            i <= v.len(),
            forall|k: int| 0 <= k < i ==> v@[k] != x,
        decreases v.len() - i,
    {
        if v[i] == x {
            return true;
        }
        i = i + 1;
    }
    false
}

/// The ids of `a` missing from `b`, each once, in order of first appearance.
pub fn ids_missing_from(a: &Vec<u64>, b: &Vec<u64>) -> (r: Vec<u64>)
    ensures
        r@.to_set() == a@.to_set().difference(b@.to_set()),
        r@.no_duplicates(),
{
    let mut out: Vec<u64> = Vec::new();
    let mut i: usize = 0;
    while i < a.len()
        invariant
            i <= a.len(),
            out@.no_duplicates(),
            out@.to_set() == a@.subrange(0, i as int).to_set().difference(b@.to_set()),
        decreases a.len() - i,
    {
        let x = a[i];
        let ghost pre = a@.subrange(0, i as int);
        assert(a@.subrange(0, i + 1) =~= pre.push(x));
        proof {
            pre.lemma_push_to_set_commute(x);
        }
        if !contains_id(b, x) && !contains_id(&out, x) {
            let ghost before = out@;
            out.push(x);
            proof {
                before.lemma_push_to_set_commute(x);
                assert(out@ =~= before.push(x));
                assert forall|p: int, q: int| 0 <= p < q < out@.len() implies out@[p] != out@[q] by {
                    if q == out@.len() - 1 {
                        assert(before.contains(out@[p]));
                    }
                }
            }
            assert(out@.to_set() =~= a@.subrange(0, i + 1).to_set().difference(b@.to_set()));
        } else {
            proof {
                if !b@.contains(x) {
                    assert(out@.contains(x));
                    assert(out@.to_set().contains(x));
                }
            }
            assert(out@.to_set() =~= a@.subrange(0, i + 1).to_set().difference(b@.to_set()));
        }
        i = i + 1;
    }
    assert(a@.subrange(0, i as int) =~= a@);
    out
}

/// The result of comparing the graph's ids with the stored ids.
pub struct Consistency {
    pub only_in_index: Vec<u64>,
    pub only_in_store: Vec<u64>,
}

/// Compare the graph's ids with the stored ids.
pub fn analyze_consistency(index_ids: &Vec<u64>, store_ids: &Vec<u64>) -> (r: Consistency)
    ensures
        r.only_in_index@.to_set() == index_ids@.to_set().difference(store_ids@.to_set()),
        r.only_in_store@.to_set() == store_ids@.to_set().difference(index_ids@.to_set()),
        r.only_in_index@.no_duplicates(),
        r.only_in_store@.no_duplicates(),
{
    Consistency {
        only_in_index: ids_missing_from(index_ids, store_ids),
        only_in_store: ids_missing_from(store_ids, index_ids),
    }
}

/// The ids of graph and store together are the ids found in both plus those
/// found in only one of them.
pub proof fn law_consistency_partition(index_ids: Set<u64>, store_ids: Set<u64>)
    ensures
        index_ids.union(store_ids) == index_ids.intersect(store_ids).union(index_ids.difference(store_ids)).union(
            store_ids.difference(index_ids),
        ),
        index_ids.difference(store_ids).disjoint(store_ids.difference(index_ids)),
{
    assert(index_ids.union(store_ids) =~= index_ids.intersect(store_ids).union(index_ids.difference(store_ids)).union(
        store_ids.difference(index_ids),
    ));
}

/// What a rebuild makes of one stored entry.
#[derive(PartialEq, Eq, Structural, Clone, Copy)]
pub enum RebuildEntry {
    /// The key is not a vector key.
    InvalidKey,
    /// The value is not a whole number of 4-byte floats.
    BadLength { id: u64 },
    /// The vector has the wrong dimension.
    DimensionMismatch { id: u64, got: usize },
    /// The entry is taken (if its values are finite).
    Candidate { id: u64 },
}

/// The decision for one stored entry, checked in this order: key, value
/// length, dimension.
pub open spec fn spec_rebuild_entry(key: Seq<u8>, value_len: usize, dim: usize) -> RebuildEntry {
    match spec_key_id(crate::s3_route::utf8_lossy(key)) {
        None => RebuildEntry::InvalidKey,
        Some(id) => if value_len % 4 != 0 {
            RebuildEntry::BadLength { id }
        } else if value_len / 4 != dim {
            RebuildEntry::DimensionMismatch { id, got: (value_len / 4) as usize }
        } else {
            RebuildEntry::Candidate { id }
        },
    }
}

/// Decide what a rebuild does with one stored entry.
pub fn classify_rebuild_entry(key: &[u8], value_len: usize, dim: usize) -> (r: RebuildEntry)
    ensures
        r == spec_rebuild_entry(key@, value_len, dim),
{
    match parse_vector_key(key) {
        None => RebuildEntry::InvalidKey,
        Some(id) => {
            if value_len % 4 != 0 {
                RebuildEntry::BadLength { id }
            } else if value_len / 4 != dim {
                RebuildEntry::DimensionMismatch { id, got: value_len / 4 }
            } else {
                RebuildEntry::Candidate { id }
            }
        },
    }
}

} // verus!
