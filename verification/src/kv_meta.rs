//! The key-value storage engine's own rules: engine options, the keys its
//! schema, table and column records are stored under, which tables exist
//! according to those records, what table creation refuses, and which keys
//! a prefix listing or a range scan takes from the ordered store.

use vstd::prelude::*;
use crate::text;
use crate::text::{chars_eq, push_all, str_chars, string_from_chars};

verus! {

broadcast use text::lemma_chars_deep_view;

/// Where an engine keeps its data and which schema it serves.
pub struct EngineOptions {
    pub db_path: String,
    pub schema_name: String,
}

impl Default for EngineOptions {
    fn default() -> (r: EngineOptions)
        ensures
            r.db_path@ == "./db_data"@,
            r.schema_name@ == "sys"@,
    {
        EngineOptions { db_path: "./db_data".to_string(), schema_name: "sys".to_string() }
    }
}

// ---------------------------------------------------------------------------
// Metadata keys
// ---------------------------------------------------------------------------

/// `META-SCHEMA:{schema}`.
pub fn schema_meta_key(schema: &str) -> (r: String)
    ensures
        r@ == "META-SCHEMA:"@ + schema@,
{
    let mut k = str_chars("META-SCHEMA:");
    push_all(&mut k, &str_chars(schema));
    string_from_chars(&k)
}

/// `META-TABLE:{table}:{table_id}`.
pub fn table_meta_key(table: &str, table_id: u64) -> (r: String)
    ensures
        r@ == "META-TABLE:"@ + table@ + seq![':'] + text::decimal_seq(table_id as nat),
{
    let mut k = str_chars("META-TABLE:");
    push_all(&mut k, &str_chars(table));
    k.push(':');
    push_all(&mut k, &text::u64_to_decimal(table_id));
    string_from_chars(&k)
}

/// `META-TABLE:{table}:`, the prefix of a table's record.
pub fn table_meta_prefix(table: &str) -> (r: String)
    ensures
        r@ == "META-TABLE:"@ + table@ + seq![':'],
{
    let mut k = str_chars("META-TABLE:");
    push_all(&mut k, &str_chars(table));
    k.push(':');
    string_from_chars(&k)
}

/// `META-COL:{table_id, 20 digits}:{column}:{column_id}`.
pub fn column_meta_key(table_id: u64, column: &str, column_id: u64) -> (r: String)
    ensures
        r@ == "META-COL:"@ + text::zero_pad(text::decimal_seq(table_id as nat), 20) + seq![':'] + column@ + seq![':']
            + text::decimal_seq(column_id as nat),
{
    let mut k = str_chars("META-COL:");
    push_all(&mut k, &text::u64_to_decimal_padded(table_id, 20));
    k.push(':');
    push_all(&mut k, &str_chars(column));
    k.push(':');
    push_all(&mut k, &text::u64_to_decimal(column_id));
    string_from_chars(&k)
}

/// `META-COL:{table_id, 20 digits}:`, the prefix of a table's column records.
pub fn column_meta_prefix(table_id: u64) -> (r: String)
    ensures
        r@ == "META-COL:"@ + text::zero_pad(text::decimal_seq(table_id as nat), 20) + seq![':'],
{
    let mut k = str_chars("META-COL:");
    push_all(&mut k, &text::u64_to_decimal_padded(table_id, 20));
    k.push(':');
    string_from_chars(&k)
}

// ---------------------------------------------------------------------------
// Tables
// ---------------------------------------------------------------------------

/// Calls `String::from_utf8`. Claimed (its documentation): it succeeds
/// exactly on valid UTF-8 and then holds the decoded characters.
#[verifier::external_body]
fn utf8_string(bytes: Vec<u8>) -> (r: Option<String>)
    ensures
        r is Some <==> vstd::utf8::valid_utf8(bytes@),
        r matches Some(s) ==> s@ == vstd::utf8::decode_utf8(bytes@),
{
    String::from_utf8(bytes).ok()
}

/// The table a metadata key names: the text between `META-TABLE:` and the
/// next `:` (or the end).
pub open spec fn table_of_key(key: Seq<u8>) -> Option<Seq<char>> {
    if vstd::utf8::valid_utf8(key) {
        let k = vstd::utf8::decode_utf8(key);
        if text::has_prefix(k, "META-TABLE:"@) {
            let rest = k.subrange("META-TABLE:"@.len() as int, k.len() as int);
            Some(text::split_by(rest, seq![':'])[0])
        } else {
            None
        }
    } else {
        None
    }
}

/// The set of tables named by metadata keys.
pub open spec fn tables_of_keys(keys: Seq<Seq<u8>>) -> Set<Seq<char>>
    decreases keys.len(),
{
    if keys.len() == 0 {
        Set::empty()
    } else {
        match table_of_key(keys.last()) {
            Some(t) => tables_of_keys(keys.drop_last()).insert(t),
            None => tables_of_keys(keys.drop_last()),
        }
    }
}

fn contains_chars(v: &Vec<Vec<char>>, x: &[char]) -> (r: bool)
    ensures
        r == v.deep_view().contains(x@),
{
    let mut i: usize = 0;
    while i < v.len()
        invariant
            i <= v.len(),
            forall|k: int| 0 <= k < i ==> v.deep_view()[k] != x@,
        decreases v.len() - i,
    {
        assert(v.deep_view()[i as int] == v@[i as int]@);
        if chars_eq(&v[i], x) {
            return true;
        }
        i = i + 1;
    }
    false
}

/// The tables named by the table metadata keys, each once. Keys that are
/// not UTF-8 or not table keys are passed over.
pub fn list_tables_from_keys(keys: &Vec<Vec<u8>>) -> (r: Vec<String>)
    ensures
        r@.map_values(|s: String| s@).to_set() == tables_of_keys(keys@.map_values(|k: Vec<u8>| k@)),
        r@.map_values(|s: String| s@).no_duplicates(),
{
    let ghost kv = keys@.map_values(|k: Vec<u8>| k@);
    let prefix = str_chars("META-TABLE:");
    let colon: [char; 1] = [':'];
    assert(colon@ =~= seq![':']);
    let mut names: Vec<Vec<char>> = Vec::new();
    let mut i: usize = 0;
    while i < keys.len()
        invariant
            i <= keys.len(),
            kv == keys@.map_values(|k: Vec<u8>| k@),
            prefix@ == "META-TABLE:"@,
            colon@ == seq![':'],
            names.deep_view().to_set() == tables_of_keys(kv.subrange(0, i as int)),
            names.deep_view().no_duplicates(),
        decreases keys.len() - i,
    {
        let ghost next = kv.subrange(0, i + 1);
        assert(next.drop_last() =~= kv.subrange(0, i as int));
        assert(next.last() == keys@[i as int]@);
        let copy = copy_bytes(&keys[i]);
        match utf8_string(copy) {
            Some(s) => {
                let k = str_chars(s.as_str());
                if text::starts_with(&k, &prefix) {
                    let rest = text::chars_from(&k, prefix.len());
                    let parts = text::split_chars(&rest, &colon);
                    proof {
                        lemma_split_nonempty(rest@, seq![':']);
                    }
                    assert(parts.deep_view()[0] == parts@[0]@);
                    let name = parts[0].clone();
                    let ghost before = names.deep_view();
                    if !contains_chars(&names, &name) {
                        names.push(name);
                        proof {
                            assert(names.deep_view() =~= before.push(parts@[0]@));
                            before.lemma_push_to_set_commute(parts@[0]@);
                            assert forall|p: int, q: int| 0 <= p < q < names.deep_view().len() implies names.deep_view()[p] != names.deep_view()[q] by {
                                if q == names.deep_view().len() - 1 {
                                    assert(before.contains(names.deep_view()[p]));
                                }
                            }
                        }
                    } else {
                        proof {
                            assert(tables_of_keys(next) == tables_of_keys(kv.subrange(0, i as int)).insert(parts@[0]@));
                            assert(before.to_set().contains(parts@[0]@));
                            assert(before.to_set().insert(parts@[0]@) =~= before.to_set());
                        }
                    }
                }
            },
            None => {},
        }
        i = i + 1;
    }
    assert(kv.subrange(0, i as int) =~= kv);
    text::strings_from_char_vecs(&names)
}

/// Splitting always gives at least one piece.
proof fn lemma_split_nonempty(s: Seq<char>, pat: Seq<char>)
    ensures
        text::split_by(s, pat).len() > 0,
    decreases s.len(),
{
    if pat.len() > 0 {
        match text::find_from(s, pat, 0) {
            Some(i) => {
                if 0 <= i && i + pat.len() <= s.len() {
                }
            },
            None => {},
        }
    }
}

/// Why a table cannot be created.
pub open spec fn spec_create_table_check(table: Seq<char>, exists: bool) -> Result<(), Seq<char>> {
    if table == "default"@ {
        Err("Cannot create reserved table 'default'"@)
    } else if exists {
        Err("Table '"@ + table + "' already exists"@)
    } else {
        Ok(())
    }
}

/// Check that a table may be created: the name `default` is reserved and an
/// existing table is not created again.
pub fn check_create_table(table: &str, exists: bool) -> (r: Result<(), String>)
    ensures
        match r {
            Ok(_) => spec_create_table_check(table@, exists) == Ok::<(), Seq<char>>(()),
            Err(e) => spec_create_table_check(table@, exists) == Err::<(), Seq<char>>(e@),
        },
{
    let t = str_chars(table);
    if chars_eq(&t, &str_chars("default")) {
        return Err("Cannot create reserved table 'default'".to_string());
    }
    if exists {
        let mut m = str_chars("Table '");
        push_all(&mut m, &t);
        push_all(&mut m, &str_chars("' already exists"));
        return Err(string_from_chars(&m));
    }
    Ok(())
}

// ---------------------------------------------------------------------------
// Ordered scans
// ---------------------------------------------------------------------------

/// Strict lexicographic order on byte strings.
pub open spec fn bytes_lt(a: Seq<u8>, b: Seq<u8>) -> bool
    decreases a.len(),
{
    if a.len() == 0 {
        b.len() > 0
    } else if b.len() == 0 {
        false
    } else if a[0] != b[0] {
        a[0] < b[0]
    } else {
        bytes_lt(a.drop_first(), b.drop_first())
    }
}

/// Whether `a` sorts before `b`.
pub fn bytes_less(a: &[u8], b: &[u8]) -> (r: bool)
    ensures
        r == bytes_lt(a@, b@),
{
    let mut i: usize = 0;
    assert(a@.subrange(0, a@.len() as int) =~= a@);
    assert(b@.subrange(0, b@.len() as int) =~= b@);
    while i < a.len() && i < b.len() && a[i] == b[i]
        invariant
            i <= a.len(),
            i <= b.len(),
            bytes_lt(a@, b@) == bytes_lt(a@.subrange(i as int, a@.len() as int), b@.subrange(i as int, b@.len() as int)),
        decreases a.len() - i,
    {
        assert(a@.subrange(i as int, a@.len() as int).drop_first() =~= a@.subrange(i + 1, a@.len() as int));
        assert(b@.subrange(i as int, b@.len() as int).drop_first() =~= b@.subrange(i + 1, b@.len() as int));
        i = i + 1;
    }
    let ghost sa = a@.subrange(i as int, a@.len() as int);
    let ghost sb = b@.subrange(i as int, b@.len() as int);
    if i == a.len() {
        assert(sa.len() == 0);
        i < b.len()
    } else if i == b.len() {
        assert(sb.len() == 0 && sa.len() > 0);
        false
    } else {
        assert(sa.len() > 0 && sb.len() > 0);
        assert(sa[0] == a@[i as int] && sb[0] == b@[i as int]);
        a[i] < b[i]
    }
}

/// The keys a prefix listing takes from the keys the store yields after
/// seeking to the prefix: while they start with the prefix, stopping once
/// `limit` keys are taken (a limit of zero still takes the first). Without a
/// prefix, every key up to the limit.
pub open spec fn spec_take_keys(keys: Seq<Seq<u8>>, prefix: Option<Seq<u8>>, limit: Option<usize>) -> Seq<Seq<u8>>
    decreases keys.len(),
{
    if keys.len() == 0 {
        Seq::empty()
    } else {
        let k = keys[0];
        let take = match prefix {
            Some(p) => text::has_byte_prefix(k, p),
            None => true,
        };
        if !take {
            Seq::empty()
        } else {
            match limit {
                Some(l) => if l <= 1 {
                    seq![k]
                } else {
                    seq![k] + spec_take_keys(keys.drop_first(), prefix, Some((l - 1) as usize))
                },
                None => seq![k] + spec_take_keys(keys.drop_first(), prefix, None),
            }
        }
    }
}

fn copy_bytes(b: &[u8]) -> (r: Vec<u8>)
    ensures
        r@ == b@,
{
    let mut v: Vec<u8> = Vec::new();
    let mut i: usize = 0;
    while i < b.len()
        invariant
            i <= b.len(),
            v@ == b@.subrange(0, i as int),
        decreases b.len() - i,
    {
        v.push(b[i]);
        i = i + 1;
    }
    assert(b@.subrange(0, i as int) =~= b@);
    v
}

/// Take the keys of a prefix listing from what the store yields.
pub fn take_keys(keys: &Vec<Vec<u8>>, prefix: Option<&[u8]>, limit: Option<usize>) -> (r: Vec<Vec<u8>>)
    ensures
        r@.map_values(|k: Vec<u8>| k@) == spec_take_keys(
            keys@.map_values(|k: Vec<u8>| k@),
            match prefix {
                Some(p) => Some(p@),
                None => None::<Seq<u8>>,
            },
            limit,
        ),
{
    let ghost kv = keys@.map_values(|k: Vec<u8>| k@);
    let ghost pv = match prefix {
        Some(p) => Some(p@),
        None => None::<Seq<u8>>,
    };
    let mut out: Vec<Vec<u8>> = Vec::new();
    let mut i: usize = 0;
    assert(kv.subrange(0, kv.len() as int) =~= kv);
    loop
        invariant
            i <= keys.len(),
            kv == keys@.map_values(|k: Vec<u8>| k@),
            pv == match prefix {
                Some(p) => Some(p@),
                None => None::<Seq<u8>>,
            },
            match limit {
                Some(l) => out.len() < l || (l == 0 && out.len() == 0),
                None => true,
            },
            spec_take_keys(kv, pv, limit) == out@.map_values(|k: Vec<u8>| k@) + spec_take_keys(
                kv.subrange(i as int, kv.len() as int),
                pv,
                match limit {
                    Some(l) => Some((if l > out.len() { l - out.len() } else { 0 }) as usize),
                    None => None::<usize>,
                },
            ),
        decreases keys.len() - i,
    {
        let ghost rest = kv.subrange(i as int, kv.len() as int);
        if i == keys.len() {
            assert(rest.len() == 0);
            assert(out@.map_values(|k: Vec<u8>| k@) + Seq::<Seq<u8>>::empty() =~= out@.map_values(|k: Vec<u8>| k@));
            return out;
        }
        let take = match prefix {
            Some(p) => text::starts_with_bytes(&keys[i], p),
            None => true,
        };
        assert(rest[0] == keys@[i as int]@);
        if !take {
            assert(out@.map_values(|k: Vec<u8>| k@) + Seq::<Seq<u8>>::empty() =~= out@.map_values(|k: Vec<u8>| k@));
            return out;
        }
        let ghost before = out@.map_values(|k: Vec<u8>| k@);
        let ghost rem = match limit {
            Some(l) => Some((if l > out.len() { l - out.len() } else { 0 }) as usize),
            None => None::<usize>,
        };
        assert(spec_take_keys(rest, pv, rem) == match rem {
            Some(r) => if r <= 1 {
                seq![rest[0]]
            } else {
                seq![rest[0]] + spec_take_keys(rest.drop_first(), pv, Some((r - 1) as usize))
            },
            None => seq![rest[0]] + spec_take_keys(rest.drop_first(), pv, None),
        });
        out.push(copy_bytes(&keys[i]));
        assert(out@.map_values(|k: Vec<u8>| k@) =~= before.push(keys@[i as int]@));
        assert(rest.drop_first() =~= kv.subrange(i + 1, kv.len() as int));
        match limit {
            Some(l) => {
                if out.len() >= l {
                    assert(out@.map_values(|k: Vec<u8>| k@) + Seq::<Seq<u8>>::empty() =~= before + seq![keys@[i as int]@]);
                    assert(out@.map_values(|k: Vec<u8>| k@) + Seq::<Seq<u8>>::empty() =~= out@.map_values(|k: Vec<u8>| k@));
                    return out;
                }
                assert(before + (seq![keys@[i as int]@] + spec_take_keys(rest.drop_first(), pv, Some((l - out.len()) as usize)))
                    =~= out@.map_values(|k: Vec<u8>| k@) + spec_take_keys(rest.drop_first(), pv, Some((l - out.len()) as usize)));
            },
            None => {
                assert(before + (seq![keys@[i as int]@] + spec_take_keys(rest.drop_first(), pv, None))
                    =~= out@.map_values(|k: Vec<u8>| k@) + spec_take_keys(rest.drop_first(), pv, None));
            },
        }
        i = i + 1;
    }
}

/// The entries a range scan takes from what the store yields after seeking
/// to its start: while the key sorts before `end`, stopping once `limit`
/// entries are taken (a limit of zero still takes the first).
pub open spec fn spec_take_range(entries: Seq<(Seq<u8>, Seq<u8>)>, end: Seq<u8>, limit: Option<usize>) -> Seq<(Seq<u8>, Seq<u8>)>
    decreases entries.len(),
{
    if entries.len() == 0 || !bytes_lt(entries[0].0, end) {
        Seq::empty()
    } else {
        match limit {
            Some(l) => if l <= 1 {
                seq![entries[0]]
            } else {
                seq![entries[0]] + spec_take_range(entries.drop_first(), end, Some((l - 1) as usize))
            },
            None => seq![entries[0]] + spec_take_range(entries.drop_first(), end, None),
        }
    }
}

/// Take the entries of a range scan from what the store yields.
pub fn take_range(entries: &Vec<(Vec<u8>, Vec<u8>)>, end: &[u8], limit: Option<usize>) -> (r: Vec<(Vec<u8>, Vec<u8>)>)
    ensures
        r@.map_values(|e: (Vec<u8>, Vec<u8>)| (e.0@, e.1@)) == spec_take_range(
            entries@.map_values(|e: (Vec<u8>, Vec<u8>)| (e.0@, e.1@)),
            end@,
            limit,
        ),
{
    let ghost ev = entries@.map_values(|e: (Vec<u8>, Vec<u8>)| (e.0@, e.1@));
    let mut out: Vec<(Vec<u8>, Vec<u8>)> = Vec::new();
    let mut i: usize = 0;
    assert(ev.subrange(0, ev.len() as int) =~= ev);
    loop
        invariant
            i <= entries.len(),
            ev == entries@.map_values(|e: (Vec<u8>, Vec<u8>)| (e.0@, e.1@)),
            match limit {
                Some(l) => out.len() < l || (l == 0 && out.len() == 0),
                None => true,
            },
            spec_take_range(ev, end@, limit) == out@.map_values(|e: (Vec<u8>, Vec<u8>)| (e.0@, e.1@)) + spec_take_range(
                ev.subrange(i as int, ev.len() as int),
                end@,
                match limit {
                    Some(l) => Some((if l > out.len() { l - out.len() } else { 0 }) as usize),
                    None => None::<usize>,
                },
            ),
        decreases entries.len() - i,
    {
        let ghost rest = ev.subrange(i as int, ev.len() as int);
        let ghost outv = out@.map_values(|e: (Vec<u8>, Vec<u8>)| (e.0@, e.1@));
        if i == entries.len() || !bytes_less(&entries[i].0, end) {
            assert(outv + Seq::<(Seq<u8>, Seq<u8>)>::empty() =~= outv);
            return out;
        }
        assert(rest[0] == (entries@[i as int].0@, entries@[i as int].1@));
        let item = (copy_bytes(&entries[i].0), copy_bytes(&entries[i].1));
        out.push(item);
        assert(out@.map_values(|e: (Vec<u8>, Vec<u8>)| (e.0@, e.1@)) =~= outv.push(rest[0]));
        assert(rest.drop_first() =~= ev.subrange(i + 1, ev.len() as int));
        match limit {
            Some(l) => {
                if out.len() >= l {
                    assert(out@.map_values(|e: (Vec<u8>, Vec<u8>)| (e.0@, e.1@)) + Seq::<(Seq<u8>, Seq<u8>)>::empty()
                        =~= outv + seq![rest[0]]);
                    return out;
                }
                assert(outv + (seq![rest[0]] + spec_take_range(rest.drop_first(), end@, Some((l - out.len()) as usize)))
                    =~= out@.map_values(|e: (Vec<u8>, Vec<u8>)| (e.0@, e.1@)) + spec_take_range(rest.drop_first(), end@, Some((l - out.len()) as usize)));
            },
            None => {
                assert(outv + (seq![rest[0]] + spec_take_range(rest.drop_first(), end@, None))
                    =~= out@.map_values(|e: (Vec<u8>, Vec<u8>)| (e.0@, e.1@)) + spec_take_range(rest.drop_first(), end@, None));
            },
        }
        i = i + 1;
    }
}

// ---------------------------------------------------------------------------
// Table and column records
// ---------------------------------------------------------------------------

/// The stored record of a table.
pub struct KvTableMeta {
    pub table_id: u64,
    pub table_name: String,
    pub column_count: u32,
    pub next_auto_inc_column_id: u64,
    pub comment: String,
}

/// The stored record of a column.
pub struct KvColumnMeta {
    pub table_id: u64,
    pub column_id: u64,
    pub column_name: String,
    pub column_type: i32,
    pub comment: String,
}

impl KvColumnMeta {
    /// A copy of the record.
    pub fn duplicate(&self) -> (r: KvColumnMeta)
        ensures
            r == *self,
    {
        KvColumnMeta {
            table_id: self.table_id,
            column_id: self.column_id,
            column_name: self.column_name.clone(),
            column_type: self.column_type,
            comment: self.comment.clone(),
        }
    }
}

/// A column as a table is created with: name, type code and comment.
pub struct KvColumnSpec {
    pub name: String,
    pub column_type: i32,
    pub comment: Option<String>,
}

/// An optional text, empty when absent.
pub open spec fn or_empty(c: Option<Seq<char>>) -> Seq<char> {
    match c {
        Some(t) => t,
        None => Seq::empty(),
    }
}

/// The key of a column record (see `column_meta_key`).
pub open spec fn spec_column_key(table_id: u64, column: Seq<char>, column_id: u64) -> Seq<char> {
    "META-COL:"@ + text::zero_pad(text::decimal_seq(table_id as nat), 20) + seq![':'] + column + seq![':']
        + text::decimal_seq(column_id as nat)
}

/// The id a new table gets from the schema record's counter, and the counter
/// stored back: the counter's value, which then moves on by one; 0 and no
/// update when the schema has no record.
pub fn next_table_id(counter: Option<u64>) -> (r: (u64, Option<u64>))
    requires
        counter matches Some(n) ==> n < u64::MAX,
    ensures
        r == match counter {
            Some(n) => (n, Some((n + 1) as u64)),
            None => (0u64, None::<u64>),
        },
{
    match counter {
        Some(n) => (n, Some(n + 1)),
        None => (0, None),
    }
}

/// The records written for a new table: its table record under its key,
/// and one column record per column under the column's key, numbered from
/// 0 in the given order; absent comments are empty.
pub fn table_records(
    table: &str,
    comment: Option<&str>,
    columns: &Vec<KvColumnSpec>,
    table_id: u64,
) -> (r: (String, KvTableMeta, Vec<(String, KvColumnMeta)>))
    ensures
        r.0@ == "META-TABLE:"@ + table@ + seq![':'] + text::decimal_seq(table_id as nat),
        r.1.table_id == table_id,
        r.1.table_name@ == table@,
        r.1.column_count == columns.len() as u32,
        r.1.next_auto_inc_column_id == columns.len() as u64,
        r.1.comment@ == or_empty(match comment {
            Some(c) => Some(c@),
            None => None,
        }),
        r.2.len() == columns.len(),
        forall|i: int| 0 <= i < columns.len() ==> {
            &&& (#[trigger] r.2[i]).0@ == spec_column_key(table_id, columns[i].name@, i as u64)
            &&& r.2[i].1.table_id == table_id
            &&& r.2[i].1.column_id == i
            &&& r.2[i].1.column_name@ == columns[i].name@
            &&& r.2[i].1.column_type == columns[i].column_type
            &&& r.2[i].1.comment@ == or_empty(match columns[i].comment {
                Some(c) => Some(c@),
                None => None,
            })
        },
{
    let key = table_meta_key(table, table_id);
    let meta = KvTableMeta {
        table_id,
        table_name: table.to_string(),
        column_count: columns.len() as u32,
        next_auto_inc_column_id: columns.len() as u64,
        comment: match comment {
            Some(c) => c.to_string(),
            None => String::new(),
        },
    };
    let mut cols: Vec<(String, KvColumnMeta)> = Vec::new();
    let mut i: usize = 0;
    while i < columns.len()
        invariant
            i <= columns.len(),
            cols.len() == i,
            forall|k: int| 0 <= k < i ==> {
                &&& (#[trigger] cols@[k]).0@ == spec_column_key(table_id, columns@[k].name@, k as u64)
                &&& cols@[k].1.table_id == table_id
                &&& cols@[k].1.column_id == k
                &&& cols@[k].1.column_name@ == columns@[k].name@
                &&& cols@[k].1.column_type == columns@[k].column_type
                &&& cols@[k].1.comment@ == or_empty(match columns@[k].comment {
                    Some(c) => Some(c@),
                    None => None,
                })
            },
        decreases columns.len() - i,
    {
        let c = &columns[i];
        let ckey = column_meta_key(table_id, c.name.as_str(), i as u64);
        let cm = KvColumnMeta {
            table_id,
            column_id: i as u64,
            column_name: c.name.clone(),
            column_type: c.column_type,
            comment: match &c.comment {
                Some(t) => t.clone(),
                None => String::new(),
            },
        };
        cols.push((ckey, cm));
        i = i + 1;
    }
    (key, meta, cols)
}

// ---------------------------------------------------------------------------
// Listing columns
// ---------------------------------------------------------------------------

/// Where stable insertion puts `x` into `s` by column id: after every
/// record whose id is not greater, scanning from the end.
pub open spec fn id_insert_pos(s: Seq<KvColumnMeta>, x: KvColumnMeta) -> int
    decreases s.len(),
{
    if s.len() == 0 {
        0
    } else if x.column_id < s.last().column_id {
        id_insert_pos(s.drop_last(), x)
    } else {
        s.len() as int
    }
}

/// Column records stably sorted by column id (as `sort_by_key`).
pub open spec fn sort_by_column_id(s: Seq<KvColumnMeta>) -> Seq<KvColumnMeta>
    decreases s.len(),
{
    if s.len() == 0 {
        s
    } else {
        let sorted = sort_by_column_id(s.drop_last());
        sorted.insert(id_insert_pos(sorted, s.last()), s.last())
    }
}

/// Order the column records of a table by column id, keeping the stored
/// order among equal ids.
pub fn sort_columns(v: &Vec<KvColumnMeta>) -> (r: Vec<KvColumnMeta>)
    ensures
        r@ == sort_by_column_id(v@),
{
    let mut sorted: Vec<KvColumnMeta> = Vec::new();
    let mut i: usize = 0;
    while i < v.len()
        invariant
            i <= v.len(),
            sorted@ == sort_by_column_id(v@.subrange(0, i as int)),
        decreases v.len() - i,
    {
        let x = v[i].duplicate();
        let ghost sv = sorted@;
        let mut j = sorted.len();
        assert(sv.subrange(0, j as int) =~= sv);
        while j > 0 && x.column_id < sorted[j - 1].column_id
            invariant
                j <= sorted.len(),
                sv == sorted@,
                id_insert_pos(sv, x) == id_insert_pos(sv.subrange(0, j as int), x),
            decreases j,
        {
            assert(sv.subrange(0, j as int).drop_last() =~= sv.subrange(0, j - 1));
            assert(sv.subrange(0, j as int).last() == sv[j - 1]);
            j = j - 1;
        }
        proof {
            if j > 0 {
                assert(sv.subrange(0, j as int).last() == sv[j - 1]);
            }
            assert(id_insert_pos(sv.subrange(0, j as int), x) == j as int);
        }
        sorted.insert(j, x);
        let ghost next = v@.subrange(0, i + 1);
        assert(next.drop_last() =~= v@.subrange(0, i as int));
        assert(next.last() == v@[i as int]);
        assert(sorted@ =~= sv.insert(j as int, v@[i as int]));
        i = i + 1;
    }
    assert(v@.subrange(0, i as int) =~= v@);
    sorted
}

/// Column ids never decrease along `s`.
pub open spec fn ids_ordered(s: Seq<KvColumnMeta>) -> bool {
    forall|a: int, b: int| 0 <= a <= b < s.len() ==> (#[trigger] s[a]).column_id <= (#[trigger] s[b]).column_id
}

proof fn lemma_insert_pos(s: Seq<KvColumnMeta>, x: KvColumnMeta)
    requires
        ids_ordered(s),
    ensures
        0 <= id_insert_pos(s, x) <= s.len(),
        forall|a: int| 0 <= a < id_insert_pos(s, x) ==> (#[trigger] s[a]).column_id <= x.column_id,
        forall|a: int| id_insert_pos(s, x) <= a < s.len() ==> x.column_id < (#[trigger] s[a]).column_id,
    decreases s.len(),
{
    if s.len() > 0 {
        let d = s.drop_last();
        assert(ids_ordered(d)) by {
            assert forall|a: int, b: int| 0 <= a <= b < d.len() implies (#[trigger] d[a]).column_id <= (#[trigger] d[b]).column_id by {
                assert(d[a] == s[a] && d[b] == s[b]);
            }
        }
        lemma_insert_pos(d, x);
        if x.column_id < s.last().column_id {
            assert forall|a: int| 0 <= a < id_insert_pos(s, x) implies (#[trigger] s[a]).column_id <= x.column_id by {
                assert(d[a] == s[a]);
            }
            assert forall|a: int| id_insert_pos(s, x) <= a < s.len() implies x.column_id < (#[trigger] s[a]).column_id by {
                if a < s.len() - 1 {
                    assert(d[a] == s[a]);
                }
            }
        } else {
            assert forall|a: int| 0 <= a < id_insert_pos(s, x) implies (#[trigger] s[a]).column_id <= x.column_id by {
                assert(s[a].column_id <= s[s.len() - 1].column_id);
            }
        }
    }
}

/// Listed columns come in column-id order and are exactly the stored
/// records: sorting neither drops nor adds a record.
pub proof fn law_columns_sorted(s: Seq<KvColumnMeta>)
    ensures
        ids_ordered(sort_by_column_id(s)),
        sort_by_column_id(s).to_multiset() == s.to_multiset(),
    decreases s.len(),
{
    broadcast use vstd::multiset::group_multiset_axioms;
    if s.len() > 0 {
        let d = s.drop_last();
        law_columns_sorted(d);
        let sorted = sort_by_column_id(d);
        let x = s.last();
        lemma_insert_pos(sorted, x);
        let p = id_insert_pos(sorted, x);
        let r = sorted.insert(p, x);
        assert(ids_ordered(r)) by {
            assert forall|a: int, b: int| 0 <= a <= b < r.len() implies (#[trigger] r[a]).column_id <= (#[trigger] r[b]).column_id by {
                if a < p {
                    assert(r[a] == sorted[a]);
                    if b < p {
                        assert(r[b] == sorted[b]);
                    } else if b == p {
                        assert(r[b] == x);
                    } else {
                        assert(r[b] == sorted[b - 1]);
                    }
                } else if a == p {
                    assert(r[a] == x);
                    if b > p {
                        assert(r[b] == sorted[b - 1]);
                    }
                } else {
                    assert(r[a] == sorted[a - 1]);
                    assert(r[b] == sorted[b - 1]);
                }
            }
        }
        broadcast use vstd::seq_lib::group_to_multiset_ensures;
        assert(r.remove(p) =~= sorted);
        assert(r[p] == x);
        assert(r.contains(x));
        assert(r.to_multiset() =~= sorted.to_multiset().insert(x));
        assert(s =~= d.push(x));
        assert(s.to_multiset() =~= d.to_multiset().insert(x));
    }
}

// ---------------------------------------------------------------------------
// Comments
// ---------------------------------------------------------------------------

/// `Table '{table}' not found`.
pub fn table_not_found_message(table: &str) -> (r: String)
    ensures
        r@ == "Table '"@ + table@ + "' not found"@,
{
    let mut m = str_chars("Table '");
    push_all(&mut m, &str_chars(table));
    push_all(&mut m, &str_chars("' not found"));
    string_from_chars(&m)
}

/// Give a column a new comment: the first of the records found under the
/// column's prefix that carries its name; none is an error naming column
/// and table.
pub fn comment_column(
    records: &Vec<KvColumnMeta>,
    table: &str,
    column: &str,
    comment: &str,
) -> (r: Result<(usize, KvColumnMeta), String>)
    ensures
        match r {
            Ok((i, m)) => {
                &&& i < records.len()
                &&& records@[i as int].column_name@ == column@
                &&& forall|k: int| 0 <= k < i ==> (#[trigger] records@[k]).column_name@ != column@
                &&& m.table_id == records@[i as int].table_id
                &&& m.column_id == records@[i as int].column_id
                &&& m.column_name == records@[i as int].column_name
                &&& m.column_type == records@[i as int].column_type
                &&& m.comment@ == comment@
            },
            Err(e) => {
                &&& forall|k: int| 0 <= k < records.len() ==> (#[trigger] records@[k]).column_name@ != column@
                &&& e@ == "Column '"@ + column@ + "' not found in table '"@ + table@ + seq!['\'']
            },
        },
{
    let c = str_chars(column);
    let mut i: usize = 0;
    while i < records.len()
        invariant
            i <= records.len(),
            c@ == column@,
            forall|k: int| 0 <= k < i ==> (#[trigger] records@[k]).column_name@ != column@,
        decreases records.len() - i,
    {
        if chars_eq(&str_chars(records[i].column_name.as_str()), &c) {
            let mut m = records[i].duplicate();
            m.comment = comment.to_string();
            return Ok((i, m));
        }
        i = i + 1;
    }
    let mut e = str_chars("Column '");
    push_all(&mut e, &c);
    push_all(&mut e, &str_chars("' not found in table '"));
    push_all(&mut e, &str_chars(table));
    e.push('\'');
    Err(string_from_chars(&e))
}

} // verus!
