//! The SQL engine's own rules for turning stored rows into columns and
//! query results back into rows: the column type each stored type becomes,
//! which stored fields land in which column, the statement that creates a
//! schema, and how result rows are numbered. Planning and running queries
//! happens outside.

use vstd::prelude::*;
use crate::text::{push_all, str_chars, string_from_chars};

verus! {

/// The column types of the in-memory tables queries run over.
#[derive(Clone, Copy, PartialEq, Eq, Structural, Debug)]
pub enum ArrowKind {
    Utf8,
    Int64,
    Float64,
    Binary,
}

/// The column type for a stored column type code: `STRING` text, `INT64`
/// and `FLOAT` numbers, `BYTES` binary, anything else text.
pub open spec fn spec_arrow_kind(code: i32) -> ArrowKind {
    if code == 1 {
        ArrowKind::Int64
    } else if code == 3 {
        ArrowKind::Float64
    } else if code == 2 {
        ArrowKind::Binary
    } else {
        ArrowKind::Utf8
    }
}

/// The column type of a stored column; also the type of a column that
/// received no values.
pub fn arrow_type_for_column(code: i32) -> (r: ArrowKind)
    ensures
        r == spec_arrow_kind(code),
{
    if code == 1 {
        ArrowKind::Int64
    } else if code == 3 {
        ArrowKind::Float64
    } else if code == 2 {
        ArrowKind::Binary
    } else {
        ArrowKind::Utf8
    }
}

/// The rows, in order, whose field at position `c` exists and could be
/// decoded; `decoded[r][i]` says whether field `i` of row `r` decoded.
pub open spec fn column_rows(decoded: Seq<Seq<bool>>, c: int) -> Seq<int>
    decreases decoded.len(),
{
    if decoded.len() == 0 {
        Seq::empty()
    } else {
        let prev = column_rows(decoded.drop_last(), c);
        let last = decoded.last();
        if 0 <= c < last.len() && last[c] {
            prev.push(decoded.len() - 1)
        } else {
            prev
        }
    }
}

/// Which stored rows feed each of `n_cols` columns: for each column, the
/// rows whose field at that position decoded, in row order. Fields beyond
/// the last column are ignored.
pub fn column_sources(n_cols: usize, decoded: &Vec<Vec<bool>>) -> (r: Vec<Vec<usize>>)
    ensures
        r.len() == n_cols,
        forall|c: int| 0 <= c < n_cols ==> (#[trigger] r@[c])@.map_values(|x: usize| x as int) == column_rows(
            decoded@.map_values(|v: Vec<bool>| v@),
            c,
        ),
{
    let ghost dv = decoded@.map_values(|v: Vec<bool>| v@);
    let mut r: Vec<Vec<usize>> = Vec::new();
    let mut c: usize = 0;
    while c < n_cols
        invariant
            c <= n_cols,
            r.len() == c,
            dv == decoded@.map_values(|v: Vec<bool>| v@),
            forall|k: int| 0 <= k < c ==> (#[trigger] r@[k])@.map_values(|x: usize| x as int) == column_rows(dv, k),
        decreases n_cols - c,
    {
        let mut col: Vec<usize> = Vec::new();
        let mut i: usize = 0;
        while i < decoded.len()
            invariant
                i <= decoded.len(),
                dv == decoded@.map_values(|v: Vec<bool>| v@),
                col@.map_values(|x: usize| x as int) == column_rows(dv.take(i as int), c as int),
            decreases decoded.len() - i,
        {
            assert(dv.take(i as int + 1).drop_last() =~= dv.take(i as int));
            assert(dv.take(i as int + 1).last() == decoded@[i as int]@);
            if c < decoded[i].len() && decoded[i][c] {
                col.push(i);
            }
            assert(col@.map_values(|x: usize| x as int) =~= column_rows(dv.take(i as int + 1), c as int));
            i = i + 1;
        }
        assert(dv.take(decoded.len() as int) =~= dv);
        r.push(col);
        c = c + 1;
    }
    r
}

/// `CREATE SCHEMA IF NOT EXISTS laoflchdb.{schema};`.
pub fn create_schema_statement(schema: &str) -> (r: String)
    ensures
        r@ == "CREATE SCHEMA IF NOT EXISTS laoflchdb."@ + schema@ + ";"@,
{
    let mut s = str_chars("CREATE SCHEMA IF NOT EXISTS laoflchdb.");
    push_all(&mut s, &str_chars(schema));
    push_all(&mut s, &str_chars(";"));
    string_from_chars(&s)
}

/// A query gives no rows and no columns when it produced no batches or its
/// result has no fields.
pub fn result_is_empty(batches: usize, fields: usize) -> (r: bool)
    ensures
        r == (batches == 0 || fields == 0),
{
    batches == 0 || fields == 0
}

/// The row ids of a result made of batches with the given row counts:
/// each batch numbers its rows from 0, and the batches follow each other.
pub open spec fn spec_row_ids(sizes: Seq<usize>) -> Seq<int>
    decreases sizes.len(),
{
    if sizes.len() == 0 {
        Seq::empty()
    } else {
        spec_row_ids(sizes.drop_last()) + Seq::new(sizes.last() as nat, |i: int| i)
    }
}

/// Number the rows of a result batch by batch.
pub fn result_row_ids(sizes: &Vec<usize>) -> (r: Vec<u64>)
    requires
        spec_row_ids(sizes@).len() <= usize::MAX,
    ensures
        r@.map_values(|x: u64| x as int) == spec_row_ids(sizes@),
{
    let mut r: Vec<u64> = Vec::new();
    let mut b: usize = 0;
    while b < sizes.len()
        invariant
            b <= sizes.len(),
            spec_row_ids(sizes@).len() <= usize::MAX,
            r@.map_values(|x: u64| x as int) == spec_row_ids(sizes@.take(b as int)),
        decreases sizes.len() - b,
    {
        proof {
            assert(sizes@.take(b as int + 1).drop_last() =~= sizes@.take(b as int));
            lemma_row_ids_prefix(sizes@, b as int + 1);
        }
        let n = sizes[b];
        let ghost base = r@.map_values(|x: u64| x as int);
        let mut i: usize = 0;
        while i < n
            invariant
                i <= n,
                n == sizes@[b as int],
                b < sizes.len(),
                base == spec_row_ids(sizes@.take(b as int)),
                base.len() + n <= usize::MAX,
                r@.len() == base.len() + i,
                r@.map_values(|x: u64| x as int) == base + Seq::new(i as nat, |k: int| k),
            decreases n - i,
        {
            let ghost before = r@;
            r.push(i as u64);
            let ghost want = base + Seq::new(i as nat + 1, |k: int| k);
            let ghost got = r@.map_values(|x: u64| x as int);
            assert forall|k: int| 0 <= k < want.len() implies #[trigger] got[k] == want[k] by {
                if k < want.len() - 1 {
                    assert(r@[k] == before[k]);
                    assert(before.map_values(|x: u64| x as int)[k] == (base + Seq::new(i as nat, |j: int| j))[k]);
                }
            }
            assert(r@.map_values(|x: u64| x as int) =~= want);
            i = i + 1;
        }
        assert(sizes@.take(b as int + 1).last() == sizes@[b as int]);
        assert(sizes@.take(b as int + 1).drop_last() =~= sizes@.take(b as int));
        assert(r@.map_values(|x: u64| x as int) =~= spec_row_ids(sizes@.take(b as int + 1)));
        b = b + 1;
    }
    assert(sizes@.take(sizes.len() as int) =~= sizes@);
    r
}

proof fn lemma_row_ids_prefix(sizes: Seq<usize>, k: int)
    requires
        0 <= k <= sizes.len(),
    ensures
        spec_row_ids(sizes.take(k)).len() <= spec_row_ids(sizes).len(),
    decreases sizes.len(),
{
    if k < sizes.len() {
        assert(sizes.drop_last().take(k) =~= sizes.take(k));
        lemma_row_ids_prefix(sizes.drop_last(), k);
    } else {
        assert(sizes.take(k) =~= sizes);
    }
}

} // verus!
