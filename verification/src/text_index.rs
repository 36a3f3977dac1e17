//! The full-text table engine's own rules: which index field each column
//! becomes, how a table's columns are listed back from its index schema,
//! how row ids are handed out, which fields a row document carries, and how
//! stored values are read back as bytes. Writing to and searching the index
//! happens outside.

use vstd::prelude::*;
use vstd::hash_map::StringHashMap;
use crate::text;
use crate::text::{chars_eq, push_all, str_chars, string_from_chars};
use crate::image::snowflake_next;
use crate::s3_route::{lossy_text, utf8_lossy};

verus! {

broadcast use text::lemma_chars_deep_view;

/// The name of the hidden field that holds a row's id.
pub open spec fn row_id_name() -> Seq<char> {
    "_row_id"@
}

/// Whether `name` is the hidden row-id field.
pub fn is_row_id_field(name: &str) -> (r: bool)
    ensures
        r == (name@ == row_id_name()),
{
    chars_eq(&str_chars(name), &str_chars("_row_id"))
}

// ---------------------------------------------------------------------------
// Column types and index fields
// ---------------------------------------------------------------------------

/// What an index field holds: tokenised text, stored-only text, or a
/// stored number.
#[derive(Clone, Copy, PartialEq, Eq, Structural, Debug)]
pub enum FieldKind {
    IndexedText,
    StoredText,
    Int64,
    Float64,
    UInt64,
}

/// The field a column of type `code` becomes: strings and bytes are
/// tokenised text, `INT64` and `FLOAT` stored numbers, anything else
/// stored-only text.
pub open spec fn spec_field_kind(code: i32) -> FieldKind {
    if code == 0 || code == 2 {
        FieldKind::IndexedText
    } else if code == 1 {
        FieldKind::Int64
    } else if code == 3 {
        FieldKind::Float64
    } else {
        FieldKind::StoredText
    }
}

/// The index field kind for a column type code.
pub fn field_kind_for_column(code: i32) -> (r: FieldKind)
    ensures
        r == spec_field_kind(code),
{
    if code == 0 || code == 2 {
        FieldKind::IndexedText
    } else if code == 1 {
        FieldKind::Int64
    } else if code == 3 {
        FieldKind::Float64
    } else {
        FieldKind::StoredText
    }
}

/// The column type a field is reported as: text is `STRING`, numbers
/// `INT64` or `FLOAT`, anything else `STRING`.
pub open spec fn spec_column_code(kind: FieldKind) -> i32 {
    match kind {
        FieldKind::Int64 => 1,
        FieldKind::Float64 => 3,
        _ => 0,
    }
}

/// The column type code reported for an index field kind.
pub fn column_type_of_field(kind: FieldKind) -> (r: i32)
    ensures
        r == spec_column_code(kind),
{
    match kind {
        FieldKind::Int64 => 1,
        FieldKind::Float64 => 3,
        _ => 0,
    }
}

/// A column's type survives the trip into the index and back when it is
/// `STRING`, `INT64` or `FLOAT`; every other type comes back as `STRING`.
pub proof fn law_column_type_roundtrip(code: i32)
    ensures
        spec_column_code(spec_field_kind(code)) == (if code == 1 || code == 3 { code } else { 0 }),
{
}

/// A column as a table is created with: its name and type code.
pub struct ColumnSpec {
    pub name: String,
    pub column_type: i32,
}

/// A field of a table's index schema.
pub struct IndexField {
    pub name: String,
    pub kind: FieldKind,
}

/// An index field as a name and a kind.
pub open spec fn field_view(f: IndexField) -> (Seq<char>, FieldKind) {
    (f.name@, f.kind)
}

/// The index schema of a table with columns `cols`: the row-id field, then
/// one field per column, in order.
pub open spec fn spec_schema(cols: Seq<ColumnSpec>) -> Seq<(Seq<char>, FieldKind)> {
    seq![(row_id_name(), FieldKind::UInt64)] + Seq::new(
        cols.len(),
        |i: int| (cols[i].name@, spec_field_kind(cols[i].column_type)),
    )
}

/// Build the index schema for a table's columns.
pub fn index_schema(columns: &Vec<ColumnSpec>) -> (r: Vec<IndexField>)
    requires
        columns.len() < usize::MAX,
    ensures
        r@.map_values(|f: IndexField| field_view(f)) == spec_schema(columns@),
{
    let mut r: Vec<IndexField> = Vec::new();
    r.push(IndexField { name: "_row_id".to_string(), kind: FieldKind::UInt64 });
    let mut i: usize = 0;
    while i < columns.len()
        invariant
            i <= columns.len(),
            r.len() == i + 1,
            r@.map_values(|f: IndexField| field_view(f)) == spec_schema(columns@.take(i as int)),
        decreases columns.len() - i,
    {
        let c = &columns[i];
        let ghost before = r@;
        r.push(IndexField { name: c.name.clone(), kind: field_kind_for_column(c.column_type) });
        assert(r@ == before.push(r@[i as int + 1]));
        let ghost old_s = spec_schema(columns@.take(i as int));
        let ghost new_s = spec_schema(columns@.take(i as int + 1));
        assert forall|k: int| 0 <= k < new_s.len() implies #[trigger] new_s[k] == r@.map_values(|f: IndexField| field_view(f))[k] by {
            if k < new_s.len() - 1 {
                assert(new_s[k] == old_s[k]);
                assert(before.map_values(|f: IndexField| field_view(f))[k] == old_s[k]);
            }
        }
        assert(r@.map_values(|f: IndexField| field_view(f)) =~= new_s);
        i = i + 1;
    }
    assert(columns@.take(columns.len() as int) =~= columns@);
    r
}

// ---------------------------------------------------------------------------
// Listing columns
// ---------------------------------------------------------------------------

/// A column as listed back from a table's index schema.
pub struct ColumnListing {
    pub column_id: u64,
    pub column_name: String,
    pub column_type: i32,
}

/// A listed column as an id, a name and a type code.
pub open spec fn listing_view(c: ColumnListing) -> (int, Seq<char>, i32) {
    (c.column_id as int, c.column_name@, c.column_type)
}

/// The fields of a schema other than the row-id field, in order.
pub open spec fn column_fields(fs: Seq<(Seq<char>, FieldKind)>) -> Seq<(Seq<char>, FieldKind)>
    decreases fs.len(),
{
    if fs.len() == 0 {
        fs
    } else if fs.last().0 != row_id_name() {
        column_fields(fs.drop_last()).push(fs.last())
    } else {
        column_fields(fs.drop_last())
    }
}

/// The columns listed for an index schema: every field but the row-id
/// field, in schema order, numbered from 0, each with the type its field
/// kind is reported as.
pub open spec fn spec_listing(fields: Seq<(Seq<char>, FieldKind)>) -> Seq<(int, Seq<char>, i32)> {
    let l = column_fields(fields);
    Seq::new(l.len(), |i: int| (i, l[i].0, spec_column_code(l[i].1)))
}

/// List the columns of an index schema.
pub fn list_columns(fields: &Vec<IndexField>) -> (r: Vec<ColumnListing>)
    ensures
        r@.map_values(|c: ColumnListing| listing_view(c)) == spec_listing(
            fields@.map_values(|f: IndexField| field_view(f)),
        ),
{
    let ghost fv = fields@.map_values(|f: IndexField| field_view(f));
    let mut r: Vec<ColumnListing> = Vec::new();
    let mut next_id: u64 = 0;
    let mut i: usize = 0;
    while i < fields.len()
        invariant
            i <= fields.len(),
            fv == fields@.map_values(|f: IndexField| field_view(f)),
            next_id as int == r@.len(),
            next_id <= i,
            next_id as int == column_fields(fv.take(i as int)).len(),
            r@.map_values(|c: ColumnListing| listing_view(c)) == spec_listing(fv.take(i as int)),
        decreases fields.len() - i,
    {
        let f = &fields[i];
        assert(fv.take(i as int + 1).drop_last() =~= fv.take(i as int));
        assert(fv[i as int] == field_view(fields@[i as int]));
        if !is_row_id_field(f.name.as_str()) {
            let ghost before = r@;
            r.push(ColumnListing {
                column_id: next_id,
                column_name: f.name.clone(),
                column_type: column_type_of_field(f.kind),
            });
            assert(r@ == before.push(r@[next_id as int]));
            let ghost old_l = spec_listing(fv.take(i as int));
            let ghost new_l = spec_listing(fv.take(i as int + 1));
            assert forall|k: int| 0 <= k < new_l.len() implies #[trigger] new_l[k] == r@.map_values(|c: ColumnListing| listing_view(c))[k] by {
                if k < new_l.len() - 1 {
                    assert(new_l[k] == old_l[k]);
                    assert(before.map_values(|c: ColumnListing| listing_view(c))[k] == old_l[k]);
                }
            }
            assert(r@.map_values(|c: ColumnListing| listing_view(c)) =~= new_l);
            next_id = next_id + 1;
        } else {
            assert(r@.map_values(|c: ColumnListing| listing_view(c)) =~= spec_listing(fv.take(i as int + 1)));
        }
        i = i + 1;
    }
    assert(fv.take(fields.len() as int) =~= fv);
    r
}

// ---------------------------------------------------------------------------
// Table catalogue
// ---------------------------------------------------------------------------

/// What the engine records of a table.
pub struct TableMeta {
    pub table_id: u64,
    pub table_name: String,
    pub column_count: u32,
    pub comment: String,
    pub next_auto_inc_column_id: u64,
}

impl TableMeta {
    /// A copy of the record.
    pub fn duplicate(&self) -> (r: TableMeta)
        ensures
            r == *self,
    {
        TableMeta {
            table_id: self.table_id,
            table_name: self.table_name.clone(),
            column_count: self.column_count,
            comment: self.comment.clone(),
            next_auto_inc_column_id: self.next_auto_inc_column_id,
        }
    }
}

/// The engine's refusals.
#[derive(Debug)]
pub enum TextIndexError {
    TableNotFound(String),
    RowNotFound(u64),
    ColumnNotFound(String),
    LockError(String),
    QueryParseError(String),
}

/// The text of an error.
pub open spec fn spec_error_message(e: TextIndexError) -> Seq<char> {
    match e {
        TextIndexError::TableNotFound(t) => "Table not found: "@ + t@,
        TextIndexError::RowNotFound(id) => "Row not found: "@ + text::decimal_seq(id as nat),
        TextIndexError::ColumnNotFound(c) => "Column not found: "@ + c@,
        TextIndexError::LockError(m) => "Lock error: "@ + m@,
        TextIndexError::QueryParseError(m) => "Query parse error: "@ + m@,
    }
}

impl TextIndexError {
    /// The message shown for the error.
    pub fn message(&self) -> (r: String)
        ensures
            r@ == spec_error_message(*self),
    {
        let (mut head, tail) = match self {
            TextIndexError::TableNotFound(t) => (str_chars("Table not found: "), str_chars(t.as_str())),
            TextIndexError::RowNotFound(id) => (str_chars("Row not found: "), text::u64_to_decimal(*id)),
            TextIndexError::ColumnNotFound(c) => (str_chars("Column not found: "), str_chars(c.as_str())),
            TextIndexError::LockError(m) => (str_chars("Lock error: "), str_chars(m.as_str())),
            TextIndexError::QueryParseError(m) => (str_chars("Query parse error: "), str_chars(m.as_str())),
        };
        push_all(&mut head, &tail);
        string_from_chars(&head)
    }
}

/// The record a new table gets.
pub open spec fn new_table_meta(table: Seq<char>, comment: Option<Seq<char>>, column_count: nat, table_id: u64) -> (Seq<char>, u64, int, Seq<char>, int) {
    (table, table_id, column_count as u32 as int, match comment {
        Some(c) => c,
        None => Seq::<char>::empty(),
    }, column_count as int)
}

/// A record as its name, id, column count, comment and next column id.
pub open spec fn meta_view(m: TableMeta) -> (Seq<char>, u64, int, Seq<char>, int) {
    (m.table_name@, m.table_id, m.column_count as int, m.comment@, m.next_auto_inc_column_id as int)
}

/// No name occurs twice.
pub open spec fn distinct_names(ns: Seq<Seq<char>>) -> bool {
    forall|i: int, j: int| 0 <= i < j < ns.len() ==> #[trigger] ns[i] != #[trigger] ns[j]
}

/// The tables of one engine: their records, their index schemas, the
/// fallback row-id counters, and the table names in creation order.
pub struct TextIndexCatalog {
    tables: StringHashMap<TableMeta>,
    schemas: StringHashMap<Vec<IndexField>>,
    next_row_id: StringHashMap<u64>,
    names: Vec<String>,
}

impl TextIndexCatalog {
    /// The table records by name.
    pub closed spec fn tables(&self) -> Map<Seq<char>, (Seq<char>, u64, int, Seq<char>, int)> {
        self.tables@.map_values(|m: TableMeta| meta_view(m))
    }

    /// The index schema of each table.
    pub closed spec fn schemas(&self) -> Map<Seq<char>, Seq<(Seq<char>, FieldKind)>> {
        self.schemas@.map_values(|v: Vec<IndexField>| v@.map_values(|f: IndexField| field_view(f)))
    }

    /// The next fallback row id of each table that has one.
    pub closed spec fn counters(&self) -> Map<Seq<char>, u64> {
        self.next_row_id@
    }

    closed spec fn name_seq(&self) -> Seq<Seq<char>> {
        self.names@.map_values(|s: String| s@)
    }

    /// The names are distinct and are exactly the tables that have a record
    /// and a schema; each record carries its own name.
    pub closed spec fn wf(&self) -> bool {
        &&& distinct_names(self.name_seq())
        &&& forall|k: Seq<char>| self.tables@.contains_key(k) <==> self.name_seq().contains(k)
        &&& forall|k: Seq<char>| self.schemas@.contains_key(k) <==> self.tables@.contains_key(k)
        &&& forall|k: Seq<char>| #[trigger] self.tables@.contains_key(k) ==> self.tables@[k].table_name@ == k
    }

    /// An engine with no tables.
    pub fn new() -> (r: TextIndexCatalog)
        ensures
            r.wf(),
            r.tables() == Map::<Seq<char>, (Seq<char>, u64, int, Seq<char>, int)>::empty(),
            r.schemas() == Map::<Seq<char>, Seq<(Seq<char>, FieldKind)>>::empty(),
            r.counters() == Map::<Seq<char>, u64>::empty(),
    {
        let r = TextIndexCatalog {
            tables: StringHashMap::new(),
            schemas: StringHashMap::new(),
            next_row_id: StringHashMap::new(),
            names: Vec::new(),
        };
        assert(r.name_seq() =~= Seq::<Seq<char>>::empty());
        assert(r.tables() =~= Map::<Seq<char>, (Seq<char>, u64, int, Seq<char>, int)>::empty());
        assert(r.schemas() =~= Map::<Seq<char>, Seq<(Seq<char>, FieldKind)>>::empty());
        r
    }

    /// Whether a table of that name exists.
    pub fn contains(&self, table: &str) -> (r: bool)
        ensures
            r == self.tables().contains_key(table@),
    {
        self.tables.contains_key(table)
    }
}

/// A comment as characters.
pub open spec fn comment_view(c: Option<&str>) -> Option<Seq<char>> {
    match c {
        Some(s) => Some(s@),
        None => None,
    }
}

/// Calls `Uuid::new_v4()` and keeps the low 64 bits of its value. The bits
/// are random except the variant bits that `new_v4` sets (`10` at the top
/// of those 64 bits), so the id lies in `[2^63, 2^63 + 2^62)` and is never 0.
#[verifier::external_body]
fn random_table_id() -> (r: u64)
    ensures
        0x8000_0000_0000_0000u64 <= r < 0xC000_0000_0000_0000u64,
{
    uuid::Uuid::new_v4().as_u128() as u64
}

impl TextIndexCatalog {
    /// Record a new table under the given id, unless a table of that name
    /// exists or its directory is already there; the id is returned either
    /// way. A new table's fallback row ids start at 1.
    pub fn register_table(
        &mut self,
        table: &str,
        comment: Option<&str>,
        columns: &Vec<ColumnSpec>,
        table_id: u64,
        path_exists: bool,
    ) -> (r: u64)
        requires
            old(self).wf(),
            columns.len() < usize::MAX,
        ensures
            final(self).wf(),
            r == table_id,
            (old(self).tables().contains_key(table@) || path_exists) ==> {
                &&& final(self).tables() == old(self).tables()
                &&& final(self).schemas() == old(self).schemas()
                &&& final(self).counters() == old(self).counters()
            },
            !(old(self).tables().contains_key(table@) || path_exists) ==> {
                &&& final(self).tables() == old(self).tables().insert(
                    table@,
                    new_table_meta(table@, comment_view(comment), columns.len() as nat, table_id),
                )
                &&& final(self).schemas() == old(self).schemas().insert(table@, spec_schema(columns@))
                &&& final(self).counters() == old(self).counters().insert(table@, 1)
            },
    {
        if self.tables.contains_key(table) || path_exists {
            return table_id;
        }
        let schema = index_schema(columns);
        let meta = TableMeta {
            table_id,
            table_name: table.to_string(),
            column_count: columns.len() as u32,
            comment: match comment {
                Some(c) => c.to_string(),
                None => String::new(),
            },
            next_auto_inc_column_id: columns.len() as u64,
        };
        let ghost old_names = self.name_seq();
        let ghost old_tables = self.tables@;
        let ghost old_schemas = self.schemas@;
        self.tables.insert(table.to_string(), meta);
        self.schemas.insert(table.to_string(), schema);
        self.next_row_id.insert(table.to_string(), 1);
        self.names.push(table.to_string());
        proof {
            assert(self.name_seq() =~= old_names.push(table@));
            assert(!old_names.contains(table@));
            assert(distinct_names(self.name_seq())) by {
                let ns = self.name_seq();
                assert forall|i: int, j: int| 0 <= i < j < ns.len() implies #[trigger] ns[i] != #[trigger] ns[j] by {
                    if j == ns.len() - 1 {
                        assert(ns[i] == old_names[i]);
                    } else {
                        assert(ns[i] == old_names[i] && ns[j] == old_names[j]);
                    }
                }
            }
            assert forall|k: Seq<char>| self.tables@.contains_key(k) <==> self.name_seq().contains(k) by {
                if k == table@ {
                    assert(self.name_seq()[old_names.len() as int] == k);
                } else {
                    if old_names.contains(k) {
                        let i = choose|i: int| 0 <= i < old_names.len() && old_names[i] == k;
                        assert(self.name_seq()[i] == k);
                    }
                    if self.name_seq().contains(k) {
                        let i = choose|i: int| 0 <= i < self.name_seq().len() && self.name_seq()[i] == k;
                        assert(old_names[i] == k);
                    }
                }
            }
            assert(self.tables() =~= old(self).tables().insert(
                table@,
                new_table_meta(table@, comment_view(comment), columns.len() as nat, table_id),
            ));
            assert(self.schemas() =~= old(self).schemas().insert(table@, spec_schema(columns@)));
        }
        table_id
    }

    /// Create a table under a fresh random id, which is never 0 (it lies in
    /// `[2^63, 2^63 + 2^62)`); see `register_table`.
    pub fn create_table(
        &mut self,
        table: &str,
        comment: Option<&str>,
        columns: &Vec<ColumnSpec>,
        path_exists: bool,
    ) -> (r: u64)
        requires
            old(self).wf(),
            columns.len() < usize::MAX,
        ensures
            final(self).wf(),
            0x8000_0000_0000_0000u64 <= r < 0xC000_0000_0000_0000u64,
            (old(self).tables().contains_key(table@) || path_exists) ==> {
                &&& final(self).tables() == old(self).tables()
                &&& final(self).schemas() == old(self).schemas()
                &&& final(self).counters() == old(self).counters()
            },
            !(old(self).tables().contains_key(table@) || path_exists) ==> {
                &&& final(self).tables() == old(self).tables().insert(
                    table@,
                    new_table_meta(table@, comment_view(comment), columns.len() as nat, r),
                )
                &&& final(self).schemas() == old(self).schemas().insert(table@, spec_schema(columns@))
                &&& final(self).counters() == old(self).counters().insert(table@, 1)
            },
    {
        let id = random_table_id();
        self.register_table(table, comment, columns, id, path_exists)
    }
}

/// `e` is the refusal of a missing table named `table`.
pub open spec fn is_table_not_found(e: TextIndexError, table: Seq<char>) -> bool {
    e matches TextIndexError::TableNotFound(t) && t@ == table
}

/// A record with its comment replaced.
pub open spec fn with_comment(m: (Seq<char>, u64, int, Seq<char>, int), c: Seq<char>) -> (Seq<char>, u64, int, Seq<char>, int) {
    (m.0, m.1, m.2, c, m.4)
}

pub(crate) fn find_name(names: &Vec<String>, table: &str) -> (r: Option<usize>)
    ensures
        match r {
            Some(i) => i < names.len() && names@[i as int]@ == table@,
            None => forall|i: int| 0 <= i < names.len() ==> (#[trigger] names@[i])@ != table@,
        },
{
    let t = str_chars(table);
    let mut i: usize = 0;
    while i < names.len()
        invariant
            i <= names.len(),
            t@ == table@,
            forall|k: int| 0 <= k < i ==> (#[trigger] names@[k])@ != table@,
        decreases names.len() - i,
    {
        if chars_eq(&str_chars(names[i].as_str()), &t) {
            return Some(i);
        }
        i = i + 1;
    }
    None
}

impl TextIndexCatalog {
    /// Forget a table: its record, schema and row-id counter. Nothing
    /// changes when there is no such table.
    pub fn drop_table(&mut self, table: &str)
        requires
            old(self).wf(),
        ensures
            final(self).wf(),
            final(self).tables() == old(self).tables().remove(table@),
            final(self).schemas() == old(self).schemas().remove(table@),
            old(self).tables().contains_key(table@) ==> final(self).counters() == old(self).counters().remove(table@),
            !old(self).tables().contains_key(table@) ==> final(self).counters() == old(self).counters(),
    {
        if !self.tables.contains_key(table) {
            assert(self.tables() =~= old(self).tables().remove(table@));
            assert(self.schemas() =~= old(self).schemas().remove(table@));
            return;
        }
        let ghost old_names = self.name_seq();
        self.tables.remove(table);
        self.schemas.remove(table);
        self.next_row_id.remove(table);
        match find_name(&self.names, table) {
            Some(i) => {
                self.names.remove(i);
                proof {
                    let ns = self.name_seq();
                    assert(ns =~= old_names.remove(i as int));
                    assert(distinct_names(ns)) by {
                        assert forall|a: int, b: int| 0 <= a < b < ns.len() implies #[trigger] ns[a] != #[trigger] ns[b] by {
                            let a2 = if a < i { a } else { a + 1 };
                            let b2 = if b < i { b } else { b + 1 };
                            assert(ns[a] == old_names[a2] && ns[b] == old_names[b2]);
                        }
                    }
                    assert forall|k: Seq<char>| self.tables@.contains_key(k) <==> ns.contains(k) by {
                        if k == table@ {
                            if ns.contains(k) {
                                let j = choose|j: int| 0 <= j < ns.len() && ns[j] == k;
                                let j2 = if j < i { j } else { j + 1 };
                                assert(old_names[j2] == k);
                                assert(old_names[i as int] == k);
                            }
                        } else {
                            if old_names.contains(k) {
                                let j = choose|j: int| 0 <= j < old_names.len() && old_names[j] == k;
                                assert(j != i);
                                let j2 = if j < i { j } else { j - 1 };
                                assert(ns[j2] == k);
                            }
                            if ns.contains(k) {
                                let j = choose|j: int| 0 <= j < ns.len() && ns[j] == k;
                                let j2 = if j < i { j } else { j + 1 };
                                assert(old_names[j2] == k);
                            }
                        }
                    }
                }
            },
            None => {
                proof {
                    assert(old_names.contains(table@));
                    let j = choose|j: int| 0 <= j < old_names.len() && old_names[j] == table@;
                    assert(self.names@[j]@ == table@);
                }
            },
        }
        assert(self.tables() =~= old(self).tables().remove(table@));
        assert(self.schemas() =~= old(self).schemas().remove(table@));
    }

    /// The names of all tables, each once.
    pub fn list_tables(&self) -> (r: Vec<String>)
        requires
            self.wf(),
        ensures
            distinct_names(r@.map_values(|s: String| s@)),
            forall|k: Seq<char>| self.tables().contains_key(k) <==> r@.map_values(|s: String| s@).contains(k),
    {
        let r = self.names.clone();
        assert(r@.map_values(|s: String| s@) =~= self.name_seq());
        r
    }

    /// The record of a table, if it exists.
    pub fn get_table_meta(&self, table: &str) -> (r: Option<TableMeta>)
        ensures
            match r {
                Some(m) => self.tables().contains_key(table@) && self.tables()[table@] == meta_view(m),
                None => !self.tables().contains_key(table@),
            },
    {
        match self.tables.get(table) {
            Some(m) => Some(m.duplicate()),
            None => None,
        }
    }

    /// Replace a table's comment; a missing table is refused.
    pub fn update_table_comment(&mut self, table: &str, comment: &str) -> (r: Result<(), TextIndexError>)
        requires
            old(self).wf(),
        ensures
            final(self).wf(),
            final(self).schemas() == old(self).schemas(),
            final(self).counters() == old(self).counters(),
            match r {
                Ok(()) => old(self).tables().contains_key(table@) && final(self).tables() == old(self).tables().insert(
                    table@,
                    with_comment(old(self).tables()[table@], comment@),
                ),
                Err(e) => !old(self).tables().contains_key(table@) && final(self).tables() == old(self).tables()
                    && is_table_not_found(e, table@),
            },
    {
        match self.tables.get(table) {
            Some(m) => {
                let mut m2 = m.duplicate();
                m2.comment = comment.to_string();
                let ghost old_names = self.name_seq();
                self.tables.insert(table.to_string(), m2);
                assert(self.name_seq() == old_names);
                assert(self.tables() =~= old(self).tables().insert(
                    table@,
                    with_comment(old(self).tables()[table@], comment@),
                ));
                Ok(())
            },
            None => Err(TextIndexError::TableNotFound(table.to_string())),
        }
    }

    /// The columns of a table as listed from its index schema; a missing
    /// table is refused.
    pub fn list_table_cols(&self, table: &str) -> (r: Result<Vec<ColumnListing>, TextIndexError>)
        ensures
            match r {
                Ok(cols) => self.schemas().contains_key(table@)
                    && cols@.map_values(|c: ColumnListing| listing_view(c)) == spec_listing(self.schemas()[table@]),
                Err(e) => !self.schemas().contains_key(table@) && is_table_not_found(e, table@),
            },
    {
        match self.schemas.get(table) {
            Some(fields) => Ok(list_columns(fields)),
            None => Err(TextIndexError::TableNotFound(table.to_string())),
        }
    }
}

/// A name and type code as characters and a code.
pub open spec fn typed_view(p: (String, i32)) -> (Seq<char>, i32) {
    (p.0@, p.1)
}

impl TextIndexCatalog {
    /// The type code of each column of a table, by name; a missing table is
    /// refused.
    pub fn get_column_types(&self, table: &str) -> (r: Result<Vec<(String, i32)>, TextIndexError>)
        ensures
            match r {
                Ok(ts) => self.schemas().contains_key(table@) && ts@.map_values(|p: (String, i32)| typed_view(p))
                    == spec_listing(self.schemas()[table@]).map_values(|c: (int, Seq<char>, i32)| (c.1, c.2)),
                Err(e) => !self.schemas().contains_key(table@) && is_table_not_found(e, table@),
            },
    {
        match self.list_table_cols(table) {
            Ok(cols) => {
                let ghost lv = cols@.map_values(|c: ColumnListing| listing_view(c));
                let mut ts: Vec<(String, i32)> = Vec::new();
                let mut i: usize = 0;
                while i < cols.len()
                    invariant
                        i <= cols.len(),
                        lv == cols@.map_values(|c: ColumnListing| listing_view(c)),
                        ts.len() == i,
                        forall|k: int| 0 <= k < i ==> #[trigger] typed_view(ts@[k]) == (lv[k].1, lv[k].2),
                    decreases cols.len() - i,
                {
                    ts.push((cols[i].column_name.clone(), cols[i].column_type));
                    i = i + 1;
                }
                assert(ts@.map_values(|p: (String, i32)| typed_view(p)) =~= lv.map_values(|c: (int, Seq<char>, i32)| (c.1, c.2)));
                Ok(ts)
            },
            Err(e) => Err(e),
        }
    }
}

// ---------------------------------------------------------------------------
// Row ids and row documents
// ---------------------------------------------------------------------------

/// The fallback row id of a table: its counter, 1 when it has none.
pub open spec fn fallback_row_id(counters: Map<Seq<char>, u64>, table: Seq<char>) -> u64 {
    if counters.contains_key(table) {
        counters[table]
    } else {
        1
    }
}

/// Successive fallback ids of a table increase: after an id is handed out,
/// the next one is larger.
pub proof fn law_fallback_ids_increase(counters: Map<Seq<char>, u64>, table: Seq<char>)
    requires
        fallback_row_id(counters, table) < u64::MAX,
    ensures
        fallback_row_id(
            counters.insert(table, (fallback_row_id(counters, table) + 1) as u64),
            table,
        ) > fallback_row_id(counters, table),
{
}

/// The text fields of a row document: each listed column paired with the
/// row's value at the same position read as UTF-8 (invalid sequences
/// replaced); values or columns beyond the shorter list are left out.
pub open spec fn spec_row_document(cols: Seq<Seq<char>>, data: Seq<Seq<u8>>) -> Seq<(Seq<char>, Seq<char>)> {
    let n = if cols.len() < data.len() { cols.len() } else { data.len() };
    Seq::new(n, |i: int| (cols[i], utf8_lossy(data[i])))
}

/// The names of listed columns.
pub open spec fn listing_names(l: Seq<(int, Seq<char>, i32)>) -> Seq<Seq<char>> {
    l.map_values(|c: (int, Seq<char>, i32)| c.1)
}

/// A pair of strings as characters.
pub open spec fn pair_view(p: (String, String)) -> (Seq<char>, Seq<char>) {
    (p.0@, p.1@)
}

/// The text fields of a row's document.
pub fn row_document(cols: &Vec<ColumnListing>, data: &Vec<Vec<u8>>) -> (r: Vec<(String, String)>)
    ensures
        r@.map_values(|p: (String, String)| pair_view(p)) == spec_row_document(
            cols@.map_values(|c: ColumnListing| c.column_name@),
            data@.map_values(|d: Vec<u8>| d@),
        ),
{
    let ghost cn = cols@.map_values(|c: ColumnListing| c.column_name@);
    let ghost dv = data@.map_values(|d: Vec<u8>| d@);
    let n: usize = if cols.len() < data.len() { cols.len() } else { data.len() };
    let mut r: Vec<(String, String)> = Vec::new();
    let mut i: usize = 0;
    while i < n
        invariant
            i <= n,
            n == (if cols.len() < data.len() { cols.len() } else { data.len() }),
            cn == cols@.map_values(|c: ColumnListing| c.column_name@),
            dv == data@.map_values(|d: Vec<u8>| d@),
            r.len() == i,
            forall|k: int| 0 <= k < i ==> #[trigger] pair_view(r@[k]) == (cn[k], utf8_lossy(dv[k])),
        decreases n - i,
    {
        let name = cols[i].column_name.clone();
        let value = lossy_text(data[i].as_slice());
        r.push((name, value));
        i = i + 1;
    }
    assert(r@.map_values(|p: (String, String)| pair_view(p)) =~= spec_row_document(cn, dv));
    r
}

impl TextIndexCatalog {
    /// A row id for a table: the generated id when there is one, else the
    /// table's fallback id, after which its counter moves on by one.
    pub fn next_row_id(&mut self, generated: Option<u64>, table: &str) -> (r: u64)
        requires
            old(self).wf(),
            generated is None ==> fallback_row_id(old(self).counters(), table@) < u64::MAX,
        ensures
            final(self).wf(),
            final(self).tables() == old(self).tables(),
            final(self).schemas() == old(self).schemas(),
            match generated {
                Some(id) => r == id && final(self).counters() == old(self).counters(),
                None => r == fallback_row_id(old(self).counters(), table@)
                    && final(self).counters() == old(self).counters().insert(table@, (r + 1) as u64),
            },
    {
        match generated {
            Some(id) => id,
            None => {
                let current: u64 = match self.next_row_id.get(table) {
                    Some(v) => *v,
                    None => 1,
                };
                self.next_row_id.insert(table.to_string(), current + 1);
                current
            },
        }
    }

    /// A row id for a table from the snowflake generator, or the table's
    /// fallback id when the generator fails.
    pub fn get_next_row_id(&mut self, generator: &snowflake_me::Snowflake, table: &str) -> (r: u64)
        requires
            old(self).wf(),
            fallback_row_id(old(self).counters(), table@) < u64::MAX,
        ensures
            final(self).wf(),
            final(self).tables() == old(self).tables(),
            final(self).schemas() == old(self).schemas(),
            final(self).counters() == old(self).counters() || (r == fallback_row_id(old(self).counters(), table@)
                && final(self).counters() == old(self).counters().insert(table@, (r + 1) as u64)),
    {
        let generated = snowflake_next(generator);
        self.next_row_id(generated, table)
    }

    /// What adding a row to a table writes: its id and its document's text
    /// fields. A missing table is refused and nothing changes.
    pub fn prepare_row(&mut self, generator: &snowflake_me::Snowflake, table: &str, data: &Vec<Vec<u8>>) -> (r: Result<(u64, Vec<(String, String)>), TextIndexError>)
        requires
            old(self).wf(),
            fallback_row_id(old(self).counters(), table@) < u64::MAX,
        ensures
            final(self).wf(),
            final(self).tables() == old(self).tables(),
            final(self).schemas() == old(self).schemas(),
            match r {
                Ok((id, doc)) => {
                    &&& old(self).tables().contains_key(table@)
                    &&& doc@.map_values(|p: (String, String)| pair_view(p)) == spec_row_document(
                        listing_names(spec_listing(old(self).schemas()[table@])),
                        data@.map_values(|d: Vec<u8>| d@),
                    )
                    &&& (final(self).counters() == old(self).counters() || (id == fallback_row_id(old(self).counters(), table@)
                        && final(self).counters() == old(self).counters().insert(table@, (id + 1) as u64)))
                },
                Err(e) => !old(self).tables().contains_key(table@) && is_table_not_found(e, table@)
                    && final(self).counters() == old(self).counters(),
            },
    {
        if !self.tables.contains_key(table) {
            return Err(TextIndexError::TableNotFound(table.to_string()));
        }
        let id = self.get_next_row_id(generator, table);
        match self.list_table_cols(table) {
            Ok(cols) => {
                let doc = row_document(&cols, data);
                assert(cols@.map_values(|c: ColumnListing| c.column_name@) =~= listing_names(
                    cols@.map_values(|c: ColumnListing| listing_view(c)),
                ));
                Ok((id, doc))
            },
            Err(e) => Err(e),
        }
    }
}

// ---------------------------------------------------------------------------
// Reading stored values back
// ---------------------------------------------------------------------------

/// A value read back from a stored field (floating-point values are
/// rendered outside).
pub enum StoredValue {
    Text(String),
    Bytes(Vec<u8>),
    I64(i64),
    U64(u64),
}

/// How a stored value is shown for a field of the given kind: text fields
/// show text, or bytes read as UTF-8, or nothing; number fields show the
/// number in decimal, or `0` when the value is of another sort.
pub open spec fn spec_render(kind: FieldKind, v: StoredValue) -> Seq<char> {
    match kind {
        FieldKind::Int64 => match v {
            StoredValue::I64(i) => text::signed_decimal(i as int),
            _ => "0"@,
        },
        FieldKind::UInt64 => match v {
            StoredValue::U64(u) => text::decimal_seq(u as nat),
            _ => "0"@,
        },
        _ => match v {
            StoredValue::Text(t) => t@,
            StoredValue::Bytes(b) => utf8_lossy(b@),
            _ => utf8_lossy(Seq::<u8>::empty()),
        },
    }
}

/// Show a stored value of a text or integer field.
pub fn render_stored_value(kind: FieldKind, v: &StoredValue) -> (r: String)
    requires
        kind != FieldKind::Float64,
    ensures
        r@ == spec_render(kind, *v),
{
    match kind {
        FieldKind::Int64 => match v {
            StoredValue::I64(i) => string_from_chars(&text::i64_to_decimal(*i)),
            _ => "0".to_string(),
        },
        FieldKind::UInt64 => match v {
            StoredValue::U64(u) => string_from_chars(&text::u64_to_decimal(*u)),
            _ => "0".to_string(),
        },
        _ => match v {
            StoredValue::Text(t) => t.clone(),
            StoredValue::Bytes(b) => lossy_text(b.as_slice()),
            _ => {
                let empty: Vec<u8> = Vec::new();
                assert(empty@ =~= Seq::<u8>::empty());
                lossy_text(empty.as_slice())
            },
        },
    }
}

/// The bytes a row holds for one column: the shown value as UTF-8, or
/// nothing when the document has no value there.
pub fn cell_bytes(kind: FieldKind, v: Option<&StoredValue>) -> (r: Vec<u8>)
    requires
        kind != FieldKind::Float64,
    ensures
        r@ == match v {
            Some(x) => vstd::utf8::encode_utf8(spec_render(kind, *x)),
            None => Seq::<u8>::empty(),
        },
{
    match v {
        Some(x) => {
            let s = render_stored_value(kind, x);
            vstd::slice::slice_to_vec(s.as_str().as_bytes())
        },
        None => Vec::new(),
    }
}

/// The id of a scanned document: its stored row id when that is an
/// unsigned number, else its position in the index.
pub fn scanned_row_id(doc_id: u32, stored: Option<&StoredValue>) -> (r: u64)
    ensures
        r == match stored {
            Some(StoredValue::U64(u)) => *u,
            _ => doc_id as u64,
        },
{
    match stored {
        Some(StoredValue::U64(u)) => *u,
        _ => doc_id as u64,
    }
}

/// How many documents a table scan reads: the given limit, else 10000.
pub fn scan_limit(limit: Option<usize>) -> (r: usize)
    ensures
        r == match limit {
            Some(n) => n,
            None => 10000,
        },
{
    match limit {
        Some(n) => n,
        None => 10000,
    }
}

/// How the parsed conditions of a table filter are searched.
#[derive(Clone, Copy, PartialEq, Eq, Structural, Debug)]
pub enum QueryCombination {
    /// No condition parsed: the table is skipped.
    Skip,
    /// One condition: searched as it is.
    Single,
    /// Several: every one must match.
    AllMust,
}

/// The combination for `parsed` parsed conditions.
pub fn query_combination(parsed: usize) -> (r: QueryCombination)
    ensures
        r == (if parsed == 0 {
            QueryCombination::Skip
        } else if parsed == 1 {
            QueryCombination::Single
        } else {
            QueryCombination::AllMust
        }),
{
    if parsed == 0 {
        QueryCombination::Skip
    } else if parsed == 1 {
        QueryCombination::Single
    } else {
        QueryCombination::AllMust
    }
}

/// The fields a search runs over, from the candidates in order: those that
/// are not the row-id field and are in the schema.
pub open spec fn kept_fields(fs: Seq<Seq<char>>, schema: Seq<Seq<char>>) -> Seq<Seq<char>>
    decreases fs.len(),
{
    if fs.len() == 0 {
        fs
    } else if fs.last() != row_id_name() && schema.contains(fs.last()) {
        kept_fields(fs.drop_last(), schema).push(fs.last())
    } else {
        kept_fields(fs.drop_last(), schema)
    }
}

/// The names of strings.
pub open spec fn names_view(v: Seq<String>) -> Seq<Seq<char>> {
    v.map_values(|s: String| s@)
}

fn contains_name(names: &Vec<String>, name: &str) -> (r: bool)
    ensures
        r == names_view(names@).contains(name@),
{
    match find_name(names, name) {
        Some(i) => {
            assert(names_view(names@)[i as int] == name@);
            true
        },
        None => {
            assert forall|k: int| 0 <= k < names_view(names@).len() implies names_view(names@)[k] != name@ by {
                assert(names_view(names@)[k] == names@[k]@);
            }
            false
        },
    }
}

/// The fields a search runs over: the requested ones, else every field of
/// the schema, leaving out the row-id field and names not in the schema.
pub fn select_search_fields(requested: Option<&Vec<String>>, schema: &Vec<String>) -> (r: Vec<String>)
    ensures
        names_view(r@) == kept_fields(
            match requested {
                Some(fs) => names_view(fs@),
                None => names_view(schema@),
            },
            names_view(schema@),
        ),
{
    let candidates: &Vec<String> = match requested {
        Some(fs) => fs,
        None => schema,
    };
    let ghost cv = names_view(candidates@);
    let ghost sv = names_view(schema@);
    let mut r: Vec<String> = Vec::new();
    let mut i: usize = 0;
    while i < candidates.len()
        invariant
            i <= candidates.len(),
            cv == names_view(candidates@),
            sv == names_view(schema@),
            names_view(r@) == kept_fields(cv.take(i as int), sv),
        decreases candidates.len() - i,
    {
        let f = &candidates[i];
        assert(cv.take(i as int + 1).drop_last() =~= cv.take(i as int));
        assert(cv[i as int] == f@);
        if !is_row_id_field(f.as_str()) && contains_name(schema, f.as_str()) {
            r.push(f.clone());
            assert(names_view(r@) =~= kept_fields(cv.take(i as int + 1), sv));
        } else {
            assert(names_view(r@) =~= kept_fields(cv.take(i as int + 1), sv));
        }
        i = i + 1;
    }
    assert(cv.take(candidates.len() as int) =~= cv);
    r
}

proof fn lemma_schema_column_fields(cols: Seq<ColumnSpec>)
    requires
        forall|i: int| 0 <= i < cols.len() ==> (#[trigger] cols[i]).name@ != row_id_name(),
    ensures
        column_fields(spec_schema(cols)) == Seq::new(
            cols.len(),
            |i: int| (cols[i].name@, spec_field_kind(cols[i].column_type)),
        ),
    decreases cols.len(),
{
    let s = spec_schema(cols);
    if cols.len() == 0 {
        assert(s.drop_last() =~= Seq::<(Seq<char>, FieldKind)>::empty());
        assert(s.len() == 1);
        assert(s.last() == s[0]);
        assert(s.last().0 == row_id_name());
        assert(column_fields(s.drop_last()).len() == 0);
        assert(column_fields(s) =~= Seq::<(Seq<char>, FieldKind)>::empty());
    } else {
        let d = cols.drop_last();
        assert forall|i: int| 0 <= i < d.len() implies (#[trigger] d[i]).name@ != row_id_name() by {
            assert(d[i] == cols[i]);
        }
        lemma_schema_column_fields(d);
        assert(s.drop_last() =~= spec_schema(d));
        assert(s.last() == (cols.last().name@, spec_field_kind(cols.last().column_type)));
        assert(cols.last() == cols[cols.len() - 1]);
        assert(column_fields(s) =~= Seq::new(
            cols.len(),
            |i: int| (cols[i].name@, spec_field_kind(cols[i].column_type)),
        ));
    }
}

/// A table created with columns none of which is named like the row-id
/// field lists back exactly those columns, in order, numbered from 0, each
/// with the type code its index field is reported as.
pub proof fn law_created_columns_listed_back(cols: Seq<ColumnSpec>)
    requires
        forall|i: int| 0 <= i < cols.len() ==> (#[trigger] cols[i]).name@ != row_id_name(),
    ensures
        spec_listing(spec_schema(cols)) == Seq::new(
            cols.len(),
            |i: int| (i, cols[i].name@, spec_column_code(spec_field_kind(cols[i].column_type))),
        ),
{
    lemma_schema_column_fields(cols);
    assert(spec_listing(spec_schema(cols)) =~= Seq::new(
        cols.len(),
        |i: int| (i, cols[i].name@, spec_column_code(spec_field_kind(cols[i].column_type))),
    ));
}

} // verus!
