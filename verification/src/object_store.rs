//! The object store's own rules on top of a key-value engine: where object
//! data and metadata live, how listings are assembled from the stored keys,
//! how entity tags and timestamps are made, and how stored metadata is read.

use vstd::prelude::*;
use crate::text;
use crate::text::{push_all, str_chars, string_from_chars};
use crate::s3_auth::{HeaderList, header_lookup, is_visible_ascii, bytes_text, value_as_text};
use crate::s3_route::{utf8_lossy};

verus! {

broadcast use text::lemma_chars_deep_view;

// ---------------------------------------------------------------------------
// Configuration
// ---------------------------------------------------------------------------

/// Blob storage settings of the key-value engine. The garbage-collection age
/// cutoff is a percentage (25 means a quarter).
pub struct BlobDbConfig {
    pub enabled: bool,
    pub min_blob_size: u64,
    pub blob_file_size: u64,
    pub blob_compression_type: String,
    pub enable_blob_garbage_collection: bool,
    pub blob_garbage_collection_age_cutoff_percent: u32,
}

/// Settings of the object store service.
pub struct ObjectStoreConfig {
    pub enabled: bool,
    pub db_path: String,
    pub schema_name: String,
    pub blob_db: BlobDbConfig,
}

impl Default for ObjectStoreConfig {
    fn default() -> (r: ObjectStoreConfig)
        ensures
            !r.enabled,
            r.db_path@ == "./laoflch_object_store_data"@,
            r.schema_name@ == "object_store"@,
            r.blob_db.enabled,
            r.blob_db.min_blob_size == 0,
            r.blob_db.blob_file_size == 256 * 1024 * 1024,
            r.blob_db.blob_compression_type@ == "zstd"@,
            r.blob_db.enable_blob_garbage_collection,
            r.blob_db.blob_garbage_collection_age_cutoff_percent == 25,
    {
        ObjectStoreConfig {
            enabled: false,
            db_path: "./laoflch_object_store_data".to_string(),
            schema_name: "object_store".to_string(),
            blob_db: BlobDbConfig {
                enabled: true,
                min_blob_size: 0,
                blob_file_size: 256 * 1024 * 1024,
                blob_compression_type: "zstd".to_string(),
                enable_blob_garbage_collection: true,
                blob_garbage_collection_age_cutoff_percent: 25,
            },
        }
    }
}

// ---------------------------------------------------------------------------
// Keys
// ---------------------------------------------------------------------------

/// The key under which an object's bytes are stored.
pub open spec fn spec_data_key(key: Seq<char>) -> Seq<char> {
    "__obj__"@ + key
}

/// The key under which an object's metadata is stored.
pub open spec fn spec_meta_key(key: Seq<char>) -> Seq<char> {
    "__meta__"@ + key
}

/// The data key of an object.
pub fn object_data_key(key: &str) -> (r: String)
    ensures
        r@ == spec_data_key(key@),
{
    let mut k = str_chars("__obj__");
    push_all(&mut k, &str_chars(key));
    string_from_chars(&k)
}

/// The metadata key of an object.
pub fn object_meta_key(key: &str) -> (r: String)
    ensures
        r@ == spec_meta_key(key@),
{
    let mut k = str_chars("__meta__");
    push_all(&mut k, &str_chars(key));
    string_from_chars(&k)
}

/// The key of a bucket's own metadata record.
pub fn bucket_meta_key() -> (r: String)
    ensures
        r@ == "__bucket_meta__"@,
{
    "__bucket_meta__".to_string()
}

/// A key taken from a URL path, without one leading `/`.
pub fn strip_leading_slash(key: &str) -> (r: String)
    ensures
        r@ == (if key@.len() > 0 && key@[0] == '/' { key@.drop_first() } else { key@ }),
{
    let c = str_chars(key);
    if c.len() > 0 && c[0] == '/' {
        let t = text::chars_from(&c, 1);
        assert(t@ =~= key@.drop_first());
        string_from_chars(&t)
    } else {
        string_from_chars(&c)
    }
}

/// The content type of an upload: the `content-type` header when it is
/// text, else `application/octet-stream`.
pub open spec fn spec_content_type(hs: Seq<(Seq<char>, Seq<u8>)>) -> Seq<char> {
    match header_lookup(hs, "content-type"@) {
        Some(v) => if is_visible_ascii(v) {
            bytes_text(v)
        } else {
            "application/octet-stream"@
        },
        None => "application/octet-stream"@,
    }
}

/// The content type of an upload.
pub fn upload_content_type(headers: &HeaderList) -> (r: String)
    ensures
        r@ == spec_content_type(headers@),
{
    match headers.get(&str_chars("content-type")) {
        Some(v) => match value_as_text(&v) {
            Some(t) => string_from_chars(&t),
            None => "application/octet-stream".to_string(),
        },
        None => "application/octet-stream".to_string(),
    }
}

// ---------------------------------------------------------------------------
// Entity tags and time
// ---------------------------------------------------------------------------

/// The hyphenated lower-case form of a UUID: 36 characters, hyphens at
/// positions 8, 13, 18 and 23, lower-case hex digits elsewhere.
pub open spec fn is_uuid_text(u: Seq<char>) -> bool {
    &&& u.len() == 36
    &&& forall|i: int|
        0 <= i < 36 ==> if i == 8 || i == 13 || i == 18 || i == 23 {
            #[trigger] u[i] == '-'
        } else {
            ('0' <= u[i] && u[i] <= '9') || ('a' <= u[i] && u[i] <= 'f')
        }
}

/// Calls `uuid::Uuid::new_v4().to_string()`. Claimed (its documentation):
/// the text is the hyphenated lower-case form. Which UUID comes out is
/// random and is not stated.
#[verifier::external_body]
fn new_uuid_text() -> (r: String)
    ensures
        is_uuid_text(r@),
{
    uuid::Uuid::new_v4().to_string()
}

/// `s` without its `-` characters.
pub open spec fn without_hyphens(s: Seq<char>) -> Seq<char>
    decreases s.len(),
{
    if s.len() == 0 {
        s
    } else if s.last() == '-' {
        without_hyphens(s.drop_last())
    } else {
        without_hyphens(s.drop_last()).push(s.last())
    }
}

/// An entity tag: the UUID text without hyphens, in double quotes.
pub open spec fn etag_of(uuid: Seq<char>) -> Seq<char> {
    seq!['"'] + without_hyphens(uuid) + seq!['"']
}

/// The entity tag made from a UUID text.
pub fn etag_from_uuid(uuid: &str) -> (r: String)
    ensures
        r@ == etag_of(uuid@),
{
    let u = str_chars(uuid);
    let mut out: Vec<char> = Vec::new();
    out.push('"');
    let mut i: usize = 0;
    while i < u.len()
        invariant
            i <= u.len(),
            out@ == seq!['"'] + without_hyphens(u@.subrange(0, i as int)),
        decreases u.len() - i,
    {
        let ghost next = u@.subrange(0, i + 1);
        assert(next.drop_last() =~= u@.subrange(0, i as int));
        if u[i] != '-' {
            out.push(u[i]);
        }
        i = i + 1;
    }
    assert(u@.subrange(0, i as int) =~= u@);
    out.push('"');
    string_from_chars(&out)
}

/// A fresh entity tag for a stored object.
pub fn generate_etag() -> (r: String)
    ensures
        exists|u: Seq<char>| is_uuid_text(u) && r@ == etag_of(u),
{
    let u = new_uuid_text();
    etag_from_uuid(u.as_str())
}

/// Calls `SystemTime::now().duration_since(UNIX_EPOCH)` and takes whole
/// seconds (zero for a clock before the epoch). Nothing is claimed of the
/// value: it is the clock.
#[verifier::external_body]
fn unix_now_secs() -> (r: u64) {
    std::time::SystemTime::now().duration_since(std::time::UNIX_EPOCH).unwrap_or_default().as_secs()
}

/// The current Unix time in seconds, as decimal text.
pub fn now_string() -> (r: String)
    ensures
        exists|n: u64| r@ == text::decimal_seq(n as nat),
{
    let n = unix_now_secs();
    string_from_chars(&text::u64_to_decimal(n))
}

// ---------------------------------------------------------------------------
// Listing
// ---------------------------------------------------------------------------

/// The page size of a listing: 1000 when the request asks for none.
pub open spec fn spec_effective_max_keys(requested: i32) -> usize {
    if requested <= 0 {
        1000
    } else {
        requested as usize
    }
}

/// The page size a listing uses.
pub fn effective_max_keys(requested: i32) -> (r: usize)
    ensures
        r == spec_effective_max_keys(requested),
{
    if requested <= 0 {
        1000
    } else {
        requested as usize
    }
}

/// What one stored key contributes to a listing.
pub enum KeyRole {
    /// Not an object data key.
    Skip,
    /// An object, listed under this key.
    Object(Seq<char>),
    /// A common prefix (cut after the first delimiter past the prefix).
    Prefix(Seq<char>),
}

/// The role of a stored key (already read as text): keys that are not
/// object data keys, or whose object key does not start with the listing
/// prefix, are skipped; a key whose rest after the prefix holds the
/// delimiter rolls up into the common prefix up to and including the
/// delimiter's first character; any other key is an object.
pub open spec fn key_role(key: Seq<char>, prefix: Seq<char>, delimiter: Seq<char>) -> KeyRole {
    if !text::has_prefix(key, "__obj__"@) {
        KeyRole::Skip
    } else {
        let obj = key.subrange("__obj__"@.len() as int, key.len() as int);
        if !text::has_prefix(obj, prefix) {
            KeyRole::Skip
        } else if delimiter.len() > 0 {
            let rest = obj.subrange(prefix.len() as int, obj.len() as int);
            match text::find_from(rest, delimiter, 0) {
                Some(i) => KeyRole::Prefix(prefix + rest.subrange(0, i + 1)),
                None => KeyRole::Object(obj),
            }
        } else {
            KeyRole::Object(obj)
        }
    }
}

/// A delimiter cut would split a character that takes more than one byte,
/// so no byte-indexed cut can be taken there.
pub open spec fn cut_splits_char(key: Seq<char>, prefix: Seq<char>, delimiter: Seq<char>) -> bool {
    key_role(key, prefix, delimiter) is Prefix && (delimiter[0] as u32) >= 128
}

/// One entry of a listing: an object key or a common prefix.
pub enum ListEntry {
    Object(Seq<char>),
    Prefix(Seq<char>),
}

/// The name an entry is listed under.
pub open spec fn entry_name(e: ListEntry) -> Seq<char> {
    match e {
        ListEntry::Object(k) => k,
        ListEntry::Prefix(p) => p,
    }
}

/// A name comes after the marker: every name does when there is no marker,
/// else the names that sort strictly after it.
pub open spec fn after_marker(marker: Seq<char>, name: Seq<char>) -> bool {
    marker.len() == 0 || crate::sigv4::seq_lt(marker, name)
}

/// Every entry of a listing from stored keys read as text, in order: each
/// object key after the marker, and each common prefix after the marker
/// once, at the first key that rolls up into it. A key that rolls up is
/// never an object.
pub open spec fn listing_entries(keys: Seq<Seq<char>>, prefix: Seq<char>, delimiter: Seq<char>, marker: Seq<char>) -> Seq<ListEntry>
    decreases keys.len(),
{
    if keys.len() == 0 {
        Seq::empty()
    } else {
        let es = listing_entries(keys.drop_last(), prefix, delimiter, marker);
        match key_role(keys.last(), prefix, delimiter) {
            KeyRole::Skip => es,
            KeyRole::Object(o) => if after_marker(marker, o) {
                es.push(ListEntry::Object(o))
            } else {
                es
            },
            KeyRole::Prefix(cp) => if after_marker(marker, cp) && !es.contains(ListEntry::Prefix(cp)) {
                es.push(ListEntry::Prefix(cp))
            } else {
                es
            },
        }
    }
}

/// The object keys among entries, in order.
pub open spec fn entry_objects(es: Seq<ListEntry>) -> Seq<Seq<char>>
    decreases es.len(),
{
    if es.len() == 0 {
        Seq::empty()
    } else {
        match es.last() {
            ListEntry::Object(k) => entry_objects(es.drop_last()).push(k),
            ListEntry::Prefix(_) => entry_objects(es.drop_last()),
        }
    }
}

/// The common prefixes among entries, in order.
pub open spec fn entry_prefixes(es: Seq<ListEntry>) -> Seq<Seq<char>>
    decreases es.len(),
{
    if es.len() == 0 {
        Seq::empty()
    } else {
        match es.last() {
            ListEntry::Object(_) => entry_prefixes(es.drop_last()),
            ListEntry::Prefix(p) => entry_prefixes(es.drop_last()).push(p),
        }
    }
}

/// The entries one page holds: the first `max_keys`.
pub open spec fn listing_page(es: Seq<ListEntry>, max_keys: nat) -> Seq<ListEntry> {
    if es.len() > max_keys {
        es.take(max_keys as int)
    } else {
        es
    }
}

/// Every listed entry sorts after the marker, every listed object is a key
/// that does not roll up into a common prefix, and every common prefix is
/// the roll-up of some key.
pub proof fn law_listing_entries(keys: Seq<Seq<char>>, prefix: Seq<char>, delimiter: Seq<char>, marker: Seq<char>)
    ensures
        forall|j: int| #![trigger listing_entries(keys, prefix, delimiter, marker)[j]]
            0 <= j < listing_entries(keys, prefix, delimiter, marker).len() ==> {
            let e = listing_entries(keys, prefix, delimiter, marker)[j];
            &&& after_marker(marker, entry_name(e))
            &&& (e matches ListEntry::Object(o) ==> exists|i: int| 0 <= i < keys.len()
                && #[trigger] key_role(keys[i], prefix, delimiter) == KeyRole::Object(o))
            &&& (e matches ListEntry::Prefix(cp) ==> exists|i: int| 0 <= i < keys.len()
                && #[trigger] key_role(keys[i], prefix, delimiter) == KeyRole::Prefix(cp))
        },
    decreases keys.len(),
{
    if keys.len() > 0 {
        let ks = keys.drop_last();
        law_listing_entries(ks, prefix, delimiter, marker);
        let es = listing_entries(ks, prefix, delimiter, marker);
        let all = listing_entries(keys, prefix, delimiter, marker);
        assert forall|j: int| #![trigger all[j]] 0 <= j < all.len() implies {
            let e = all[j];
            &&& after_marker(marker, entry_name(e))
            &&& (e matches ListEntry::Object(o) ==> exists|i: int| 0 <= i < keys.len()
                && #[trigger] key_role(keys[i], prefix, delimiter) == KeyRole::Object(o))
            &&& (e matches ListEntry::Prefix(cp) ==> exists|i: int| 0 <= i < keys.len()
                && #[trigger] key_role(keys[i], prefix, delimiter) == KeyRole::Prefix(cp))
        } by {
            if j < es.len() {
                assert(all[j] == es[j]);
                let e = es[j];
                match e {
                    ListEntry::Object(o) => {
                        let i = choose|i: int| 0 <= i < ks.len() && #[trigger] key_role(ks[i], prefix, delimiter) == KeyRole::Object(o);
                        assert(keys[i] == ks[i]);
                    },
                    ListEntry::Prefix(cp) => {
                        let i = choose|i: int| 0 <= i < ks.len() && #[trigger] key_role(ks[i], prefix, delimiter) == KeyRole::Prefix(cp);
                        assert(keys[i] == ks[i]);
                    },
                }
            } else {
                assert(keys[keys.len() - 1] == keys.last());
            }
        }
    }
}

/// The stored keys as text (lossy UTF-8).
pub open spec fn keys_text(keys: Seq<Seq<u8>>) -> Seq<Seq<char>> {
    keys.map_values(|k: Seq<u8>| utf8_lossy(k))
}

/// One page of a listing.
pub struct ListingPlan {
    /// Keys of the listed objects, in stored order.
    pub object_keys: Vec<String>,
    /// Common prefixes, each once, in order of first appearance.
    pub common_prefixes: Vec<String>,
    /// Entries remain after this page.
    pub is_truncated: bool,
    /// Where the next page starts: the page's last entry when truncated,
    /// else empty.
    pub next_marker: String,
}

fn has_prefix_entry(entries: &Vec<(bool, Vec<char>)>, cp: &[char]) -> (r: bool)
    ensures
        r == entries@.map_values(|e: (bool, Vec<char>)| entry_of(e)).contains(ListEntry::Prefix(cp@)),
{
    let ghost ev = entries@.map_values(|e: (bool, Vec<char>)| entry_of(e));
    let mut i: usize = 0;
    while i < entries.len()
        invariant
            i <= entries.len(),
            ev == entries@.map_values(|e: (bool, Vec<char>)| entry_of(e)),
            forall|k: int| 0 <= k < i ==> ev[k] != ListEntry::Prefix(cp@),
        decreases entries.len() - i,
    {
        if entries[i].0 && text::chars_eq(&entries[i].1, cp) {
            assert(ev[i as int] == ListEntry::Prefix(cp@));
            return true;
        }
        i = i + 1;
    }
    assert forall|k: int| 0 <= k < ev.len() implies ev[k] != ListEntry::Prefix(cp@) by {}
    false
}

/// The entry a (is-prefix, name) pair stands for.
pub open spec fn entry_of(e: (bool, Vec<char>)) -> ListEntry {
    if e.0 {
        ListEntry::Prefix(e.1@)
    } else {
        ListEntry::Object(e.1@)
    }
}

fn after_marker_exec(marker: &[char], name: &[char]) -> (r: bool)
    ensures
        r == after_marker(marker@, name@),
{
    marker.len() == 0 || crate::sigv4::chars_lt(marker, name)
}

fn role_of(key: &[char], prefix: &[char], delimiter: &[char]) -> (r: (u8, Vec<char>))
    ensures
        match key_role(key@, prefix@, delimiter@) {
            KeyRole::Skip => r.0 == 0,
            KeyRole::Object(o) => r.0 == 1 && r.1@ == o,
            KeyRole::Prefix(cp) => r.0 == 2 && r.1@ == cp,
        },
{
    let tag = str_chars("__obj__");
    if !text::starts_with(key, &tag) {
        return (0, Vec::new());
    }
    let obj = text::chars_from(key, tag.len());
    if !text::starts_with(&obj, prefix) {
        return (0, Vec::new());
    }
    if delimiter.len() > 0 {
        let rest = text::chars_from(&obj, prefix.len());
        proof {
            text::lemma_find_from(rest@, delimiter@, 0);
        }
        match text::find_chars(&rest, delimiter, 0) {
            Some(i) => {
                let mut cp: Vec<char> = Vec::new();
                push_all(&mut cp, prefix);
                push_all(&mut cp, &text::chars_range(&rest, 0, i + 1));
                (2, cp)
            },
            None => (1, obj),
        }
    } else {
        (1, obj)
    }
}

/// The stored keys read as text (invalid UTF-8 replaced).
pub fn keys_as_text(keys: &Vec<Vec<u8>>) -> (r: Vec<String>)
    ensures
        r@.map_values(|s: String| s@) == keys_text(keys@.map_values(|k: Vec<u8>| k@)),
{
    let ghost kt = keys_text(keys@.map_values(|k: Vec<u8>| k@));
    let mut out: Vec<String> = Vec::new();
    let mut i: usize = 0;
    while i < keys.len()
        invariant
            i <= keys.len(),
            kt == keys_text(keys@.map_values(|k: Vec<u8>| k@)),
            out@.map_values(|s: String| s@) == kt.subrange(0, i as int),
        decreases keys.len() - i,
    {
        let t = crate::s3_route::lossy_text(&keys[i]);
        let ghost before = out@;
        out.push(t);
        assert(out@.map_values(|s: String| s@) =~= before.map_values(|s: String| s@).push(kt[i as int]));
        assert(kt.subrange(0, i + 1) =~= kt.subrange(0, i as int).push(kt[i as int]));
        i = i + 1;
    }
    assert(kt.subrange(0, i as int) =~= kt);
    out
}

/// Whether no delimiter cut of these keys would split a multi-byte
/// character (where a byte-indexed cut could not be taken).
pub fn listing_cuts_safe(keys: &Vec<String>, prefix: &str, delimiter: &str) -> (r: bool)
    ensures
        r == (forall|i: int| 0 <= i < keys.len() ==> !cut_splits_char(#[trigger] keys@[i]@, prefix@, delimiter@)),
{
    let p = str_chars(prefix);
    let d = str_chars(delimiter);
    if d.len() == 0 || (d[0] as u32) < 128 {
        assert forall|i: int| 0 <= i < keys.len() implies !cut_splits_char(#[trigger] keys@[i]@, prefix@, delimiter@) by {}
        return true;
    }
    let mut i: usize = 0;
    while i < keys.len()
        invariant
            i <= keys.len(),
            p@ == prefix@,
            d@ == delimiter@,
            d@.len() > 0 && (d@[0] as u32) >= 128,
            forall|k: int| 0 <= k < i ==> !cut_splits_char(#[trigger] keys@[k]@, prefix@, delimiter@),
        decreases keys.len() - i,
    {
        let (role, _) = role_of(&str_chars(keys[i].as_str()), &p, &d);
        if role == 2 {
            assert(cut_splits_char(keys@[i as int]@, prefix@, delimiter@));
            return false;
        }
        i = i + 1;
    }
    true
}

/// One page of a listing from stored keys read as text (in stored order):
/// the first `max_keys` entries of `listing_entries`, split into objects and
/// common prefixes, whether entries remain after them, and the marker to go
/// on from. No delimiter cut may split a multi-byte character (see
/// `listing_cuts_safe`).
pub fn plan_listing(keys: &Vec<String>, prefix: &str, delimiter: &str, marker: &str, max_keys: usize) -> (r: ListingPlan)
    requires
        forall|i: int| 0 <= i < keys.len() ==> !cut_splits_char(#[trigger] keys@[i]@, prefix@, delimiter@),
        max_keys > 0,
    ensures
        ({
            let es = listing_entries(keys@.map_values(|s: String| s@), prefix@, delimiter@, marker@);
            let page = listing_page(es, max_keys as nat);
            &&& r.object_keys@.map_values(|s: String| s@) == entry_objects(page)
            &&& r.common_prefixes@.map_values(|s: String| s@) == entry_prefixes(page)
            &&& r.is_truncated == (es.len() > max_keys)
            &&& r.next_marker@ == (if es.len() > max_keys { entry_name(page.last()) } else { Seq::<char>::empty() })
        }),
{
    let p = str_chars(prefix);
    let d = str_chars(delimiter);
    let m = str_chars(marker);
    let ghost kt = keys@.map_values(|s: String| s@);
    let mut entries: Vec<(bool, Vec<char>)> = Vec::new();
    let mut i: usize = 0;
    assert(kt.subrange(0, 0) =~= Seq::<Seq<char>>::empty());
    assert(entries@.map_values(|e: (bool, Vec<char>)| entry_of(e)) =~= Seq::<ListEntry>::empty());
    while i < keys.len()
        invariant
            i <= keys.len(),
            kt == keys@.map_values(|s: String| s@),
            p@ == prefix@,
            d@ == delimiter@,
            m@ == marker@,
            entries@.map_values(|e: (bool, Vec<char>)| entry_of(e)) == listing_entries(kt.subrange(0, i as int), prefix@, delimiter@, marker@),
        decreases keys.len() - i,
    {
        let key = str_chars(keys[i].as_str());
        let ghost next = kt.subrange(0, i + 1);
        assert(next.drop_last() =~= kt.subrange(0, i as int));
        assert(next.last() == key@);
        let ghost before = entries@.map_values(|e: (bool, Vec<char>)| entry_of(e));
        let (role, value) = role_of(&key, &p, &d);
        if role == 1 {
            if after_marker_exec(&m, &value) {
                let ghost vv = value@;
                entries.push((false, value));
                assert(entries@.map_values(|e: (bool, Vec<char>)| entry_of(e)) =~= before.push(ListEntry::Object(vv)));
            }
        } else if role == 2 {
            if after_marker_exec(&m, &value) && !has_prefix_entry(&entries, &value) {
                let ghost vv = value@;
                entries.push((true, value));
                assert(entries@.map_values(|e: (bool, Vec<char>)| entry_of(e)) =~= before.push(ListEntry::Prefix(vv)));
            }
        }
        i = i + 1;
    }
    assert(kt.subrange(0, i as int) =~= kt);
    let ghost es = entries@.map_values(|e: (bool, Vec<char>)| entry_of(e));
    let truncated = entries.len() > max_keys;
    let n: usize = if truncated { max_keys } else { entries.len() };
    let ghost page = listing_page(es, max_keys as nat);
    assert(page =~= es.take(n as int));
    let mut objects: Vec<Vec<char>> = Vec::new();
    let mut prefixes: Vec<Vec<char>> = Vec::new();
    let mut j: usize = 0;
    assert(es.take(0) =~= Seq::<ListEntry>::empty());
    while j < n
        invariant
            j <= n,
            n <= entries.len(),
            es == entries@.map_values(|e: (bool, Vec<char>)| entry_of(e)),
            objects.deep_view() == entry_objects(es.take(j as int)),
            prefixes.deep_view() == entry_prefixes(es.take(j as int)),
        decreases n - j,
    {
        assert(es.take(j + 1).drop_last() =~= es.take(j as int));
        assert(es.take(j + 1).last() == entry_of(entries@[j as int]));
        let name = text::chars_from(&entries[j].1, 0);
        assert(name@ =~= entries@[j as int].1@);
        if entries[j].0 {
            let ghost before = prefixes.deep_view();
            prefixes.push(name);
            assert(prefixes.deep_view() =~= before.push(entries@[j as int].1@));
        } else {
            let ghost before = objects.deep_view();
            objects.push(name);
            assert(objects.deep_view() =~= before.push(entries@[j as int].1@));
        }
        j = j + 1;
    }
    let next_marker = if truncated {
        assert(page.last() == entry_of(entries@[n - 1]));
        string_from_chars(&entries[n - 1].1)
    } else {
        String::new()
    };
    ListingPlan {
        object_keys: text::strings_from_char_vecs(&objects),
        common_prefixes: text::strings_from_char_vecs(&prefixes),
        is_truncated: truncated,
        next_marker,
    }
}

// ---------------------------------------------------------------------------
// Stored metadata
// ---------------------------------------------------------------------------

/// The string field `name` of a JSON object document, if the document parses
/// and the field is a string.
pub uninterp spec fn json_str_field_of(doc: Seq<u8>, name: Seq<char>) -> Option<Seq<char>>;

/// The integer field `name` of a JSON object document, if the document
/// parses and the field is an integer that fits an `i64`.
pub uninterp spec fn json_i64_field_of(doc: Seq<u8>, name: Seq<char>) -> Option<i64>;

/// The entries of the object field `name` of a JSON document, in the order
/// the parsed map keeps them, each value as text when it is a string; none
/// when the document does not parse or the field is not an object.
pub uninterp spec fn json_object_entries_of(doc: Seq<u8>, name: Seq<char>) -> Seq<(Seq<char>, Option<Seq<char>>)>;

/// The entries whose value is text, in order.
pub open spec fn string_entries(es: Seq<(Seq<char>, Option<Seq<char>>)>) -> Seq<(Seq<char>, Seq<char>)>
    decreases es.len(),
{
    if es.len() == 0 {
        Seq::empty()
    } else {
        match es.last().1 {
            Some(v) => string_entries(es.drop_last()).push((es.last().0, v)),
            None => string_entries(es.drop_last()),
        }
    }
}

/// The string-valued entries of the object field `name` of a JSON document.
pub open spec fn json_string_entries_of(doc: Seq<u8>, name: Seq<char>) -> Seq<(Seq<char>, Seq<char>)> {
    string_entries(json_object_entries_of(doc, name))
}

/// Calls `serde_json::from_slice::<Value>`, `Value::get` and
/// `Value::as_str`. Claimed: a function of the document and the name.
#[verifier::external_body]
pub(crate) fn json_str_field(doc: &[u8], name: &str) -> (r: Option<String>)
    ensures
        match r {
            Some(v) => json_str_field_of(doc@, name@) == Some(v@),
            None => json_str_field_of(doc@, name@) == None::<Seq<char>>,
        },
{
    let v: serde_json::Value = serde_json::from_slice(doc).ok()?;
    v.get(name)?.as_str().map(|s| s.to_string())
}

/// Calls `serde_json::from_slice::<Value>`, `Value::get` and
/// `Value::as_i64`. Claimed: a function of the document and the name.
#[verifier::external_body]
pub(crate) fn json_i64_field(doc: &[u8], name: &str) -> (r: Option<i64>)
    ensures
        r == json_i64_field_of(doc@, name@),
{
    let v: serde_json::Value = serde_json::from_slice(doc).ok()?;
    v.get(name)?.as_i64()
}

/// Calls `serde_json::from_slice::<Value>`, `Value::get`,
/// `Value::as_object`, and `Value::as_str` on each entry's value. Claimed: a
/// function of the document and the name.
#[verifier::external_body]
fn json_object_entries(doc: &[u8], name: &str) -> (r: Vec<(String, Option<String>)>)
    ensures
        r@.map_values(|e: (String, Option<String>)| (e.0@, opt_view(e.1))) == json_object_entries_of(doc@, name@),
{
    match serde_json::from_slice::<serde_json::Value>(doc) {
        Ok(v) => match v.get(name).and_then(|x| x.as_object()) {
            Some(m) => m.iter().map(|(k, x)| (k.clone(), x.as_str().map(|t| t.to_string()))).collect(),
            None => Vec::new(),
        },
        Err(_) => Vec::new(),
    }
}

/// An optional string as characters.
pub open spec fn opt_view(o: Option<String>) -> Option<Seq<char>> {
    match o {
        Some(t) => Some(t@),
        None => None,
    }
}

/// The string-valued entries of the object field `name` of a JSON
/// document, in order.
pub(crate) fn json_string_entries(doc: &[u8], name: &str) -> (r: Vec<(String, String)>)
    ensures
        r@.map_values(|e: (String, String)| (e.0@, e.1@)) == json_string_entries_of(doc@, name@),
{
    let es = json_object_entries(doc, name);
    let ghost ev = es@.map_values(|e: (String, Option<String>)| (e.0@, opt_view(e.1)));
    let mut out: Vec<(String, String)> = Vec::new();
    let mut i: usize = 0;
    while i < es.len()
        invariant
            i <= es.len(),
            ev == es@.map_values(|e: (String, Option<String>)| (e.0@, opt_view(e.1))),
            out@.map_values(|e: (String, String)| (e.0@, e.1@)) == string_entries(ev.take(i as int)),
        decreases es.len() - i,
    {
        assert(ev.take(i as int + 1).drop_last() =~= ev.take(i as int));
        assert(ev.take(i as int + 1).last() == ev[i as int]);
        match &es[i].1 {
            Some(t) => {
                out.push((es[i].0.clone(), t.clone()));
            },
            None => {},
        }
        assert(out@.map_values(|e: (String, String)| (e.0@, e.1@)) =~= string_entries(ev.take(i as int + 1)));
        i = i + 1;
    }
    assert(ev.take(es.len() as int) =~= ev);
    out
}

/// The boolean field `name` of a JSON object document, if the document
/// parses and the field is a boolean.
pub uninterp spec fn json_bool_field_of(doc: Seq<u8>, name: Seq<char>) -> Option<bool>;

/// Calls `serde_json::from_slice::<Value>`, `Value::get` and
/// `Value::as_bool`. Claimed: a function of the document and the name.
#[verifier::external_body]
pub(crate) fn json_bool_field(doc: &[u8], name: &str) -> (r: Option<bool>)
    ensures
        r == json_bool_field_of(doc@, name@),
{
    let v: serde_json::Value = serde_json::from_slice(doc).ok()?;
    v.get(name)?.as_bool()
}

/// What the store keeps about an object besides its bytes.
pub struct ObjectMeta {
    pub content_type: String,
    pub content_length: i64,
    pub etag: String,
    pub last_modified: String,
    pub user_metadata: Vec<(String, String)>,
}

/// A string field or empty.
pub open spec fn str_field_or_empty(doc: Seq<u8>, name: Seq<char>) -> Seq<char> {
    match json_str_field_of(doc, name) {
        Some(v) => v,
        None => Seq::empty(),
    }
}

pub(crate) fn str_field_or_empty_exec(doc: &[u8], name: &str) -> (r: String)
    ensures
        r@ == str_field_or_empty(doc@, name@),
{
    match json_str_field(doc, name) {
        Some(v) => v,
        None => String::new(),
    }
}

/// Read an object's metadata record; absent or unreadable fields take their
/// empty value (zero for the length).
pub fn object_meta_from_json(doc: &[u8]) -> (r: ObjectMeta)
    ensures
        r.content_type@ == str_field_or_empty(doc@, "content_type"@),
        r.content_length == (match json_i64_field_of(doc@, "content_length"@) {
            Some(n) => n,
            None => 0,
        }),
        r.etag@ == str_field_or_empty(doc@, "etag"@),
        r.last_modified@ == str_field_or_empty(doc@, "last_modified"@),
        r.user_metadata@.map_values(|e: (String, String)| (e.0@, e.1@)) == json_string_entries_of(doc@, "user_metadata"@),
{
    let content_length = match json_i64_field(doc, "content_length") {
        Some(n) => n,
        None => 0,
    };
    ObjectMeta {
        content_type: str_field_or_empty_exec(doc, "content_type"),
        content_length,
        etag: str_field_or_empty_exec(doc, "etag"),
        last_modified: str_field_or_empty_exec(doc, "last_modified"),
        user_metadata: json_string_entries(doc, "user_metadata"),
    }
}

/// The creation date recorded for a bucket, or empty.
pub fn bucket_creation_date(doc: &[u8]) -> (r: String)
    ensures
        r@ == str_field_or_empty(doc@, "creation_date"@),
{
    str_field_or_empty_exec(doc, "creation_date")
}

} // verus!
