//! The image service's own rules on top of the object store: buckets, keys
//! of full-size images, thumbnails and metadata, what an upload does with
//! duplicates, metadata updates, and how clustering results become
//! categories. Decoding, resizing and embedding images happen outside.

use vstd::prelude::*;
use crate::text;
use crate::text::{chars_eq, push_all, str_chars, string_from_chars};
use crate::string_map::StringMap;

verus! {

broadcast use text::lemma_chars_deep_view;

// ---------------------------------------------------------------------------
// Buckets and keys
// ---------------------------------------------------------------------------

/// The bucket images go to when none is named.
pub fn default_bucket_name() -> (r: String)
    ensures
        r@ == "images"@,
{
    "images".to_string()
}

/// The bucket a request names, or the configured default.
pub fn resolve_bucket(bucket: &str, default_bucket: &str) -> (r: String)
    ensures
        r@ == (if bucket@.len() == 0 { default_bucket@ } else { bucket@ }),
{
    if bucket.is_empty() {
        string_from_chars(&str_chars(default_bucket))
    } else {
        string_from_chars(&str_chars(bucket))
    }
}

/// The thumbnail sizes made for every upload: name and longest side.
pub fn thumbnail_sizes() -> (r: Vec<(String, u32)>)
    ensures
        r.len() == 3,
        r[0].0@ == "thumbnail"@ && r[0].1 == 128,
        r[1].0@ == "small"@ && r[1].1 == 256,
        r[2].0@ == "medium"@ && r[2].1 == 512,
{
    let mut v: Vec<(String, u32)> = Vec::new();
    v.push(("thumbnail".to_string(), 128));
    v.push(("small".to_string(), 256));
    v.push(("medium".to_string(), 512));
    v
}

/// Whether a thumbnail size is cropped to fill a square (only `thumbnail`)
/// rather than scaled to fit.
pub fn thumbnail_fills_square(size_name: &str) -> (r: bool)
    ensures
        r == (size_name@ == "thumbnail"@),
{
    chars_eq(&str_chars(size_name), &str_chars("thumbnail"))
}

/// `{key}__{size}.jpg`.
pub open spec fn spec_thumbnail_key(key: Seq<char>, size: Seq<char>) -> Seq<char> {
    key + "__"@ + size + ".jpg"@
}

/// The key of a thumbnail of an image.
pub fn thumbnail_key(image_key: &str, size_name: &str) -> (r: String)
    ensures
        r@ == spec_thumbnail_key(image_key@, size_name@),
{
    let mut k = str_chars(image_key);
    push_all(&mut k, &str_chars("__"));
    push_all(&mut k, &str_chars(size_name));
    push_all(&mut k, &str_chars(".jpg"));
    string_from_chars(&k)
}

/// `__img_meta__{key}`.
pub open spec fn spec_image_meta_key(key: Seq<char>) -> Seq<char> {
    "__img_meta__"@ + key
}

/// The key of an image's metadata record.
pub fn metadata_key(image_key: &str) -> (r: String)
    ensures
        r@ == spec_image_meta_key(image_key@),
{
    let mut k = str_chars("__img_meta__");
    push_all(&mut k, &str_chars(image_key));
    string_from_chars(&k)
}

/// A thumbnail size is one of `thumbnail`, `small` and `medium`; any other
/// is refused with a message naming it.
pub fn check_thumbnail_size(size: &str) -> (r: Result<(), String>)
    ensures
        r is Ok <==> (size@ == "thumbnail"@ || size@ == "small"@ || size@ == "medium"@),
        r matches Err(e) ==> e@ == "Invalid thumbnail size '"@ + size@ + "'. Valid sizes: thumbnail, small, medium"@,
{
    let s = str_chars(size);
    if chars_eq(&s, &str_chars("thumbnail")) || chars_eq(&s, &str_chars("small")) || chars_eq(&s, &str_chars("medium")) {
        return Ok(());
    }
    let mut m = str_chars("Invalid thumbnail size '");
    push_all(&mut m, &s);
    push_all(&mut m, &str_chars("'. Valid sizes: thumbnail, small, medium"));
    Err(string_from_chars(&m))
}

/// `Thumbnail '{size}' for image '{key}' not found`.
pub fn thumbnail_missing_message(size: &str, key: &str) -> (r: String)
    ensures
        r@ == "Thumbnail '"@ + size@ + "' for image '"@ + key@ + "' not found"@,
{
    let mut m = str_chars("Thumbnail '");
    push_all(&mut m, &str_chars(size));
    push_all(&mut m, &str_chars("' for image '"));
    push_all(&mut m, &str_chars(key));
    push_all(&mut m, &str_chars("' not found"));
    string_from_chars(&m)
}

/// The listing an image list request makes: its page size (100 when none
/// is asked for), whether it runs backwards (`desc`), and the metadata-key
/// prefix it lists under.
pub fn list_images_params(max_keys: i32, sort_order: &str, prefix: &str) -> (r: (usize, bool, String))
    ensures
        r.0 == (if max_keys <= 0 { 100 } else { max_keys as usize }),
        r.1 == (sort_order@ == "desc"@),
        r.2@ == spec_image_meta_key(prefix@),
{
    let n: usize = if max_keys <= 0 { 100 } else { max_keys as usize };
    (n, chars_eq(&str_chars(sort_order), &str_chars("desc")), metadata_key(prefix))
}

/// The image key a listed metadata key stands for: the key without the
/// metadata prefix, or the key itself when it lacks the prefix.
pub fn image_key_of_meta_key(key: &str) -> (r: String)
    ensures
        r@ == (if text::has_prefix(key@, "__img_meta__"@) {
            key@.subrange("__img_meta__"@.len() as int, key@.len() as int)
        } else {
            key@
        }),
{
    let k = str_chars(key);
    let p = str_chars("__img_meta__");
    if text::starts_with(&k, &p) {
        string_from_chars(&text::chars_from(&k, p.len()))
    } else {
        string_from_chars(&k)
    }
}

/// The default number of search results.
pub fn default_top_k() -> (r: i32)
    ensures
        r == 10,
{
    10
}

/// The model an index request names, or `jina-clip-v2`.
pub fn index_model_or_default(model: &str) -> (r: String)
    ensures
        r@ == (if model@.len() == 0 { "jina-clip-v2"@ } else { model@ }),
{
    if model.is_empty() {
        "jina-clip-v2".to_string()
    } else {
        string_from_chars(&str_chars(model))
    }
}

/// The vector index a request names, or `image`.
pub fn image_index_or_default(index: &str) -> (r: String)
    ensures
        r@ == (if index@.len() == 0 { "image"@ } else { index@ }),
{
    if index.is_empty() {
        "image".to_string()
    } else {
        string_from_chars(&str_chars(index))
    }
}

// ---------------------------------------------------------------------------
// Upload decisions
// ---------------------------------------------------------------------------

/// What an upload does once duplicates (images whose embedding is near the
/// new one) are known.
pub enum UploadDecision {
    /// Store the image.
    Store,
    /// Delete these images (full-size images, thumbnails, metadata, vectors), then
    /// store the new one under a fresh key.
    ReplaceDuplicates(Vec<String>),
    /// Store nothing; report the first duplicate and its dimension.
    Skip { key: String, dim: i32 },
    /// Store nothing; ask the client to confirm, naming the first duplicate.
    Confirm { existing_key: String },
}

/// The decision: no duplicates store; with duplicates `overwrite` replaces
/// them all, `new` stores alongside, `skip` stores nothing, and anything else
/// asks for confirmation.
pub fn upload_decision(duplicates: &Vec<(String, i32)>, action: &str) -> (r: UploadDecision)
    ensures
        duplicates.len() == 0 ==> r is Store,
        duplicates.len() > 0 ==> match r {
            UploadDecision::Store => action@ == "new"@,
            UploadDecision::ReplaceDuplicates(keys) => action@ == "overwrite"@
                && keys@.map_values(|k: String| k@) == duplicates@.map_values(|d: (String, i32)| d.0@),
            UploadDecision::Skip { key, dim } => action@ == "skip"@ && key@ == duplicates[0].0@
                && dim == duplicates[0].1,
            UploadDecision::Confirm { existing_key } => action@ != "overwrite"@ && action@ != "new"@
                && action@ != "skip"@ && existing_key@ == duplicates[0].0@,
        },
{
    if duplicates.len() == 0 {
        return UploadDecision::Store;
    }
    let a = str_chars(action);
    if chars_eq(&a, &str_chars("overwrite")) {
        let mut keys: Vec<String> = Vec::new();
        let mut i: usize = 0;
        while i < duplicates.len()
            invariant
                i <= duplicates.len(),
                keys@.map_values(|k: String| k@) == duplicates@.subrange(0, i as int).map_values(|d: (String, i32)| d.0@),
            decreases duplicates.len() - i,
        {
            let ghost before = keys@;
            let c = duplicates[i].0.clone();
            assert(c@ == duplicates@[i as int].0@);
            keys.push(c);
            assert(keys@.map_values(|k: String| k@) =~= before.map_values(|k: String| k@).push(c@));
            assert(duplicates@.subrange(0, i + 1).map_values(|d: (String, i32)| d.0@) =~= duplicates@.subrange(0, i as int).map_values(|d: (String, i32)| d.0@).push(c@));
            i = i + 1;
        }
        assert(duplicates@.subrange(0, i as int) =~= duplicates@);
        UploadDecision::ReplaceDuplicates(keys)
    } else if chars_eq(&a, &str_chars("new")) {
        UploadDecision::Store
    } else if chars_eq(&a, &str_chars("skip")) {
        UploadDecision::Skip { key: duplicates[0].0.clone(), dim: duplicates[0].1 }
    } else {
        UploadDecision::Confirm { existing_key: duplicates[0].0.clone() }
    }
}

/// The objects removed with a duplicate: the full-size image, the thumbnails of
/// the pairs, the metadata record.
pub open spec fn cleanup_keys(key: Seq<char>, ps: Seq<(Seq<char>, Seq<char>)>) -> Seq<Seq<char>> {
    seq![key] + ps.map_values(|p: (Seq<char>, Seq<char>)| p.1) + seq![spec_image_meta_key(key)]
}

/// What replacing one duplicate image removes: the vector whose id is the
/// image key read as a number (when it is one), and the stored objects: the
/// full-size image, each thumbnail (in the map's order), and the metadata record.
pub fn duplicate_cleanup(existing_key: &str, thumbnails: &StringMap) -> (r: (Option<u64>, Vec<String>))
    requires
        thumbnails.wf(),
    ensures
        r.0 == text::spec_parse_u64(existing_key@),
        exists|ps: Seq<(Seq<char>, Seq<char>)>|
            {
                &&& crate::string_map::distinct_keys(ps)
                &&& crate::sigv4::pairs_map(ps) == thumbnails@
                &&& r.1@.map_values(|k: String| k@) == #[trigger] cleanup_keys(existing_key@, ps)
            },
{
    let id = text::parse_u64(&str_chars(existing_key));
    let pairs = thumbnails.to_pairs();
    let ghost ps = pairs@.map_values(|p: (String, String)| (p.0@, p.1@));
    let mut keys: Vec<String> = Vec::new();
    keys.push(existing_key.to_string());
    let mut i: usize = 0;
    while i < pairs.len()
        invariant
            i <= pairs.len(),
            ps == pairs@.map_values(|p: (String, String)| (p.0@, p.1@)),
            keys@.map_values(|k: String| k@) == seq![existing_key@] + ps.take(i as int).map_values(
                |p: (Seq<char>, Seq<char>)| p.1,
            ),
        decreases pairs.len() - i,
    {
        let ghost before = keys@.map_values(|k: String| k@);
        keys.push(pairs[i].1.clone());
        assert(ps.take(i as int + 1).map_values(|p: (Seq<char>, Seq<char>)| p.1) =~= ps.take(i as int).map_values(
            |p: (Seq<char>, Seq<char>)| p.1,
        ).push(ps[i as int].1));
        assert(keys@.map_values(|k: String| k@) =~= before.push(pairs@[i as int].1@));
        i = i + 1;
    }
    assert(ps.take(pairs.len() as int) =~= ps);
    let ghost mid = keys@.map_values(|k: String| k@);
    keys.push(metadata_key(existing_key));
    assert(keys@.map_values(|k: String| k@) =~= mid.push(spec_image_meta_key(existing_key@)));
    assert(keys@.map_values(|k: String| k@) =~= cleanup_keys(existing_key@, ps));
    (id, keys)
}

/// Whether the stored image gets a generated key: after duplicates were
/// replaced or kept alongside, or when the request names no key.
pub fn needs_generated_key(has_duplicates: bool, action: &str, requested_key: &str) -> (r: bool)
    ensures
        r == ((has_duplicates && (action@ == "overwrite"@ || action@ == "new"@)) || requested_key@.len() == 0),
{
    let a = str_chars(action);
    (has_duplicates && (chars_eq(&a, &str_chars("overwrite")) || chars_eq(&a, &str_chars("new"))))
        || requested_key.is_empty()
}

#[verifier::external_type_specification]
#[verifier::external_body]
pub struct ExSnowflake(snowflake_me::Snowflake);

/// Calls `Snowflake::next_id` and takes the id as a `u64`; a failure is
/// `None`. Nothing is claimed of the id.
#[verifier::external_body]
pub(crate) fn snowflake_next(generator: &snowflake_me::Snowflake) -> (r: Option<u64>) {
    generator.next_id().ok().map(|id| id.as_u64())
}

/// Calls `SystemTime::now().duration_since(UNIX_EPOCH)` in milliseconds
/// (zero before the epoch). Nothing is claimed: it is the clock.
#[verifier::external_body]
pub(crate) fn unix_now_millis() -> (r: u64) {
    std::time::SystemTime::now().duration_since(std::time::UNIX_EPOCH).unwrap_or_default().as_millis() as u64
}

/// A new image key: the next snowflake id, or the time in milliseconds when
/// the generator fails, in decimal.
pub fn generate_image_key(generator: &snowflake_me::Snowflake) -> (r: String)
    ensures
        exists|n: u64| r@ == text::decimal_seq(n as nat),
{
    let id = match snowflake_next(generator) {
        Some(id) => id,
        None => unix_now_millis(),
    };
    string_from_chars(&text::u64_to_decimal(id))
}

/// Whether a failed vector insert means the vector was already there.
pub fn insert_error_means_present(message: &str) -> (r: bool)
    ensures
        r == text::find_from(message@, "already exists"@, 0) is Some,
{
    let m = str_chars(message);
    text::find_chars(&m, &str_chars("already exists"), 0).is_some()
}

// ---------------------------------------------------------------------------
// Metadata
// ---------------------------------------------------------------------------

/// What is recorded about an image.
pub struct ImageMetadataRecord {
    pub key: String,
    pub content_type: String,
    pub content_length: i64,
    pub width: i32,
    pub height: i32,
    pub etag: String,
    pub last_modified: String,
    pub thumbnails: StringMap,
    pub user_metadata: StringMap,
    pub format: String,
    pub name: String,
    pub is_indexed: bool,
    pub index_model: String,
}

/// The user metadata after an update: each upsert applied in order, then
/// each deletion.
pub open spec fn updated_user_metadata(
    m: Map<Seq<char>, Seq<char>>,
    upserts: Seq<(Seq<char>, Seq<char>)>,
    deletes: Seq<Seq<char>>,
) -> Map<Seq<char>, Seq<char>> {
    crate::sigv4::pairs_map_over(m, upserts).remove_keys(deletes.to_set())
}

/// Apply a metadata update: a non-empty name replaces the name, the
/// upserts are set, the deleted keys removed, and the modification time
/// set.
pub fn apply_metadata_update(
    meta: &mut ImageMetadataRecord,
    name: &str,
    upserts: &Vec<(String, String)>,
    deletes: &Vec<String>,
    now: String,
)
    requires
        old(meta).user_metadata.wf(),
    ensures
        final(meta).user_metadata.wf(),
        final(meta).name@ == (if name@.len() > 0 { name@ } else { old(meta).name@ }),
        final(meta).user_metadata@ == updated_user_metadata(
            old(meta).user_metadata@,
            upserts@.map_values(|p: (String, String)| (p.0@, p.1@)),
            deletes@.map_values(|k: String| k@),
        ),
        final(meta).last_modified == now,
        final(meta).key == old(meta).key,
        final(meta).thumbnails == old(meta).thumbnails,
        final(meta).is_indexed == old(meta).is_indexed,
        final(meta).index_model == old(meta).index_model,
{
    if !name.is_empty() {
        meta.name = string_from_chars(&str_chars(name));
    }
    let ghost m0 = meta.user_metadata@;
    let ghost name1 = meta.name;
    let ghost ups = upserts@.map_values(|p: (String, String)| (p.0@, p.1@));
    let mut i: usize = 0;
    while i < upserts.len()
        invariant
            i <= upserts.len(),
            meta.user_metadata.wf(),
            ups == upserts@.map_values(|p: (String, String)| (p.0@, p.1@)),
            meta.user_metadata@ == crate::sigv4::pairs_map_over(m0, ups.subrange(0, i as int)),
            meta.name == name1,
            meta.key == old(meta).key,
            meta.thumbnails == old(meta).thumbnails,
            meta.is_indexed == old(meta).is_indexed,
            meta.index_model == old(meta).index_model,
        decreases upserts.len() - i,
    {
        meta.user_metadata.insert(upserts[i].0.as_str(), upserts[i].1.as_str());
        assert(ups.subrange(0, i + 1).drop_last() =~= ups.subrange(0, i as int));
        assert(ups.subrange(0, i + 1).last() == (upserts@[i as int].0@, upserts@[i as int].1@));
        i = i + 1;
    }
    assert(ups.subrange(0, i as int) =~= ups);
    let ghost m1 = meta.user_metadata@;
    let ghost dels = deletes@.map_values(|k: String| k@);
    let mut j: usize = 0;
    while j < deletes.len()
        invariant
            j <= deletes.len(),
            meta.user_metadata.wf(),
            dels == deletes@.map_values(|k: String| k@),
            meta.user_metadata@ == m1.remove_keys(dels.subrange(0, j as int).to_set()),
            meta.name == name1,
            meta.key == old(meta).key,
            meta.thumbnails == old(meta).thumbnails,
            meta.is_indexed == old(meta).is_indexed,
            meta.index_model == old(meta).index_model,
        decreases deletes.len() - j,
    {
        meta.user_metadata.remove(deletes[j].as_str());
        proof {
            let pre = dels.subrange(0, j as int);
            assert(dels.subrange(0, j + 1) =~= pre.push(dels[j as int]));
            pre.lemma_push_to_set_commute(dels[j as int]);
            assert(m1.remove_keys(pre.to_set()).remove(dels[j as int]) =~= m1.remove_keys(pre.push(dels[j as int]).to_set()));
        }
        j = j + 1;
    }
    assert(dels.subrange(0, j as int) =~= dels);
    meta.last_modified = now;
}

/// Record that an image has been indexed with a model.
pub fn mark_indexed(meta: &mut ImageMetadataRecord, model: &str, now: String)
    ensures
        final(meta).is_indexed,
        final(meta).index_model@ == model@,
        final(meta).last_modified == now,
        final(meta).key == old(meta).key,
        final(meta).name == old(meta).name,
        final(meta).user_metadata == old(meta).user_metadata,
        final(meta).thumbnails == old(meta).thumbnails,
{
    meta.is_indexed = true;
    meta.index_model = string_from_chars(&str_chars(model));
    meta.last_modified = now;
}

// ---------------------------------------------------------------------------
// Classification
// ---------------------------------------------------------------------------

/// The names a classification request resolves to.
pub struct ClassifyParams {
    pub bucket: String,
    pub vector_index: String,
    pub classify_index: String,
    pub min_cluster_size: usize,
}

/// Fill in the defaults of a classification request: bucket `images`,
/// vector index `image`, result index `image_classification`, minimum
/// cluster size 3.
pub fn classify_params(bucket: &str, index_name: &str, classify_index_name: &str, min_cluster_size: i32) -> (r: ClassifyParams)
    ensures
        r.bucket@ == (if bucket@.len() == 0 { "images"@ } else { bucket@ }),
        r.vector_index@ == (if index_name@.len() == 0 { "image"@ } else { index_name@ }),
        r.classify_index@ == (if classify_index_name@.len() == 0 { "image_classification"@ } else { classify_index_name@ }),
        r.min_cluster_size == (if min_cluster_size > 0 { min_cluster_size as usize } else { 3 }),
{
    ClassifyParams {
        bucket: resolve_bucket(bucket, "images"),
        vector_index: image_index_or_default(index_name),
        classify_index: if classify_index_name.is_empty() {
            "image_classification".to_string()
        } else {
            string_from_chars(&str_chars(classify_index_name))
        },
        min_cluster_size: if min_cluster_size > 0 { min_cluster_size as usize } else { 3 },
    }
}

/// Whether to fetch another page of image keys: the last page was
/// truncated, gave a marker, and no more than 50000 keys are collected.
pub fn continue_key_listing(is_truncated: bool, next_marker: &str, collected: usize) -> (r: bool)
    ensures
        r == (is_truncated && next_marker@.len() > 0 && collected <= 50000),
{
    is_truncated && !next_marker.is_empty() && collected <= 50000
}

/// The neighbourhood size of the clustering for `n` samples: five, but at
/// most `n - 1` and at least one.
pub fn min_samples(n: usize) -> (r: usize)
    requires
        n >= 1,
    ensures
        r == (if n - 1 < 5 { if n - 1 < 1 { 1 } else { n - 1 } } else { 5 }),
{
    let m = if n - 1 < 5 { n - 1 } else { 5 };
    if m < 1 { 1 } else { m }
}

/// The keys of the samples with label `l`, in order.
pub open spec fn label_members(s: Seq<(Seq<char>, i32)>, l: i32) -> Seq<Seq<char>>
    decreases s.len(),
{
    if s.len() == 0 {
        Seq::empty()
    } else {
        let r = label_members(s.drop_last(), l);
        if s.last().1 == l {
            r.push(s.last().0)
        } else {
            r
        }
    }
}

/// One category of images.
pub struct ClassGroup {
    /// The cluster label it came from.
    pub label: i32,
    /// `cat_{position}`.
    pub category: String,
    /// `分类 {position + 1}`.
    pub name: String,
    /// The image keys, in sample order.
    pub keys: Vec<String>,
}

fn members_of(samples: &Vec<(String, i32)>, l: i32) -> (r: Vec<String>)
    ensures
        r@.map_values(|k: String| k@) == label_members(samples@.map_values(|p: (String, i32)| (p.0@, p.1)), l),
{
    let ghost sv = samples@.map_values(|p: (String, i32)| (p.0@, p.1));
    let mut out: Vec<String> = Vec::new();
    let mut i: usize = 0;
    while i < samples.len()
        invariant
            i <= samples.len(),
            sv == samples@.map_values(|p: (String, i32)| (p.0@, p.1)),
            out@.map_values(|k: String| k@) == label_members(sv.subrange(0, i as int), l),
        decreases samples.len() - i,
    {
        let ghost next = sv.subrange(0, i + 1);
        assert(next.drop_last() =~= sv.subrange(0, i as int));
        assert(next.last() == (samples@[i as int].0@, samples@[i as int].1));
        if samples[i].1 == l {
            let ghost before = out@;
            let c = samples[i].0.clone();
            out.push(c);
            assert(out@.map_values(|k: String| k@) =~= before.map_values(|k: String| k@).push(samples@[i as int].0@));
        }
        i = i + 1;
    }
    assert(sv.subrange(0, i as int) =~= sv);
    out
}

/// Group clustered samples (image key and cluster label, `-1` for noise)
/// into categories, largest first. Each category holds the keys of one
/// label in sample order; every label but noise has exactly one category.
/// Categories of equal size may come in any order.
pub fn group_by_label(samples: &Vec<(String, i32)>) -> (r: Vec<ClassGroup>)
    ensures
        forall|g: int| 0 <= g < r.len() ==> {
            &&& (#[trigger] r[g]).label != -1
            &&& r[g].keys@.map_values(|k: String| k@) == label_members(samples@.map_values(|p: (String, i32)| (p.0@, p.1)), r[g].label)
            &&& r[g].category@ == "cat_"@ + text::decimal_seq(g as nat)
            &&& r[g].name@ == "分类 "@ + text::decimal_seq((g + 1) as nat)
        },
        forall|g1: int, g2: int| 0 <= g1 < g2 < r.len() ==> (#[trigger] r[g1]).label != (#[trigger] r[g2]).label
            && r[g1].keys.len() >= r[g2].keys.len(),
        forall|i: int| 0 <= i < samples.len() && (#[trigger] samples[i]).1 != -1 ==> exists|g: int| 0 <= g < r.len() && (#[trigger] r[g]).label == samples[i].1,
{
    let ghost sv = samples@.map_values(|p: (String, i32)| (p.0@, p.1));
    // Distinct labels in order of first appearance.
    let mut labels: Vec<i32> = Vec::new();
    let mut i: usize = 0;
    while i < samples.len()
        invariant
            i <= samples.len(),
            forall|a: int, b: int| 0 <= a < b < labels.len() ==> labels[a] != labels[b],
            forall|a: int| 0 <= a < labels.len() ==> labels[a] != -1,
            forall|k: int| 0 <= k < i && (#[trigger] samples[k]).1 != -1 ==> labels@.contains(samples[k].1),
        decreases samples.len() - i,
    {
        let l = samples[i].1;
        if l != -1 {
            let mut found = false;
            let mut j: usize = 0;
            while j < labels.len()
                invariant
                    j <= labels.len(),
                    found == (exists|a: int| 0 <= a < j && labels[a] == l),
                decreases labels.len() - j,
            {
                if labels[j] == l {
                    found = true;
                }
                j = j + 1;
            }
            if !found {
                let ghost before = labels@;
                labels.push(l);
                assert(labels@ == before.push(l));
                assert forall|k: int| 0 <= k < i + 1 && (#[trigger] samples[k]).1 != -1 implies labels@.contains(samples[k].1) by {
                    if k < i {
                        assert(before.contains(samples[k].1));
                        let a = choose|a: int| 0 <= a < before.len() && before[a] == samples[k].1;
                        assert(labels@[a] == samples[k].1);
                    } else {
                        assert(labels@[labels.len() - 1] == l);
                    }
                }
            } else {
                assert forall|k: int| 0 <= k < i + 1 && (#[trigger] samples[k]).1 != -1 implies labels@.contains(samples[k].1) by {
                    if k == i {
                        let a = choose|a: int| 0 <= a < labels.len() && labels[a] == l;
                        assert(labels@[a] == l);
                    }
                }
            }
        }
        i = i + 1;
    }
    // Sort the labels by member count, largest first, keeping first-seen order among equals.
    let mut sorted: Vec<(i32, Vec<String>)> = Vec::new();
    let mut k: usize = 0;
    while k < labels.len()
        invariant
            k <= labels.len(),
            sv == samples@.map_values(|p: (String, i32)| (p.0@, p.1)),
            forall|a: int, b: int| 0 <= a < b < labels.len() ==> labels[a] != labels[b],
            forall|a: int| 0 <= a < labels.len() ==> labels[a] != -1,
            sorted.len() == k,
            forall|g: int| 0 <= g < sorted.len() ==> (#[trigger] sorted[g]).1@.map_values(|x: String| x@) == label_members(sv, sorted[g].0),
            forall|g1: int, g2: int| 0 <= g1 < g2 < sorted.len() ==> (#[trigger] sorted[g1]).1.len() >= (#[trigger] sorted[g2]).1.len(),
            group_labels(sorted@).to_set() == labels@.subrange(0, k as int).to_set(),
            forall|g1: int, g2: int| 0 <= g1 < g2 < sorted.len() ==> (#[trigger] sorted[g1]).0 != (#[trigger] sorted[g2]).0,
        decreases labels.len() - k,
    {
        let l = labels[k];
        let members = members_of(samples, l);
        let n = members.len();
        let mut pos: usize = 0;
        while pos < sorted.len() && sorted[pos].1.len() >= n
            invariant
                pos <= sorted.len(),
                forall|g: int| 0 <= g < pos ==> (#[trigger] sorted[g]).1.len() >= n,
            decreases sorted.len() - pos,
        {
            pos = pos + 1;
        }
        let ghost before = sorted@;
        proof {
            assert forall|g: int| 0 <= g < sorted.len() implies (#[trigger] sorted[g]).0 != l by {
                assert(group_labels(before).to_set().contains(group_labels(before)[g]));
                assert(labels@.subrange(0, k as int).to_set().contains(sorted[g].0));
                let a = choose|a: int| 0 <= a < k && labels@.subrange(0, k as int)[a] == sorted[g].0;
                assert(labels[a] != labels[k as int]);
            }
        }
        let ghost item = (l, members);
        sorted.insert(pos, (l, members));
        proof {
            assert(sorted@ == before.insert(pos as int, item));
            lemma_insert_sorted(before, pos as int, item);
            lemma_insert_labels(before, pos as int, item);
            assert(labels@.subrange(0, k + 1) =~= labels@.subrange(0, k as int).push(l));
            labels@.subrange(0, k as int).lemma_push_to_set_commute(l);
            assert forall|g: int| 0 <= g < sorted.len() implies (#[trigger] sorted[g]).1@.map_values(|x: String| x@) == label_members(sv, sorted[g].0) by {
                if g < pos {
                    assert(sorted[g] == before[g]);
                } else if g > pos {
                    assert(sorted[g] == before[g - 1]);
                }
            }
        }
        k = k + 1;
    }
    assert(labels@.subrange(0, labels.len() as int) =~= labels@);
    // Name the categories by position.
    let mut groups: Vec<ClassGroup> = Vec::new();
    let mut g: usize = 0;
    while g < sorted.len()
        invariant
            g <= sorted.len(),
            groups.len() == g,
            sv == samples@.map_values(|p: (String, i32)| (p.0@, p.1)),
            forall|a: int| 0 <= a < labels.len() ==> labels[a] != -1,
            group_labels(sorted@).to_set() == labels@.to_set(),
            forall|x: int| 0 <= x < sorted.len() ==> (#[trigger] sorted[x]).1@.map_values(|y: String| y@) == label_members(sv, sorted[x].0),
            forall|x: int| 0 <= x < g ==> {
                &&& (#[trigger] groups[x]).label == sorted[x].0
                &&& groups[x].keys@ == sorted[x].1@
                &&& groups[x].category@ == "cat_"@ + text::decimal_seq(x as nat)
                &&& groups[x].name@ == "分类 "@ + text::decimal_seq((x + 1) as nat)
            },
        decreases sorted.len() - g,
    {
        let mut category = str_chars("cat_");
        push_all(&mut category, &text::u64_to_decimal(g as u64));
        let mut name = str_chars("分类 ");
        push_all(&mut name, &text::u64_to_decimal((g + 1) as u64));
        let keys = clone_strings(&sorted[g].1);
        groups.push(ClassGroup {
            label: sorted[g].0,
            category: string_from_chars(&category),
            name: string_from_chars(&name),
            keys,
        });
        g = g + 1;
    }
    proof {
        assert forall|x: int| 0 <= x < groups.len() implies (#[trigger] groups[x]).label != -1 by {
            assert(group_labels(sorted@)[x] == sorted[x].0);
            assert(group_labels(sorted@).to_set().contains(sorted[x].0));
            assert(labels@.to_set().contains(sorted[x].0));
        }
        assert forall|x: int| 0 <= x < groups.len() implies (#[trigger] groups[x]).keys@.map_values(|k: String| k@) == label_members(sv, groups[x].label) by {
            assert(groups[x].keys@ == sorted[x].1@);
        }
        assert forall|i: int| 0 <= i < samples.len() && (#[trigger] samples[i]).1 != -1 implies exists|x: int| 0 <= x < groups.len() && (#[trigger] groups[x]).label == samples[i].1 by {
            assert(labels@.contains(samples[i].1));
            assert(labels@.to_set().contains(samples[i].1));
            assert(group_labels(sorted@).to_set().contains(samples[i].1));
            let x = choose|x: int| 0 <= x < group_labels(sorted@).len() && group_labels(sorted@)[x] == samples[i].1;
            assert(groups[x].label == sorted[x].0);
        }
    }
    groups
}

/// The labels of groups, in order.
pub open spec fn group_labels(s: Seq<(i32, Vec<String>)>) -> Seq<i32> {
    s.map_values(|e: (i32, Vec<String>)| e.0)
}

proof fn lemma_insert_labels(before: Seq<(i32, Vec<String>)>, pos: int, item: (i32, Vec<String>))
    requires
        0 <= pos <= before.len(),
    ensures
        group_labels(before.insert(pos, item)).to_set() == group_labels(before).to_set().insert(item.0),
{
    let s = before.insert(pos, item);
    assert forall|x: i32| group_labels(s).to_set().contains(x) <==> group_labels(before).to_set().insert(item.0).contains(x) by {
        if group_labels(s).to_set().contains(x) {
            let g = choose|g: int| 0 <= g < group_labels(s).len() && group_labels(s)[g] == x;
            if g < pos {
                assert(s[g] == before[g]);
                assert(group_labels(before)[g] == x);
            } else if g > pos {
                assert(s[g] == before[g - 1]);
                assert(group_labels(before)[g - 1] == x);
            }
        }
        if group_labels(before).to_set().insert(item.0).contains(x) {
            if x == item.0 {
                assert(group_labels(s)[pos] == x);
            } else {
                let g = choose|g: int| 0 <= g < group_labels(before).len() && group_labels(before)[g] == x;
                if g < pos {
                    assert(group_labels(s)[g] == x);
                } else {
                    assert(group_labels(s)[g + 1] == x);
                }
            }
        }
    }
    assert(group_labels(s).to_set() =~= group_labels(before).to_set().insert(item.0));
}

/// Inserting at the first position whose group is smaller keeps the groups
/// ordered by size and their labels distinct.
proof fn lemma_insert_sorted(before: Seq<(i32, Vec<String>)>, pos: int, item: (i32, Vec<String>))
    requires
        0 <= pos <= before.len(),
        forall|g: int| 0 <= g < pos ==> (#[trigger] before[g]).1.len() >= item.1.len(),
        pos < before.len() ==> before[pos].1.len() < item.1.len(),
        forall|g1: int, g2: int| 0 <= g1 < g2 < before.len() ==> (#[trigger] before[g1]).1.len() >= (#[trigger] before[g2]).1.len(),
        forall|g1: int, g2: int| 0 <= g1 < g2 < before.len() ==> (#[trigger] before[g1]).0 != (#[trigger] before[g2]).0,
        forall|g: int| 0 <= g < before.len() ==> (#[trigger] before[g]).0 != item.0,
    ensures
        forall|g1: int, g2: int| 0 <= g1 < g2 < before.len() + 1 ==> (#[trigger] before.insert(pos, item)[g1]).1.len() >= (#[trigger] before.insert(pos, item)[g2]).1.len(),
        forall|g1: int, g2: int| 0 <= g1 < g2 < before.len() + 1 ==> (#[trigger] before.insert(pos, item)[g1]).0 != (#[trigger] before.insert(pos, item)[g2]).0,
{
    let s = before.insert(pos, item);
    assert forall|g1: int, g2: int| 0 <= g1 < g2 < before.len() + 1 implies (#[trigger] s[g1]).1.len() >= (#[trigger] s[g2]).1.len() && s[g1].0 != s[g2].0 by {
        if g1 < pos && g2 < pos {
            assert(s[g1] == before[g1] && s[g2] == before[g2]);
        } else if g1 < pos && g2 == pos {
            assert(s[g1] == before[g1]);
        } else if g1 < pos {
            assert(s[g1] == before[g1] && s[g2] == before[g2 - 1]);
        } else if g1 == pos {
            assert(s[g2] == before[g2 - 1]);
            assert(before[pos].1.len() >= before[g2 - 1].1.len() || g2 - 1 == pos);
        } else {
            assert(s[g1] == before[g1 - 1] && s[g2] == before[g2 - 1]);
        }
    }
}

fn clone_strings(v: &Vec<String>) -> (r: Vec<String>)
    ensures
        r@ == v@,
{
    let mut out: Vec<String> = Vec::new();
    let mut i: usize = 0;
    while i < v.len()
        invariant
            i <= v.len(),
            out@ == v@.subrange(0, i as int),
        decreases v.len() - i,
    {
        out.push(v[i].clone());
        assert(out@ =~= v@.subrange(0, i + 1));
        i = i + 1;
    }
    assert(v@.subrange(0, i as int) =~= v@);
    out
}

/// The category and name recorded for a sample: those of the first group
/// with its label, or `noise` / `未分类` when no group has it.
pub fn sample_category(groups: &Vec<ClassGroup>, label: i32) -> (r: (String, String))
    ensures
        (forall|g: int| 0 <= g < groups.len() ==> (#[trigger] groups[g]).label != label) ==> r.0@ == "noise"@
            && r.1@ == "未分类"@,
        forall|g: int| 0 <= g < groups.len() && (#[trigger] groups[g]).label == label && (forall|h: int| 0 <= h < g ==> groups[h].label != label)
            ==> r.0 == groups[g].category && r.1 == groups[g].name,
{
    let mut i: usize = 0;
    while i < groups.len()
        invariant
            i <= groups.len(),
            forall|g: int| 0 <= g < i ==> (#[trigger] groups[g]).label != label,
        decreases groups.len() - i,
    {
        if groups[i].label == label {
            return (groups[i].category.clone(), groups[i].name.clone());
        }
        i = i + 1;
    }
    ("noise".to_string(), "未分类".to_string())
}

/// The category and name of the first group with `label`, or `noise` /
/// `未分类` when no group has it.
pub open spec fn category_of(gs: Seq<ClassGroup>, label: i32) -> (Seq<char>, Seq<char>)
    decreases gs.len(),
{
    if gs.len() == 0 {
        ("noise"@, "未分类"@)
    } else if gs[0].label == label {
        (gs[0].category@, gs[0].name@)
    } else {
        category_of(gs.drop_first(), label)
    }
}

proof fn lemma_category_of(gs: Seq<ClassGroup>, label: i32, g: int)
    requires
        0 <= g <= gs.len(),
        forall|h: int| 0 <= h < g ==> (#[trigger] gs[h]).label != label,
    ensures
        g < gs.len() && gs[g].label == label ==> category_of(gs, label) == (gs[g].category@, gs[g].name@),
        g == gs.len() ==> category_of(gs, label) == ("noise"@, "未分类"@),
    decreases g,
{
    if g > 0 {
        let d = gs.drop_first();
        assert forall|h: int| 0 <= h < g - 1 implies (#[trigger] d[h]).label != label by {
            assert(d[h] == gs[h + 1]);
        }
        lemma_category_of(d, label, g - 1);
        assert(gs[0].label != label);
        if g < gs.len() {
            assert(d[g - 1] == gs[g]);
        }
    }
}

/// One call a classification makes on the full-text index sink.
pub enum SinkCall {
    /// Drop the index (a missing index is no error).
    DropIndex { index: String },
    /// Create the index with these fields: position, name, type code
    /// (0 text), comment.
    CreateIndex { index: String, fields: Vec<(u32, String, u8, Option<String>)> },
    /// Write one document.
    AddDocument { index: String, doc_id: String, fields: Vec<(String, String)> },
}

/// The fields of a classification index: `key`, `category`, `label` and
/// `bucket`, all text.
pub open spec fn classification_fields_spec() -> Seq<(u32, Seq<char>, u8, Option<Seq<char>>)> {
    seq![
        (0u32, "key"@, 0u8, Some("图片 key"@)),
        (1u32, "category"@, 0u8, Some("分类 ID"@)),
        (2u32, "label"@, 0u8, Some("分类名称"@)),
        (3u32, "bucket"@, 0u8, Some("所属 bucket"@)),
    ]
}

/// A field description as characters.
pub open spec fn field_desc_view(f: (u32, String, u8, Option<String>)) -> (u32, Seq<char>, u8, Option<Seq<char>>) {
    (f.0, f.1@, f.2, match f.3 {
        Some(c) => Some(c@),
        None => None,
    })
}

/// The fields of the index a classification is written to.
pub fn classification_index_fields() -> (r: Vec<(u32, String, u8, Option<String>)>)
    ensures
        r@.map_values(|f: (u32, String, u8, Option<String>)| field_desc_view(f)) == classification_fields_spec(),
{
    let mut v: Vec<(u32, String, u8, Option<String>)> = Vec::new();
    v.push((0, "key".to_string(), 0, Some("图片 key".to_string())));
    v.push((1, "category".to_string(), 0, Some("分类 ID".to_string())));
    v.push((2, "label".to_string(), 0, Some("分类名称".to_string())));
    v.push((3, "bucket".to_string(), 0, Some("所属 bucket".to_string())));
    assert(v@.map_values(|f: (u32, String, u8, Option<String>)| field_desc_view(f)) =~= classification_fields_spec());
    v
}

/// The document of one classified image.
pub open spec fn classification_doc_spec(key: Seq<char>, category: Seq<char>, name: Seq<char>, bucket: Seq<char>) -> Seq<(Seq<char>, Seq<char>)> {
    seq![("key"@, key), ("category"@, category), ("label"@, name), ("bucket"@, bucket)]
}

/// A pair of strings as characters.
pub open spec fn doc_pair_view(p: (String, String)) -> (Seq<char>, Seq<char>) {
    (p.0@, p.1@)
}

/// The document written for one classified image.
pub fn classification_document(key: &str, category: &str, name: &str, bucket: &str) -> (r: Vec<(String, String)>)
    ensures
        r@.map_values(|p: (String, String)| doc_pair_view(p)) == classification_doc_spec(key@, category@, name@, bucket@),
{
    let mut v: Vec<(String, String)> = Vec::new();
    v.push(("key".to_string(), key.to_string()));
    v.push(("category".to_string(), category.to_string()));
    v.push(("label".to_string(), name.to_string()));
    v.push(("bucket".to_string(), bucket.to_string()));
    assert(v@.map_values(|p: (String, String)| doc_pair_view(p)) =~= classification_doc_spec(key@, category@, name@, bucket@));
    v
}

/// The calls that write a classification to the index sink: drop the index,
/// create it with the classification fields, then one document per sample
/// (image key and cluster label) in sample order, under the category and
/// name of the sample's group (noise when none).
pub fn classification_calls(index: &str, bucket: &str, samples: &Vec<(String, i32)>, groups: &Vec<ClassGroup>) -> (r: Vec<SinkCall>)
    requires
        samples.len() + 2 <= usize::MAX,
    ensures
        r.len() == samples.len() + 2,
        r[0] matches SinkCall::DropIndex { index: i } && i@ == index@,
        r[1] matches SinkCall::CreateIndex { index: i, fields } && i@ == index@
            && fields@.map_values(|f: (u32, String, u8, Option<String>)| field_desc_view(f)) == classification_fields_spec(),
        forall|k: int| 0 <= k < samples.len() ==> ((#[trigger] r[k + 2]) matches SinkCall::AddDocument { index: i, doc_id, fields }
            && i@ == index@ && doc_id@ == samples[k].0@
            && fields@.map_values(|p: (String, String)| doc_pair_view(p)) == classification_doc_spec(
                samples[k].0@,
                category_of(groups@, samples[k].1).0,
                category_of(groups@, samples[k].1).1,
                bucket@,
            )),
{
    let mut r: Vec<SinkCall> = Vec::new();
    r.push(SinkCall::DropIndex { index: index.to_string() });
    r.push(SinkCall::CreateIndex { index: index.to_string(), fields: classification_index_fields() });
    let mut k: usize = 0;
    while k < samples.len()
        invariant
            k <= samples.len(),
            r.len() == k + 2,
            r[0] matches SinkCall::DropIndex { index: i } && i@ == index@,
            r[1] matches SinkCall::CreateIndex { index: i, fields } && i@ == index@
                && fields@.map_values(|f: (u32, String, u8, Option<String>)| field_desc_view(f)) == classification_fields_spec(),
            forall|j: int| 0 <= j < k ==> ((#[trigger] r[j + 2]) matches SinkCall::AddDocument { index: i, doc_id, fields }
                && i@ == index@ && doc_id@ == samples[j].0@
                && fields@.map_values(|p: (String, String)| doc_pair_view(p)) == classification_doc_spec(
                    samples[j].0@,
                    category_of(groups@, samples[j].1).0,
                    category_of(groups@, samples[j].1).1,
                    bucket@,
                )),
        decreases samples.len() - k,
    {
        let (cat, name) = sample_category(groups, samples[k].1);
        proof {
            let l = samples[k as int].1;
            if exists|g: int| 0 <= g < groups.len() && (#[trigger] groups[g]).label == l {
                let g0 = choose|g: int| 0 <= g < groups.len() && (#[trigger] groups[g]).label == l;
                assert(exists|g: int| 0 <= g < groups.len() && groups[g].label == l && forall|h: int| 0 <= h < g ==> (#[trigger] groups[h]).label != l) by {
                    lemma_first_group(groups@, l, g0);
                }
                let gf = choose|g: int| 0 <= g < groups.len() && groups[g].label == l && forall|h: int| 0 <= h < g ==> (#[trigger] groups[h]).label != l;
                lemma_category_of(groups@, l, gf);
                assert(groups@[gf] == groups[gf]);
            } else {
                assert forall|h: int| 0 <= h < groups.len() implies (#[trigger] groups@[h]).label != l by {
                    assert(groups@[h] == groups[h]);
                }
                lemma_category_of(groups@, l, groups.len() as int);
            }
        }
        let doc = classification_document(samples[k].0.as_str(), cat.as_str(), name.as_str(), bucket);
        r.push(SinkCall::AddDocument { index: index.to_string(), doc_id: samples[k].0.clone(), fields: doc });
        k = k + 1;
    }
    r
}

proof fn lemma_first_group(gs: Seq<ClassGroup>, l: i32, g0: int)
    requires
        0 <= g0 < gs.len(),
        gs[g0].label == l,
    ensures
        exists|g: int| 0 <= g < gs.len() && gs[g].label == l && forall|h: int| 0 <= h < g ==> (#[trigger] gs[h]).label != l,
    decreases g0,
{
    if exists|h: int| 0 <= h < g0 && (#[trigger] gs[h]).label == l {
        let h = choose|h: int| 0 <= h < g0 && (#[trigger] gs[h]).label == l;
        lemma_first_group(gs, l, h);
    } else {
        assert(forall|h: int| 0 <= h < g0 ==> (#[trigger] gs[h]).label != l);
    }
}

/// `全文索引未启用，无法保存分类结果`, when writing is asked for without a sink.
pub fn no_sink_message() -> (r: String)
    ensures
        r@ == "全文索引未启用，无法保存分类结果"@,
{
    "全文索引未启用，无法保存分类结果".to_string()
}

/// The index of the last embedding entry with a vector whose id, in
/// decimal, is `key`.
pub open spec fn last_entry_for(ids: Seq<u64>, has_vector: Seq<bool>, key: Seq<char>) -> Option<int>
    decreases ids.len(),
{
    if ids.len() == 0 {
        None
    } else if has_vector.len() == ids.len() && has_vector.last() && text::decimal_seq(ids.last() as nat) == key {
        Some(ids.len() - 1)
    } else {
        last_entry_for(ids.drop_last(), has_vector.subrange(0, has_vector.len() - 1), key)
    }
}

/// The images that have a vector, in key order, with the entry holding it.
pub open spec fn spec_samples(keys: Seq<Seq<char>>, ids: Seq<u64>, has_vector: Seq<bool>) -> Seq<(Seq<char>, int)>
    decreases keys.len(),
{
    if keys.len() == 0 {
        Seq::empty()
    } else {
        let rest = spec_samples(keys.drop_last(), ids, has_vector);
        match last_entry_for(ids, has_vector, keys.last()) {
            Some(j) => rest.push((keys.last(), j)),
            None => rest,
        }
    }
}

fn last_entry_index(ids: &Vec<u64>, has_vector: &Vec<bool>, key: &[char]) -> (r: Option<usize>)
    requires
        ids.len() == has_vector.len(),
    ensures
        match r {
            Some(j) => last_entry_for(ids@, has_vector@, key@) == Some(j as int),
            None => last_entry_for(ids@, has_vector@, key@) == None::<int>,
        },
{
    let mut j = ids.len();
    assert(ids@.subrange(0, j as int) =~= ids@);
    assert(has_vector@.subrange(0, j as int) =~= has_vector@);
    while j > 0
        invariant
            j <= ids.len(),
            ids.len() == has_vector.len(),
            last_entry_for(ids@, has_vector@, key@) == last_entry_for(ids@.subrange(0, j as int), has_vector@.subrange(0, j as int), key@),
        decreases j,
    {
        let ghost si = ids@.subrange(0, j as int);
        let ghost sh = has_vector@.subrange(0, j as int);
        assert(si.drop_last() =~= ids@.subrange(0, j - 1));
        assert(sh.subrange(0, sh.len() - 1) =~= has_vector@.subrange(0, j - 1));
        if has_vector[j - 1] && text::chars_eq(&text::u64_to_decimal(ids[j - 1]), key) {
            return Some(j - 1);
        }
        j = j - 1;
    }
    None
}

/// Pair each image key with the embedding entry that holds its vector;
/// keys without one are left out.
pub fn match_samples(keys: &Vec<String>, ids: &Vec<u64>, has_vector: &Vec<bool>) -> (r: Vec<(String, usize)>)
    requires
        ids.len() == has_vector.len(),
    ensures
        r@.map_values(|p: (String, usize)| (p.0@, p.1 as int)) == spec_samples(keys@.map_values(|k: String| k@), ids@, has_vector@),
{
    let ghost kv = keys@.map_values(|k: String| k@);
    let mut out: Vec<(String, usize)> = Vec::new();
    let mut i: usize = 0;
    while i < keys.len()
        invariant
            i <= keys.len(),
            ids.len() == has_vector.len(),
            kv == keys@.map_values(|k: String| k@),
            out@.map_values(|p: (String, usize)| (p.0@, p.1 as int)) == spec_samples(kv.subrange(0, i as int), ids@, has_vector@),
        decreases keys.len() - i,
    {
        let ghost next = kv.subrange(0, i + 1);
        assert(next.drop_last() =~= kv.subrange(0, i as int));
        assert(next.last() == keys@[i as int]@);
        let k = str_chars(keys[i].as_str());
        match last_entry_index(ids, has_vector, &k) {
            Some(j) => {
                let ghost before = out@;
                let c = keys[i].clone();
                out.push((c, j));
                assert(out@.map_values(|p: (String, usize)| (p.0@, p.1 as int)) =~= before.map_values(|p: (String, usize)| (p.0@, p.1 as int)).push((keys@[i as int]@, j as int)));
            },
            None => {},
        }
        i = i + 1;
    }
    assert(kv.subrange(0, i as int) =~= kv);
    out
}

/// `分类完成: {n} 张图片，{clusters} 个分类，{noise} 张噪声`.
pub fn classify_summary(samples: usize, clusters: usize, noise: usize) -> (r: String)
    ensures
        r@ == "分类完成: "@ + text::decimal_seq(samples as nat) + " 张图片，"@ + text::decimal_seq(clusters as nat) + " 个分类，"@
            + text::decimal_seq(noise as nat) + " 张噪声"@,
{
    let mut m = str_chars("分类完成: ");
    push_all(&mut m, &text::u64_to_decimal(samples as u64));
    push_all(&mut m, &str_chars(" 张图片，"));
    push_all(&mut m, &text::u64_to_decimal(clusters as u64));
    push_all(&mut m, &str_chars(" 个分类，"));
    push_all(&mut m, &text::u64_to_decimal(noise as u64));
    push_all(&mut m, &str_chars(" 张噪声"));
    string_from_chars(&m)
}

/// `向量化图片不足({n} 张)，无法聚类`, for fewer than two samples.
pub fn too_few_samples_message(n: usize) -> (r: String)
    ensures
        r@ == "向量化图片不足("@ + text::decimal_seq(n as nat) + " 张)，无法聚类"@,
{
    let mut m = str_chars("向量化图片不足(");
    push_all(&mut m, &text::u64_to_decimal(n as u64));
    push_all(&mut m, &str_chars(" 张)，无法聚类"));
    string_from_chars(&m)
}

// ---------------------------------------------------------------------------
// Stored metadata records
// ---------------------------------------------------------------------------

fn map_from_entries(entries: &Vec<(String, String)>) -> (r: StringMap)
    ensures
        r.wf(),
        r@ == crate::sigv4::pairs_map(entries@.map_values(|e: (String, String)| (e.0@, e.1@))),
{
    let ghost ev = entries@.map_values(|e: (String, String)| (e.0@, e.1@));
    let mut m = StringMap::new();
    let mut i: usize = 0;
    while i < entries.len()
        invariant
            i <= entries.len(),
            m.wf(),
            ev == entries@.map_values(|e: (String, String)| (e.0@, e.1@)),
            m@ == crate::sigv4::pairs_map(ev.subrange(0, i as int)),
        decreases entries.len() - i,
    {
        m.insert(entries[i].0.as_str(), entries[i].1.as_str());
        assert(ev.subrange(0, i + 1).drop_last() =~= ev.subrange(0, i as int));
        assert(ev.subrange(0, i + 1).last() == (entries@[i as int].0@, entries@[i as int].1@));
        i = i + 1;
    }
    assert(ev.subrange(0, i as int) =~= ev);
    m
}

/// A string field of a metadata document, or empty.
pub open spec fn meta_str(doc: Seq<u8>, name: Seq<char>) -> Seq<char> {
    crate::object_store::str_field_or_empty(doc, name)
}

/// An integer field of a metadata document, or zero.
pub open spec fn meta_i64(doc: Seq<u8>, name: Seq<char>) -> i64 {
    match crate::object_store::json_i64_field_of(doc, name) {
        Some(n) => n,
        None => 0,
    }
}

/// Read an image metadata record; missing or unreadable fields take their
/// empty value (zero, false); width and height keep the low 32 bits.
pub fn image_metadata_from_json(doc: &[u8]) -> (r: ImageMetadataRecord)
    ensures
        r.key@ == meta_str(doc@, "key"@),
        r.content_type@ == meta_str(doc@, "content_type"@),
        r.content_length == meta_i64(doc@, "content_length"@),
        r.width == meta_i64(doc@, "width"@) as i32,
        r.height == meta_i64(doc@, "height"@) as i32,
        r.etag@ == meta_str(doc@, "etag"@),
        r.last_modified@ == meta_str(doc@, "last_modified"@),
        r.thumbnails.wf(),
        r.thumbnails@ == crate::sigv4::pairs_map(crate::object_store::json_string_entries_of(doc@, "thumbnails"@)),
        r.user_metadata.wf(),
        r.user_metadata@ == crate::sigv4::pairs_map(crate::object_store::json_string_entries_of(doc@, "user_metadata"@)),
        r.format@ == meta_str(doc@, "format"@),
        r.name@ == meta_str(doc@, "name"@),
        r.is_indexed == (match crate::object_store::json_bool_field_of(doc@, "is_indexed"@) {
            Some(b) => b,
            None => false,
        }),
        r.index_model@ == meta_str(doc@, "index_model"@),
{
    let int_field = |name: &str| -> (n: i64)
        ensures
            n == meta_i64(doc@, name@),
        {
            match crate::object_store::json_i64_field(doc, name) {
                Some(n) => n,
                None => 0,
            }
        };
    let width = int_field("width");
    let height = int_field("height");
    ImageMetadataRecord {
        key: crate::object_store::str_field_or_empty_exec(doc, "key"),
        content_type: crate::object_store::str_field_or_empty_exec(doc, "content_type"),
        content_length: int_field("content_length"),
        width: width as i32,
        height: height as i32,
        etag: crate::object_store::str_field_or_empty_exec(doc, "etag"),
        last_modified: crate::object_store::str_field_or_empty_exec(doc, "last_modified"),
        thumbnails: map_from_entries(&crate::object_store::json_string_entries(doc, "thumbnails")),
        user_metadata: map_from_entries(&crate::object_store::json_string_entries(doc, "user_metadata")),
        format: crate::object_store::str_field_or_empty_exec(doc, "format"),
        name: crate::object_store::str_field_or_empty_exec(doc, "name"),
        is_indexed: match crate::object_store::json_bool_field(doc, "is_indexed") {
            Some(b) => b,
            None => false,
        },
        index_model: crate::object_store::str_field_or_empty_exec(doc, "index_model"),
    }
}

} // verus!
