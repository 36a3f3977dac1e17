//! The steps of an image upload as a state machine: what to do next,
//! given where the upload stands and what the last outside step reported.
//! The caller performs each action (bucket check, embedding, duplicate
//! search, deletions, decoding, stores, indexing) and reports back.

use vstd::prelude::*;
use crate::text::{concat, str_chars, string_from_chars};
use crate::string_map::StringMap;
use crate::image::{
    index_model_or_default, spec_thumbnail_key, thumbnail_key, thumbnail_sizes, ImageMetadataRecord,
};

verus! {

/// Where an upload stands: which outside step it waits for.
#[derive(PartialEq, Eq, Structural, Clone, Copy)]
pub enum UploadPhase {
    /// Nothing done yet.
    Start,
    /// Waiting for the bucket to exist.
    Bucket,
    /// Waiting for the image's embedding.
    Embedding,
    /// Waiting for the duplicate search.
    Duplicates,
    /// Waiting for the duplicates to be deleted.
    Deleting,
    /// Waiting for a fresh key.
    KeyGen,
    /// Waiting for the image to be decoded.
    Decoding,
    /// Waiting for the full-size image to be stored.
    Original,
    /// Waiting for a thumbnail to be stored.
    Thumbnails,
    /// Waiting for the current time.
    Clock,
    /// Waiting for the metadata record to be saved.
    Metadata,
    /// Waiting for the vector index.
    Indexing,
    /// Waiting for the metadata record, now marked indexed, to be saved.
    IndexedMetadata,
    /// Finished.
    Done,
}

/// The upload's state.
pub struct UploadState {
    pub phase: UploadPhase,
    /// An embedding was made (and can be indexed later).
    pub has_embedding: bool,
    /// The image key, once chosen.
    pub key: String,
    /// The stored image's ETag, once stored.
    pub etag: String,
    /// How many thumbnails are stored.
    pub thumbs_done: usize,
    /// The vector id and dimension, once indexed.
    pub embedding_id: String,
    pub embedding_dim: i32,
    /// The decoded image's size and format.
    pub width: i32,
    pub height: i32,
    pub format: String,
    /// The metadata record, once built; the caller saves it when asked.
    pub record: Option<ImageMetadataRecord>,
}

/// What the request asks for and carries.
pub struct UploadRequestFlags {
    pub auto_index: bool,
    pub duplicate_action: String,
    pub requested_key: String,
    pub index_model: String,
    pub content_type: String,
    /// The length of the uploaded data.
    pub content_length: i64,
    pub name: String,
    pub user_metadata: StringMap,
}

/// What the last outside step reported.
pub enum UploadEvent {
    Begin,
    BucketReady,
    Embedded { ok: bool },
    DuplicatesFound(Vec<(String, i32)>),
    DuplicatesDeleted,
    KeyGenerated(String),
    Decoded { width: i32, height: i32, format: String },
    OriginalStored { success: bool, etag: String },
    ThumbnailStored,
    Clock(String),
    MetadataSaved,
    Indexed { id: String, dim: i32 },
    IndexFailed,
    /// The step failed with this message.
    Failed(String),
}

/// The answer to the client.
pub struct UploadReply {
    pub success: bool,
    pub message: String,
    pub key: String,
    pub etag: String,
    pub metadata: Option<ImageMetadataRecord>,
    pub auto_indexed: bool,
    pub embedding_id: String,
    pub embedding_dim: i32,
    pub duplicate_detected: bool,
    pub existing_key: String,
}

/// The next outside step.
pub enum UploadAction {
    EnsureBucket,
    Embed,
    FindDuplicates,
    /// Remove each of these images with everything stored for it.
    DeleteDuplicates(Vec<String>),
    GenerateKey,
    Decode,
    StoreOriginal { key: String },
    StoreThumbnail { size_name: String, max_size: u32, thumb_key: String },
    /// Read the current time.
    ReadClock,
    /// Save the state's metadata record.
    SaveMetadata,
    Index { key: String },
    Reply(UploadReply),
    /// Fail the request with this message.
    Fail(String),
}

/// The state at the start of an upload.
pub fn upload_start() -> (r: UploadState)
    ensures
        r.phase == UploadPhase::Start,
        !r.has_embedding,
        r.key@.len() == 0,
        r.etag@.len() == 0,
        r.thumbs_done == 0,
        r.embedding_id@.len() == 0,
        r.embedding_dim == 0,
        r.width == 0,
        r.height == 0,
        r.format@.len() == 0,
        r.record is None,
{
    UploadState {
        phase: UploadPhase::Start,
        has_embedding: false,
        key: String::new(),
        etag: String::new(),
        thumbs_done: 0,
        embedding_id: String::new(),
        embedding_dim: 0,
        width: 0,
        height: 0,
        format: String::new(),
        record: None,
    }
}

/// The name and longest side of the `i`th thumbnail.
pub open spec fn thumb_size(i: int) -> (Seq<char>, u32) {
    if i == 0 {
        ("thumbnail"@, 128u32)
    } else if i == 1 {
        ("small"@, 256u32)
    } else {
        ("medium"@, 512u32)
    }
}

/// The thumbnail map of an image: each size's name to its thumbnail key.
pub open spec fn thumbnail_map_spec(key: Seq<char>) -> Map<Seq<char>, Seq<char>> {
    map![
        "thumbnail"@ => spec_thumbnail_key(key, "thumbnail"@),
        "small"@ => spec_thumbnail_key(key, "small"@),
        "medium"@ => spec_thumbnail_key(key, "medium"@),
    ]
}

/// `m` is the metadata record of a newly stored image, not yet indexed.
pub open spec fn new_record(
    m: ImageMetadataRecord,
    key: Seq<char>,
    content_type: Seq<char>,
    content_length: i64,
    width: i32,
    height: i32,
    etag: Seq<char>,
    now: Seq<char>,
    user_metadata: Map<Seq<char>, Seq<char>>,
    format: Seq<char>,
    name: Seq<char>,
) -> bool {
    &&& m.key@ == key
    &&& m.content_type@ == content_type
    &&& m.content_length == content_length
    &&& m.width == width
    &&& m.height == height
    &&& m.etag@ == etag
    &&& m.last_modified@ == now
    &&& m.thumbnails.wf()
    &&& m.thumbnails@ == thumbnail_map_spec(key)
    &&& m.user_metadata@ == user_metadata
    &&& m.format@ == format
    &&& m.name@ == name
    &&& !m.is_indexed
    &&& m.index_model@.len() == 0
}

/// `t` is record `s` marked indexed by `model`, the rest unchanged.
pub open spec fn indexed_record(s: Option<ImageMetadataRecord>, t: Option<ImageMetadataRecord>, model: Seq<char>) -> bool {
    match s {
        None => t is None,
        Some(m) => t matches Some(n) && {
            &&& n.key == m.key
            &&& n.content_type == m.content_type
            &&& n.content_length == m.content_length
            &&& n.width == m.width
            &&& n.height == m.height
            &&& n.etag == m.etag
            &&& n.last_modified == m.last_modified
            &&& n.thumbnails == m.thumbnails
            &&& n.user_metadata == m.user_metadata
            &&& n.format == m.format
            &&& n.name == m.name
            &&& n.is_indexed
            &&& n.index_model@ == model
        },
    }
}

/// `a` is this reply.
pub open spec fn reply_is(
    a: UploadAction,
    success: bool,
    message: Seq<char>,
    key: Seq<char>,
    etag: Seq<char>,
    metadata: Option<ImageMetadataRecord>,
    auto_indexed: bool,
    embedding_id: Seq<char>,
    embedding_dim: i32,
    duplicate_detected: bool,
    existing_key: Seq<char>,
) -> bool {
    a matches UploadAction::Reply(r) && {
        &&& r.success == success
        &&& r.message@ == message
        &&& r.key@ == key
        &&& r.etag@ == etag
        &&& r.metadata == metadata
        &&& r.auto_indexed == auto_indexed
        &&& r.embedding_id@ == embedding_id
        &&& r.embedding_dim == embedding_dim
        &&& r.duplicate_detected == duplicate_detected
        &&& r.existing_key@ == existing_key
    }
}

/// `t` is `s` with these key, ETag, thumbnail count, vector and image
/// fields, in phase `p`; the record is unchanged.
pub open spec fn state_is(
    t: UploadState,
    p: UploadPhase,
    has_embedding: bool,
    key: Seq<char>,
    etag: Seq<char>,
    thumbs_done: int,
    embedding_id: Seq<char>,
    embedding_dim: i32,
    width: i32,
    height: i32,
    format: Seq<char>,
) -> bool {
    &&& t.phase == p
    &&& t.has_embedding == has_embedding
    &&& t.key@ == key
    &&& t.etag@ == etag
    &&& t.thumbs_done == thumbs_done
    &&& t.embedding_id@ == embedding_id
    &&& t.embedding_dim == embedding_dim
    &&& t.width == width
    &&& t.height == height
    &&& t.format@ == format
}

/// `t` is `s` in phase `p`, the rest unchanged.
pub open spec fn moved(s: UploadState, t: UploadState, p: UploadPhase) -> bool {
    &&& state_is(t, p, s.has_embedding, s.key@, s.etag@, s.thumbs_done as int, s.embedding_id@, s.embedding_dim, s.width, s.height, s.format@)
    &&& t.record == s.record
}

/// `a` stores the `i`th thumbnail of `key`.
pub open spec fn stores_thumbnail(a: UploadAction, key: Seq<char>, i: int) -> bool {
    a matches UploadAction::StoreThumbnail { size_name, max_size, thumb_key } && size_name@ == thumb_size(i).0
        && max_size == thumb_size(i).1 && thumb_key@ == spec_thumbnail_key(key, thumb_size(i).0)
}

/// With no duplicates to handle: use the requested key, or ask for a
/// fresh one when none was given. `emb` is whether an embedding was made.
pub open spec fn key_step(s: UploadState, f: UploadRequestFlags, emb: bool, t: UploadState, a: UploadAction) -> bool {
    &&& t.record == s.record
    &&& if f.requested_key@.len() == 0 {
        state_is(t, UploadPhase::KeyGen, emb, s.key@, s.etag@, s.thumbs_done as int, s.embedding_id@, s.embedding_dim, s.width, s.height, s.format@)
            && a is GenerateKey
    } else {
        state_is(t, UploadPhase::Decoding, emb, f.requested_key@, s.etag@, s.thumbs_done as int, s.embedding_id@, s.embedding_dim, s.width, s.height, s.format@)
            && a is Decode
    }
}

/// What duplicates lead to: none go on to the key; with some, `overwrite`
/// deletes them all and `new` keeps them, both then taking a fresh key;
/// `skip` answers with the first duplicate as if stored, and anything else
/// asks the client to confirm.
pub open spec fn duplicates_step(s: UploadState, f: UploadRequestFlags, d: Seq<(Seq<char>, i32)>, t: UploadState, a: UploadAction) -> bool {
    if d.len() == 0 {
        key_step(s, f, s.has_embedding, t, a)
    } else if f.duplicate_action@ == "overwrite"@ {
        moved(s, t, UploadPhase::Deleting) && (a matches UploadAction::DeleteDuplicates(keys)
            && keys@.map_values(|k: String| k@) == d.map_values(|p: (Seq<char>, i32)| p.0))
    } else if f.duplicate_action@ == "new"@ {
        moved(s, t, UploadPhase::KeyGen) && a is GenerateKey
    } else if f.duplicate_action@ == "skip"@ {
        moved(s, t, UploadPhase::Done) && reply_is(
            a, true, "Image already exists, skipped storage"@, d[0].0, Seq::empty(), None, true, d[0].0, d[0].1, true, d[0].0,
        )
    } else {
        moved(s, t, UploadPhase::Done) && reply_is(
            a, true, "Duplicate image detected, please confirm"@, Seq::empty(), Seq::empty(), None, false, Seq::empty(), 0, true, d[0].0,
        )
    }
}

/// The successful answer once the image is stored, with the record `m`.
pub open spec fn stored_reply(s: UploadState, m: Option<ImageMetadataRecord>, a: UploadAction, indexed: bool) -> bool {
    if indexed {
        reply_is(a, true, "OK"@, s.key@, s.etag@, m, true, s.embedding_id@, s.embedding_dim, false, Seq::empty())
    } else {
        reply_is(a, true, "OK"@, s.key@, s.etag@, m, false, Seq::empty(), 0, false, Seq::empty())
    }
}

/// `a` fails with `m`.
pub open spec fn fails_with(a: UploadAction, m: Seq<char>) -> bool {
    a matches UploadAction::Fail(x) && x@ == m
}

/// One step of an upload: the next state `t` and action `a` after event `e`
/// in state `s`. An event that does not belong to the phase fails the
/// upload.
pub open spec fn upload_step_spec(s: UploadState, f: UploadRequestFlags, e: UploadEvent, t: UploadState, a: UploadAction) -> bool {
    match (s.phase, e) {
        (UploadPhase::Start, UploadEvent::Begin) => moved(s, t, UploadPhase::Bucket) && a is EnsureBucket,
        (UploadPhase::Bucket, UploadEvent::BucketReady) => if f.auto_index {
            moved(s, t, UploadPhase::Embedding) && a is Embed
        } else {
            key_step(s, f, s.has_embedding, t, a)
        },
        (UploadPhase::Embedding, UploadEvent::Embedded { ok }) => if ok {
            state_is(t, UploadPhase::Duplicates, true, s.key@, s.etag@, s.thumbs_done as int, s.embedding_id@, s.embedding_dim, s.width, s.height, s.format@)
                && t.record == s.record && a is FindDuplicates
        } else {
            key_step(s, f, false, t, a)
        },
        (UploadPhase::Duplicates, UploadEvent::DuplicatesFound(d)) =>
            duplicates_step(s, f, d@.map_values(|p: (String, i32)| (p.0@, p.1)), t, a),
        (UploadPhase::Duplicates, UploadEvent::Failed(m)) =>
            moved(s, t, UploadPhase::Done) && fails_with(a, "图片去重检查失败: "@ + m@),
        (UploadPhase::Deleting, UploadEvent::DuplicatesDeleted) => moved(s, t, UploadPhase::KeyGen) && a is GenerateKey,
        (UploadPhase::KeyGen, UploadEvent::KeyGenerated(k)) =>
            state_is(t, UploadPhase::Decoding, s.has_embedding, k@, s.etag@, s.thumbs_done as int, s.embedding_id@, s.embedding_dim, s.width, s.height, s.format@)
                && t.record == s.record && a is Decode,
        (UploadPhase::Decoding, UploadEvent::Decoded { width, height, format }) =>
            state_is(t, UploadPhase::Original, s.has_embedding, s.key@, s.etag@, s.thumbs_done as int, s.embedding_id@, s.embedding_dim, width, height, format@)
                && t.record == s.record && (a matches UploadAction::StoreOriginal { key } && key@ == s.key@),
        (UploadPhase::Original, UploadEvent::OriginalStored { success, etag }) => if success {
            state_is(t, UploadPhase::Thumbnails, s.has_embedding, s.key@, etag@, 0, s.embedding_id@, s.embedding_dim, s.width, s.height, s.format@)
                && t.record == s.record && stores_thumbnail(a, s.key@, 0)
        } else {
            moved(s, t, UploadPhase::Done) && reply_is(
                a, false, "Failed to upload original image"@, s.key@, Seq::empty(), None, false, Seq::empty(), 0, false, Seq::empty(),
            )
        },
        (UploadPhase::Thumbnails, UploadEvent::ThumbnailStored) => if s.thumbs_done + 1 < 3 {
            state_is(t, UploadPhase::Thumbnails, s.has_embedding, s.key@, s.etag@, s.thumbs_done + 1, s.embedding_id@, s.embedding_dim, s.width, s.height, s.format@)
                && t.record == s.record && stores_thumbnail(a, s.key@, s.thumbs_done + 1)
        } else {
            moved(s, t, UploadPhase::Clock) && a is ReadClock
        },
        (UploadPhase::Clock, UploadEvent::Clock(now)) =>
            state_is(t, UploadPhase::Metadata, s.has_embedding, s.key@, s.etag@, s.thumbs_done as int, s.embedding_id@, s.embedding_dim, s.width, s.height, s.format@)
                && (t.record matches Some(m) && new_record(
                    m, s.key@, f.content_type@, f.content_length, s.width, s.height, s.etag@, now@, f.user_metadata@, s.format@, f.name@,
                ))
                && a is SaveMetadata,
        (UploadPhase::Metadata, UploadEvent::MetadataSaved) => if f.auto_index && s.has_embedding {
            moved(s, t, UploadPhase::Indexing) && (a matches UploadAction::Index { key } && key@ == s.key@)
        } else {
            state_is(t, UploadPhase::Done, s.has_embedding, s.key@, s.etag@, s.thumbs_done as int, s.embedding_id@, s.embedding_dim, s.width, s.height, s.format@)
                && t.record is None && stored_reply(s, s.record, a, false)
        },
        (UploadPhase::Indexing, UploadEvent::Indexed { id, dim }) =>
            state_is(t, UploadPhase::IndexedMetadata, s.has_embedding, s.key@, s.etag@, s.thumbs_done as int, id@, dim, s.width, s.height, s.format@)
                && indexed_record(s.record, t.record, if f.index_model@.len() == 0 { "jina-clip-v2"@ } else { f.index_model@ })
                && a is SaveMetadata,
        (UploadPhase::Indexing, UploadEvent::IndexFailed) | (UploadPhase::Indexing, UploadEvent::Failed(_)) =>
            state_is(t, UploadPhase::Done, s.has_embedding, s.key@, s.etag@, s.thumbs_done as int, s.embedding_id@, s.embedding_dim, s.width, s.height, s.format@)
                && t.record is None && stored_reply(s, s.record, a, false),
        (UploadPhase::IndexedMetadata, UploadEvent::MetadataSaved) | (UploadPhase::IndexedMetadata, UploadEvent::Failed(_)) =>
            state_is(t, UploadPhase::Done, s.has_embedding, s.key@, s.etag@, s.thumbs_done as int, s.embedding_id@, s.embedding_dim, s.width, s.height, s.format@)
                && t.record is None && stored_reply(s, s.record, a, true),
        (_, UploadEvent::Failed(m)) => moved(s, t, UploadPhase::Done) && fails_with(a, m@),
        _ => moved(s, t, UploadPhase::Done) && fails_with(a, "upload step out of order"@),
    }
}

/// `s` with its phase replaced.
fn with_phase(s: UploadState, p: UploadPhase) -> (r: UploadState)
    ensures
        moved(s, r, p),
{
    UploadState { phase: p, ..s }
}

/// `s` in phase `p` with its record taken out.
fn take_record(s: UploadState, p: UploadPhase) -> (r: (UploadState, Option<ImageMetadataRecord>))
    ensures
        state_is(r.0, p, s.has_embedding, s.key@, s.etag@, s.thumbs_done as int, s.embedding_id@, s.embedding_dim, s.width, s.height, s.format@),
        r.0.record is None,
        r.1 == s.record,
{
    let UploadState { phase: _, has_embedding, key, etag, thumbs_done, embedding_id, embedding_dim, width, height, format, record } = s;
    (UploadState { phase: p, has_embedding, key, etag, thumbs_done, embedding_id, embedding_dim, width, height, format, record: None }, record)
}

fn reply(
    success: bool,
    message: &str,
    key: &str,
    etag: &str,
    metadata: Option<ImageMetadataRecord>,
    auto_indexed: bool,
    embedding_id: &str,
    embedding_dim: i32,
    duplicate_detected: bool,
    existing_key: &str,
) -> (a: UploadAction)
    ensures
        reply_is(a, success, message@, key@, etag@, metadata, auto_indexed, embedding_id@, embedding_dim, duplicate_detected, existing_key@),
{
    UploadAction::Reply(UploadReply {
        success,
        message: string_from_chars(&str_chars(message)),
        key: string_from_chars(&str_chars(key)),
        etag: string_from_chars(&str_chars(etag)),
        metadata,
        auto_indexed,
        embedding_id: string_from_chars(&str_chars(embedding_id)),
        embedding_dim,
        duplicate_detected,
        existing_key: string_from_chars(&str_chars(existing_key)),
    })
}

fn fail(message: &str) -> (a: UploadAction)
    ensures
        fails_with(a, message@),
{
    UploadAction::Fail(string_from_chars(&str_chars(message)))
}

fn thumbnail_action(key: &str, i: usize) -> (a: UploadAction)
    requires
        i < 3,
    ensures
        stores_thumbnail(a, key@, i as int),
{
    let sizes = thumbnail_sizes();
    let name = string_from_chars(&str_chars(sizes[i].0.as_str()));
    let thumb_key = thumbnail_key(key, sizes[i].0.as_str());
    UploadAction::StoreThumbnail { size_name: name, max_size: sizes[i].1, thumb_key }
}

fn key_action(s: UploadState, f: &UploadRequestFlags, emb: bool) -> (r: (UploadState, UploadAction))
    ensures
        key_step(s, *f, emb, r.0, r.1),
{
    if f.requested_key.as_str().is_empty() {
        (UploadState { phase: UploadPhase::KeyGen, has_embedding: emb, ..s }, UploadAction::GenerateKey)
    } else {
        let key = string_from_chars(&str_chars(f.requested_key.as_str()));
        (UploadState { phase: UploadPhase::Decoding, has_embedding: emb, key, ..s }, UploadAction::Decode)
    }
}

fn duplicates_action(s: UploadState, f: &UploadRequestFlags, d: &Vec<(String, i32)>) -> (r: (UploadState, UploadAction))
    ensures
        duplicates_step(s, *f, d@.map_values(|p: (String, i32)| (p.0@, p.1)), r.0, r.1),
{
    let ghost dv = d@.map_values(|p: (String, i32)| (p.0@, p.1));
    proof {
        reveal_strlit("");
        assert(""@ =~= Seq::<char>::empty());
    }
    if d.len() == 0 {
        let emb = s.has_embedding;
        return key_action(s, f, emb);
    }
    let action = str_chars(f.duplicate_action.as_str());
    if crate::text::chars_eq(&action, &str_chars("overwrite")) {
        let mut keys: Vec<String> = Vec::new();
        let mut i: usize = 0;
        while i < d.len()
            invariant
                i <= d.len(),
                dv == d@.map_values(|p: (String, i32)| (p.0@, p.1)),
                keys@.map_values(|k: String| k@) == dv.subrange(0, i as int).map_values(|p: (Seq<char>, i32)| p.0),
            decreases d.len() - i,
        {
            let ghost before = keys@.map_values(|k: String| k@);
            let k = string_from_chars(&str_chars(d[i].0.as_str()));
            keys.push(k);
            assert(keys@.map_values(|k: String| k@) =~= before.push(dv[i as int].0));
            assert(dv.subrange(0, i + 1).map_values(|p: (Seq<char>, i32)| p.0)
                =~= dv.subrange(0, i as int).map_values(|p: (Seq<char>, i32)| p.0).push(dv[i as int].0));
            i = i + 1;
        }
        assert(dv.subrange(0, i as int) =~= dv);
        return (with_phase(s, UploadPhase::Deleting), UploadAction::DeleteDuplicates(keys));
    }
    if crate::text::chars_eq(&action, &str_chars("new")) {
        return (with_phase(s, UploadPhase::KeyGen), UploadAction::GenerateKey);
    }
    let first = d[0].0.as_str();
    assert(dv[0].0 == first@);
    if crate::text::chars_eq(&action, &str_chars("skip")) {
        let a = reply(true, "Image already exists, skipped storage", first, "", None, true, first, d[0].1, true, first);
        return (with_phase(s, UploadPhase::Done), a);
    }
    let a = reply(true, "Duplicate image detected, please confirm", "", "", None, false, "", 0, true, first);
    (with_phase(s, UploadPhase::Done), a)
}

/// Finish with the successful answer, the record moving into it.
fn finish_stored(s: UploadState, indexed: bool) -> (r: (UploadState, UploadAction))
    ensures
        state_is(r.0, UploadPhase::Done, s.has_embedding, s.key@, s.etag@, s.thumbs_done as int, s.embedding_id@, s.embedding_dim, s.width, s.height, s.format@),
        r.0.record is None,
        stored_reply(s, s.record, r.1, indexed),
{
    proof {
        reveal_strlit("");
        assert(""@ =~= Seq::<char>::empty());
    }
    let (t, record) = take_record(s, UploadPhase::Done);
    let a = if indexed {
        reply(true, "OK", t.key.as_str(), t.etag.as_str(), record, true, t.embedding_id.as_str(), t.embedding_dim, false, "")
    } else {
        reply(true, "OK", t.key.as_str(), t.etag.as_str(), record, false, "", 0, false, "")
    };
    (t, a)
}

/// The next state and action of an upload after an event.
pub fn upload_step(s: UploadState, f: &UploadRequestFlags, e: UploadEvent) -> (r: (UploadState, UploadAction))
    ensures
        upload_step_spec(s, *f, e, r.0, r.1),
{
    proof {
        reveal_strlit("");
        assert(""@ =~= Seq::<char>::empty());
    }
    match (s.phase, e) {
        (UploadPhase::Start, UploadEvent::Begin) => (with_phase(s, UploadPhase::Bucket), UploadAction::EnsureBucket),
        (UploadPhase::Bucket, UploadEvent::BucketReady) => {
            if f.auto_index {
                (with_phase(s, UploadPhase::Embedding), UploadAction::Embed)
            } else {
                let emb = s.has_embedding;
                key_action(s, f, emb)
            }
        },
        (UploadPhase::Embedding, UploadEvent::Embedded { ok }) => {
            if ok {
                (UploadState { phase: UploadPhase::Duplicates, has_embedding: true, ..s }, UploadAction::FindDuplicates)
            } else {
                key_action(s, f, false)
            }
        },
        (UploadPhase::Duplicates, UploadEvent::DuplicatesFound(d)) => duplicates_action(s, f, &d),
        (UploadPhase::Duplicates, UploadEvent::Failed(m)) => {
            let x = concat(&str_chars("图片去重检查失败: "), &str_chars(m.as_str()));
            (with_phase(s, UploadPhase::Done), UploadAction::Fail(string_from_chars(&x)))
        },
        (UploadPhase::Deleting, UploadEvent::DuplicatesDeleted) => (with_phase(s, UploadPhase::KeyGen), UploadAction::GenerateKey),
        (UploadPhase::KeyGen, UploadEvent::KeyGenerated(k)) => {
            (UploadState { phase: UploadPhase::Decoding, key: k, ..s }, UploadAction::Decode)
        },
        (UploadPhase::Decoding, UploadEvent::Decoded { width, height, format }) => {
            let key = s.key.clone();
            (UploadState { phase: UploadPhase::Original, width, height, format, ..s }, UploadAction::StoreOriginal { key })
        },
        (UploadPhase::Original, UploadEvent::OriginalStored { success, etag }) => {
            if success {
                let a = thumbnail_action(s.key.as_str(), 0);
                (UploadState { phase: UploadPhase::Thumbnails, etag, thumbs_done: 0, ..s }, a)
            } else {
                let a = reply(false, "Failed to upload original image", s.key.as_str(), "", None, false, "", 0, false, "");
                (with_phase(s, UploadPhase::Done), a)
            }
        },
        (UploadPhase::Thumbnails, UploadEvent::ThumbnailStored) => {
            if s.thumbs_done < 2 {
                let n = s.thumbs_done + 1;
                let a = thumbnail_action(s.key.as_str(), n);
                (UploadState { phase: UploadPhase::Thumbnails, thumbs_done: n, ..s }, a)
            } else {
                (with_phase(s, UploadPhase::Clock), UploadAction::ReadClock)
            }
        },
        (UploadPhase::Clock, UploadEvent::Clock(now)) => {
            let m = upload_metadata_record(
                s.key.as_str(),
                f.content_type.as_str(),
                f.content_length,
                s.width,
                s.height,
                s.etag.as_str(),
                now.as_str(),
                upload_thumbnail_map(s.key.as_str()),
                f.user_metadata.duplicate(),
                s.format.as_str(),
                f.name.as_str(),
            );
            (UploadState { phase: UploadPhase::Metadata, record: Some(m), ..s }, UploadAction::SaveMetadata)
        },
        (UploadPhase::Metadata, UploadEvent::MetadataSaved) => {
            if f.auto_index && s.has_embedding {
                let key = s.key.clone();
                (with_phase(s, UploadPhase::Indexing), UploadAction::Index { key })
            } else {
                finish_stored(s, false)
            }
        },
        (UploadPhase::Indexing, UploadEvent::Indexed { id, dim }) => {
            let model = index_model_or_default(f.index_model.as_str());
            let record = match s.record {
                Some(m) => Some(ImageMetadataRecord { is_indexed: true, index_model: model, ..m }),
                None => None,
            };
            (
                UploadState { phase: UploadPhase::IndexedMetadata, embedding_id: id, embedding_dim: dim, record, ..s },
                UploadAction::SaveMetadata,
            )
        },
        (UploadPhase::Indexing, UploadEvent::IndexFailed) | (UploadPhase::Indexing, UploadEvent::Failed(_)) => {
            finish_stored(s, false)
        },
        (UploadPhase::IndexedMetadata, UploadEvent::MetadataSaved) | (UploadPhase::IndexedMetadata, UploadEvent::Failed(_)) => {
            finish_stored(s, true)
        },
        (_, UploadEvent::Failed(m)) => (with_phase(s, UploadPhase::Done), UploadAction::Fail(m)),
        _ => (with_phase(s, UploadPhase::Done), fail("upload step out of order")),
    }
}

/// The thumbnail map of an uploaded image: each size's name to its
/// thumbnail key.
pub fn upload_thumbnail_map(image_key: &str) -> (r: StringMap)
    ensures
        r.wf(),
        r@ == thumbnail_map_spec(image_key@),
{
    let mut m = StringMap::new();
    m.insert("thumbnail", thumbnail_key(image_key, "thumbnail").as_str());
    m.insert("small", thumbnail_key(image_key, "small").as_str());
    m.insert("medium", thumbnail_key(image_key, "medium").as_str());
    m
}

/// The metadata record of a newly stored image, not yet indexed.
pub fn upload_metadata_record(
    key: &str,
    content_type: &str,
    content_length: i64,
    width: i32,
    height: i32,
    etag: &str,
    now: &str,
    thumbnails: StringMap,
    user_metadata: StringMap,
    format: &str,
    name: &str,
) -> (r: ImageMetadataRecord)
    ensures
        r.key@ == key@,
        r.content_type@ == content_type@,
        r.content_length == content_length,
        r.width == width,
        r.height == height,
        r.etag@ == etag@,
        r.last_modified@ == now@,
        r.thumbnails == thumbnails,
        r.user_metadata == user_metadata,
        r.format@ == format@,
        r.name@ == name@,
        !r.is_indexed,
        r.index_model@.len() == 0,
{
    ImageMetadataRecord {
        key: string_from_chars(&str_chars(key)),
        content_type: string_from_chars(&str_chars(content_type)),
        content_length,
        width,
        height,
        etag: string_from_chars(&str_chars(etag)),
        last_modified: string_from_chars(&str_chars(now)),
        thumbnails,
        user_metadata,
        format: string_from_chars(&str_chars(format)),
        name: string_from_chars(&str_chars(name)),
        is_indexed: false,
        index_model: String::new(),
    }
}

} // verus!
