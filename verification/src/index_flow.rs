//! The steps of indexing one stored image as a state machine: read its
//! metadata and data, embed it, add the vector, and mark the record
//! indexed. The caller performs each action and reports back.

use vstd::prelude::*;
use crate::text;
use crate::text::{concat, str_chars, string_from_chars};
use crate::image::{image_index_or_default, index_model_or_default, insert_error_means_present, ImageMetadataRecord};

verus! {

/// Where an indexing run stands.
#[derive(PartialEq, Eq, Structural, Clone, Copy)]
pub enum IndexPhase {
    Start,
    /// Waiting for the image's metadata record.
    Metadata,
    /// Waiting for the image's data.
    Object,
    /// Waiting for the embedding.
    Embedding,
    /// Waiting for the vector to be added.
    Inserting,
    /// Waiting for the current time.
    Clock,
    /// Waiting for the record to be saved.
    Saving,
    Done,
}

/// The state of an indexing run.
pub struct IndexState {
    pub phase: IndexPhase,
    /// The image's metadata record, once read.
    pub record: Option<ImageMetadataRecord>,
    /// The vector id and dimension reported back.
    pub embedding_id: String,
    pub embedding_dim: i32,
    /// The vector was already in the index.
    pub already_indexed: bool,
}

/// What the request names.
pub struct IndexRequest {
    pub key: String,
    pub index_name: String,
    pub model_name: String,
}

/// What the last outside step reported.
pub enum IndexEvent {
    Begin,
    MetadataRead(Option<ImageMetadataRecord>),
    ObjectRead { success: bool, message: String },
    Embedded,
    Inserted { id: String, dim: i32 },
    InsertFailed(String),
    Clock(String),
    MetadataSaved,
    /// The step failed with this message.
    Failed(String),
}

/// The answer to the client.
pub struct IndexReply {
    pub success: bool,
    pub message: String,
    pub embedding_id: String,
    pub embedding_dim: i32,
    pub metadata: Option<ImageMetadataRecord>,
}

/// The next outside step.
pub enum IndexAction {
    ReadMetadata,
    ReadObject,
    /// Embed the image's data with this model for this index.
    Embed { model: String, index: String },
    /// Add the embedding to this index under the image key.
    Insert { index: String },
    ReadClock,
    /// Save the state's record.
    SaveMetadata,
    Reply(IndexReply),
    Fail(String),
}

/// The state at the start of a run.
pub fn index_start() -> (r: IndexState)
    ensures
        r.phase == IndexPhase::Start,
        r.record is None,
        r.embedding_id@.len() == 0,
        r.embedding_dim == 0,
        !r.already_indexed,
{
    IndexState { phase: IndexPhase::Start, record: None, embedding_id: String::new(), embedding_dim: 0, already_indexed: false }
}

/// The model a request uses: the named one, or `jina-clip-v2`.
pub open spec fn model_of(q: IndexRequest) -> Seq<char> {
    if q.model_name@.len() == 0 { "jina-clip-v2"@ } else { q.model_name@ }
}

/// The index a request uses: the named one, or `image`.
pub open spec fn index_of(q: IndexRequest) -> Seq<char> {
    if q.index_name@.len() == 0 { "image"@ } else { q.index_name@ }
}

/// `t` is `s` in phase `p`, the rest unchanged.
pub open spec fn moved(s: IndexState, t: IndexState, p: IndexPhase) -> bool {
    &&& t.phase == p
    &&& t.record == s.record
    &&& t.embedding_id@ == s.embedding_id@
    &&& t.embedding_dim == s.embedding_dim
    &&& t.already_indexed == s.already_indexed
}

/// `a` is this reply.
pub open spec fn reply_is(
    a: IndexAction,
    success: bool,
    message: Seq<char>,
    embedding_id: Seq<char>,
    embedding_dim: i32,
    metadata: Option<ImageMetadataRecord>,
) -> bool {
    a matches IndexAction::Reply(r) && {
        &&& r.success == success
        &&& r.message@ == message
        &&& r.embedding_id@ == embedding_id
        &&& r.embedding_dim == embedding_dim
        &&& r.metadata == metadata
    }
}

/// `a` fails with `m`.
pub open spec fn fails_with(a: IndexAction, m: Seq<char>) -> bool {
    a matches IndexAction::Fail(x) && x@ == m
}

/// `t` is record `s` marked indexed by `model` at `now`, the rest unchanged.
pub open spec fn marked_record(s: Option<ImageMetadataRecord>, t: Option<ImageMetadataRecord>, model: Seq<char>, now: Seq<char>) -> bool {
    match s {
        None => t is None,
        Some(m) => t matches Some(n) && {
            &&& n.key == m.key
            &&& n.content_type == m.content_type
            &&& n.content_length == m.content_length
            &&& n.width == m.width
            &&& n.height == m.height
            &&& n.etag == m.etag
            &&& n.last_modified@ == now
            &&& n.thumbnails == m.thumbnails
            &&& n.user_metadata == m.user_metadata
            &&& n.format == m.format
            &&& n.name == m.name
            &&& n.is_indexed
            &&& n.index_model@ == model
        },
    }
}

/// One step of an indexing run: the next state `t` and action `a` after
/// event `e` in state `s`. A missing image or unreadable data is answered
/// as a failure; a vector already in the index still marks the record; an
/// event that does not belong to the phase fails the run.
pub open spec fn index_step_spec(s: IndexState, q: IndexRequest, e: IndexEvent, t: IndexState, a: IndexAction) -> bool {
    match (s.phase, e) {
        (IndexPhase::Start, IndexEvent::Begin) => moved(s, t, IndexPhase::Metadata) && a is ReadMetadata,
        (IndexPhase::Metadata, IndexEvent::MetadataRead(m)) => match m {
            None => moved(s, t, IndexPhase::Done) && reply_is(a, false, "图片不存在"@, Seq::empty(), 0, None),
            Some(r) => {
                &&& t.phase == IndexPhase::Object
                &&& t.record == Some(r)
                &&& t.embedding_id@ == s.embedding_id@
                &&& t.embedding_dim == s.embedding_dim
                &&& t.already_indexed == s.already_indexed
                &&& a is ReadObject
            },
        },
        (IndexPhase::Object, IndexEvent::ObjectRead { success, message }) => if success {
            moved(s, t, IndexPhase::Embedding) && (a matches IndexAction::Embed { model, index }
                && model@ == model_of(q) && index@ == index_of(q))
        } else {
            moved(s, t, IndexPhase::Done) && reply_is(a, false, "读取图片失败: "@ + message@, Seq::empty(), 0, None)
        },
        (IndexPhase::Object, IndexEvent::Failed(m)) => moved(s, t, IndexPhase::Done) && fails_with(a, "读取图片失败: "@ + m@),
        (IndexPhase::Embedding, IndexEvent::Embedded) =>
            moved(s, t, IndexPhase::Inserting) && (a matches IndexAction::Insert { index } && index@ == index_of(q)),
        (IndexPhase::Embedding, IndexEvent::Failed(m)) => moved(s, t, IndexPhase::Done) && fails_with(a, "图片向量化失败: "@ + m@),
        (IndexPhase::Inserting, IndexEvent::Inserted { id, dim }) => {
            &&& t.phase == IndexPhase::Clock
            &&& t.record == s.record
            &&& t.embedding_id@ == id@
            &&& t.embedding_dim == dim
            &&& !t.already_indexed
            &&& a is ReadClock
        },
        (IndexPhase::Inserting, IndexEvent::InsertFailed(m)) => if text::find_from(m@, "already exists"@, 0) is Some {
            &&& t.phase == IndexPhase::Clock
            &&& t.record == s.record
            &&& t.embedding_id@ == q.key@
            &&& t.embedding_dim == 0
            &&& t.already_indexed
            &&& a is ReadClock
        } else {
            moved(s, t, IndexPhase::Done) && fails_with(a, "向量索引失败: "@ + m@)
        },
        (IndexPhase::Clock, IndexEvent::Clock(now)) => {
            &&& t.phase == IndexPhase::Saving
            &&& marked_record(s.record, t.record, model_of(q), now@)
            &&& t.embedding_id@ == s.embedding_id@
            &&& t.embedding_dim == s.embedding_dim
            &&& t.already_indexed == s.already_indexed
            &&& a is SaveMetadata
        },
        (IndexPhase::Saving, IndexEvent::MetadataSaved) | (IndexPhase::Saving, IndexEvent::Failed(_)) => {
            &&& t.phase == IndexPhase::Done
            &&& t.record is None
            &&& t.embedding_id@ == s.embedding_id@
            &&& t.embedding_dim == s.embedding_dim
            &&& t.already_indexed == s.already_indexed
            &&& reply_is(
                a,
                true,
                if s.already_indexed { "图片已存在向量索引，已标记为已索引"@ } else { "OK"@ },
                s.embedding_id@,
                s.embedding_dim,
                s.record,
            )
        },
        (_, IndexEvent::Failed(m)) => moved(s, t, IndexPhase::Done) && fails_with(a, m@),
        _ => moved(s, t, IndexPhase::Done) && fails_with(a, "index step out of order"@),
    }
}

fn with_phase(s: IndexState, p: IndexPhase) -> (r: IndexState)
    ensures
        moved(s, r, p),
{
    IndexState { phase: p, ..s }
}

fn reply(success: bool, message: &str, embedding_id: &str, embedding_dim: i32, metadata: Option<ImageMetadataRecord>) -> (a: IndexAction)
    ensures
        reply_is(a, success, message@, embedding_id@, embedding_dim, metadata),
{
    IndexAction::Reply(IndexReply {
        success,
        message: string_from_chars(&str_chars(message)),
        embedding_id: string_from_chars(&str_chars(embedding_id)),
        embedding_dim,
        metadata,
    })
}

fn prefixed(head: &str, detail: &str) -> (r: String)
    ensures
        r@ == head@ + detail@,
{
    string_from_chars(&concat(&str_chars(head), &str_chars(detail)))
}

/// The next state and action of an indexing run after an event.
pub fn index_step(s: IndexState, q: &IndexRequest, e: IndexEvent) -> (r: (IndexState, IndexAction))
    ensures
        index_step_spec(s, *q, e, r.0, r.1),
{
    proof {
        reveal_strlit("");
        assert(""@ =~= Seq::<char>::empty());
    }
    match (s.phase, e) {
        (IndexPhase::Start, IndexEvent::Begin) => (with_phase(s, IndexPhase::Metadata), IndexAction::ReadMetadata),
        (IndexPhase::Metadata, IndexEvent::MetadataRead(m)) => match m {
            None => {
                let a = reply(false, "图片不存在", "", 0, None);
                (with_phase(s, IndexPhase::Done), a)
            },
            Some(r) => (IndexState { phase: IndexPhase::Object, record: Some(r), ..s }, IndexAction::ReadObject),
        },
        (IndexPhase::Object, IndexEvent::ObjectRead { success, message }) => {
            if success {
                let model = index_model_or_default(q.model_name.as_str());
                let index = image_index_or_default(q.index_name.as_str());
                (with_phase(s, IndexPhase::Embedding), IndexAction::Embed { model, index })
            } else {
                let m = prefixed("读取图片失败: ", message.as_str());
                let a = reply(false, m.as_str(), "", 0, None);
                (with_phase(s, IndexPhase::Done), a)
            }
        },
        (IndexPhase::Object, IndexEvent::Failed(m)) => {
            let x = prefixed("读取图片失败: ", m.as_str());
            (with_phase(s, IndexPhase::Done), IndexAction::Fail(x))
        },
        (IndexPhase::Embedding, IndexEvent::Embedded) => {
            let index = image_index_or_default(q.index_name.as_str());
            (with_phase(s, IndexPhase::Inserting), IndexAction::Insert { index })
        },
        (IndexPhase::Embedding, IndexEvent::Failed(m)) => {
            let x = prefixed("图片向量化失败: ", m.as_str());
            (with_phase(s, IndexPhase::Done), IndexAction::Fail(x))
        },
        (IndexPhase::Inserting, IndexEvent::Inserted { id, dim }) => {
            (
                IndexState { phase: IndexPhase::Clock, embedding_id: id, embedding_dim: dim, already_indexed: false, ..s },
                IndexAction::ReadClock,
            )
        },
        (IndexPhase::Inserting, IndexEvent::InsertFailed(m)) => {
            if insert_error_means_present(m.as_str()) {
                let id = string_from_chars(&str_chars(q.key.as_str()));
                (
                    IndexState { phase: IndexPhase::Clock, embedding_id: id, embedding_dim: 0, already_indexed: true, ..s },
                    IndexAction::ReadClock,
                )
            } else {
                let x = prefixed("向量索引失败: ", m.as_str());
                (with_phase(s, IndexPhase::Done), IndexAction::Fail(x))
            }
        },
        (IndexPhase::Clock, IndexEvent::Clock(now)) => {
            let model = index_model_or_default(q.model_name.as_str());
            let record = match s.record {
                Some(m) => Some(ImageMetadataRecord { is_indexed: true, index_model: model, last_modified: now, ..m }),
                None => None,
            };
            (IndexState { phase: IndexPhase::Saving, record, ..s }, IndexAction::SaveMetadata)
        },
        (IndexPhase::Saving, IndexEvent::MetadataSaved) | (IndexPhase::Saving, IndexEvent::Failed(_)) => {
            let IndexState { phase: _, record, embedding_id, embedding_dim, already_indexed } = s;
            let a = if already_indexed {
                reply(true, "图片已存在向量索引，已标记为已索引", embedding_id.as_str(), embedding_dim, record)
            } else {
                reply(true, "OK", embedding_id.as_str(), embedding_dim, record)
            };
            (IndexState { phase: IndexPhase::Done, record: None, embedding_id, embedding_dim, already_indexed }, a)
        },
        (_, IndexEvent::Failed(m)) => (with_phase(s, IndexPhase::Done), IndexAction::Fail(m)),
        _ => {
            let a = IndexAction::Fail(string_from_chars(&str_chars("index step out of order")));
            (with_phase(s, IndexPhase::Done), a)
        },
    }
}

} // verus!
