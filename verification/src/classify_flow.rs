//! The steps of classifying a bucket's images as a state machine: list the
//! image keys page by page, read the vector index, have the vectors
//! clustered, group the keys by cluster, and optionally write the groups to
//! the full-text index. The caller performs each action (the clustering
//! itself is floating-point work) and reports back.

use vstd::prelude::*;
use crate::text;
use crate::text::{concat, str_chars, string_from_chars};
use crate::image::{
    category_of, classification_calls, classification_doc_spec, classification_fields_spec, classify_params,
    classify_summary, continue_key_listing, doc_pair_view, field_desc_view, group_by_label, label_members,
    match_samples, min_samples, no_sink_message, spec_samples, too_few_samples_message, ClassGroup, ClassifyParams,
    SinkCall,
};

verus! {

/// Where a classification stands.
#[derive(PartialEq, Eq, Structural, Clone, Copy)]
pub enum ClassifyPhase {
    Start,
    /// Waiting for a page of image keys.
    Listing,
    /// Waiting for the vector index's entries.
    Embeddings,
    /// Waiting for the cluster labels.
    Clustering,
    /// Waiting for the groups to be written to the full-text index.
    Writing,
    Done,
}

/// What the request asks for, and which services are there.
pub struct ClassifyRequest {
    pub bucket: String,
    pub index_name: String,
    pub classify_index_name: String,
    pub min_cluster_size: i32,
    pub write_to_index: bool,
    pub has_embedding_service: bool,
    pub has_index_sink: bool,
}

/// The state of a classification.
pub struct ClassifyState {
    pub phase: ClassifyPhase,
    /// The request with its defaults filled in.
    pub params: ClassifyParams,
    /// The image keys listed so far.
    pub keys: Vec<String>,
    /// The images with a vector, with the index entry holding it.
    pub samples: Vec<(String, usize)>,
    /// The images with their cluster labels (-1 is noise).
    pub labeled: Vec<(String, i32)>,
    /// The groups, largest first.
    pub groups: Vec<ClassGroup>,
    pub cluster_count: usize,
    pub noise_count: usize,
}

/// What the last outside step reported.
pub enum ClassifyEvent {
    Begin,
    /// A page of image keys.
    Page { success: bool, message: String, keys: Vec<String>, is_truncated: bool, next_marker: String },
    /// The vector index's entries: each id and whether it holds a vector.
    Entries { success: bool, message: String, entries: Vec<(u64, bool)> },
    /// One label per sample, and the clustering's counts.
    Clustered { labels: Vec<i32>, cluster_count: usize, noise_count: usize },
    /// The full-text index calls were all made.
    Written,
    /// The step failed with this message.
    Failed(String),
}

/// The answer to the client.
pub struct ClassifyReply {
    pub success: bool,
    pub message: String,
    pub groups: Vec<ClassGroup>,
    pub total: i32,
    pub noise_count: i32,
    pub classify_index_name: String,
}

/// The next outside step.
pub enum ClassifyAction {
    /// List up to 100 image keys of the bucket after the marker, ascending.
    ListPage { bucket: String, marker: String },
    /// Read every entry of this vector index.
    ReadEntries { index: String },
    /// Cluster the vectors of these entries, in this order.
    Cluster { entries: Vec<usize>, min_cluster_size: usize, min_samples: usize },
    /// Make these calls on the full-text index, in order.
    Write(Vec<SinkCall>),
    Reply(ClassifyReply),
    Fail(String),
}

/// The state at the start of classifying for a request.
pub fn classify_start(q: &ClassifyRequest) -> (r: ClassifyState)
    ensures
        r.phase == ClassifyPhase::Start,
        params_of(*q, r.params),
        r.keys@.len() == 0,
        r.samples@.len() == 0,
        r.labeled@.len() == 0,
        r.groups@.len() == 0,
        r.cluster_count == 0,
        r.noise_count == 0,
{
    ClassifyState {
        phase: ClassifyPhase::Start,
        params: classify_params(q.bucket.as_str(), q.index_name.as_str(), q.classify_index_name.as_str(), q.min_cluster_size),
        keys: Vec::new(),
        samples: Vec::new(),
        labeled: Vec::new(),
        groups: Vec::new(),
        cluster_count: 0,
        noise_count: 0,
    }
}

/// The parameters a request's defaults give.
pub open spec fn params_of(q: ClassifyRequest, p: ClassifyParams) -> bool {
    &&& p.bucket@ == (if q.bucket@.len() == 0 { "images"@ } else { q.bucket@ })
    &&& p.vector_index@ == (if q.index_name@.len() == 0 { "image"@ } else { q.index_name@ })
    &&& p.classify_index@ == (if q.classify_index_name@.len() == 0 { "image_classification"@ } else { q.classify_index_name@ })
    &&& p.min_cluster_size == (if q.min_cluster_size > 0 { q.min_cluster_size as usize } else { 3 })
}

/// Keys as characters.
pub open spec fn keys_view(v: Seq<String>) -> Seq<Seq<char>> {
    v.map_values(|k: String| k@)
}

/// Labelled samples as characters.
pub open spec fn labeled_view(v: Seq<(String, i32)>) -> Seq<(Seq<char>, i32)> {
    v.map_values(|p: (String, i32)| (p.0@, p.1))
}

/// The groups of labelled samples: one per label other than noise, each
/// with its members in sample order, numbered by position, largest first.
pub open spec fn grouping_of(sv: Seq<(Seq<char>, i32)>, r: Seq<ClassGroup>) -> bool {
    &&& forall|g: int| 0 <= g < r.len() ==> {
        &&& (#[trigger] r[g]).label != -1
        &&& keys_view(r[g].keys@) == label_members(sv, r[g].label)
        &&& r[g].category@ == "cat_"@ + text::decimal_seq(g as nat)
        &&& r[g].name@ == "分类 "@ + text::decimal_seq((g + 1) as nat)
    }
    &&& forall|g1: int, g2: int| 0 <= g1 < g2 < r.len() ==> (#[trigger] r[g1]).label != (#[trigger] r[g2]).label
        && r[g1].keys.len() >= r[g2].keys.len()
    &&& forall|i: int| 0 <= i < sv.len() && (#[trigger] sv[i]).1 != -1 ==> exists|g: int| 0 <= g < r.len() && (#[trigger] r[g]).label == sv[i].1
}

/// The full-text index calls that write a classification.
pub open spec fn calls_of(index: Seq<char>, bucket: Seq<char>, sv: Seq<(Seq<char>, i32)>, groups: Seq<ClassGroup>, r: Seq<SinkCall>) -> bool {
    &&& r.len() == sv.len() + 2
    &&& r[0] matches SinkCall::DropIndex { index: i } && i@ == index
    &&& r[1] matches SinkCall::CreateIndex { index: i, fields } && i@ == index
        && fields@.map_values(|f: (u32, String, u8, Option<String>)| field_desc_view(f)) == classification_fields_spec()
    &&& forall|k: int| 0 <= k < sv.len() ==> ((#[trigger] r[k + 2]) matches SinkCall::AddDocument { index: i, doc_id, fields }
        && i@ == index && doc_id@ == sv[k].0
        && fields@.map_values(|p: (String, String)| doc_pair_view(p)) == classification_doc_spec(
            sv[k].0,
            category_of(groups, sv[k].1).0,
            category_of(groups, sv[k].1).1,
            bucket,
        ))
}

/// The samples paired with their labels.
pub open spec fn zip_labels(samples: Seq<(Seq<char>, int)>, labels: Seq<i32>) -> Seq<(Seq<char>, i32)> {
    Seq::new(samples.len(), |i: int| (samples[i].0, labels[i]))
}

/// The samples as characters and entry positions.
pub open spec fn samples_view(v: Seq<(String, usize)>) -> Seq<(Seq<char>, int)> {
    v.map_values(|p: (String, usize)| (p.0@, p.1 as int))
}

/// `a` is a successful reply with these fields (its groups aside).
pub open spec fn reply_is(a: ClassifyAction, message: Seq<char>, total: i32, noise: i32, index: Seq<char>) -> bool {
    a matches ClassifyAction::Reply(r) && {
        &&& r.success
        &&& r.message@ == message
        &&& r.total == total
        &&& r.noise_count == noise
        &&& r.classify_index_name@ == index
    }
}

/// The groups a reply carries.
pub open spec fn reply_groups(a: ClassifyAction) -> Seq<ClassGroup> {
    match a {
        ClassifyAction::Reply(r) => r.groups@,
        _ => Seq::empty(),
    }
}

/// `a` fails with `m`.
pub open spec fn fails_with(a: ClassifyAction, m: Seq<char>) -> bool {
    a matches ClassifyAction::Fail(x) && x@ == m
}

/// The classification's closing message.
pub open spec fn summary_text(samples: nat, clusters: nat, noise: nat) -> Seq<char> {
    "分类完成: "@ + text::decimal_seq(samples) + " 张图片，"@ + text::decimal_seq(clusters) + " 个分类，"@
        + text::decimal_seq(noise) + " 张噪声"@
}

/// One step of a classification: the next phase, the state fields that
/// matter next, and the action `a`, after event `e` in state `s`. The
/// parameters never change.
pub open spec fn classify_step_spec(s: ClassifyState, q: ClassifyRequest, e: ClassifyEvent, t: ClassifyState, a: ClassifyAction) -> bool {
    let p = s.params;
    &&& t.params == s.params
    &&& match (s.phase, e) {
        (ClassifyPhase::Start, ClassifyEvent::Begin) => if !q.has_embedding_service {
            t.phase == ClassifyPhase::Done && fails_with(a, "嵌入索引服务未启用"@)
        } else {
            &&& t.phase == ClassifyPhase::Listing
            &&& t.keys@.len() == 0
            &&& a matches ClassifyAction::ListPage { bucket, marker } && bucket@ == p.bucket@ && marker@.len() == 0
        },
        (ClassifyPhase::Listing, ClassifyEvent::Page { success, message, keys, is_truncated, next_marker }) => if !success {
            t.phase == ClassifyPhase::Done && fails_with(a, message@)
        } else {
            let all = keys_view(s.keys@) + keys_view(keys@);
            &&& keys_view(t.keys@) == all
            &&& if is_truncated && next_marker@.len() > 0 && all.len() <= 50000 {
                t.phase == ClassifyPhase::Listing && (a matches ClassifyAction::ListPage { bucket, marker }
                    && bucket@ == p.bucket@ && marker@ == next_marker@)
            } else if all.len() == 0 {
                t.phase == ClassifyPhase::Done && reply_is(a, "当前 bucket 没有图片"@, 0, 0, p.classify_index@)
                    && reply_groups(a).len() == 0
            } else {
                t.phase == ClassifyPhase::Embeddings && (a matches ClassifyAction::ReadEntries { index } && index@ == p.vector_index@)
            }
        },
        (ClassifyPhase::Listing, ClassifyEvent::Failed(m)) => t.phase == ClassifyPhase::Done && fails_with(a, "列出图片失败: "@ + m@),
        (ClassifyPhase::Embeddings, ClassifyEvent::Entries { success, message, entries }) => if !success {
            t.phase == ClassifyPhase::Done && fails_with(a, message@)
        } else {
            let sm = spec_samples(
                keys_view(s.keys@),
                entries@.map_values(|x: (u64, bool)| x.0),
                entries@.map_values(|x: (u64, bool)| x.1),
            );
            &&& samples_view(t.samples@) == sm
            &&& if sm.len() < 2 {
                t.phase == ClassifyPhase::Done && reply_is(
                    a, "向量化图片不足("@ + text::decimal_seq(sm.len()) + " 张)，无法聚类"@, sm.len() as i32, 0, p.classify_index@,
                ) && reply_groups(a).len() == 0
            } else {
                t.phase == ClassifyPhase::Clustering && (a matches ClassifyAction::Cluster { entries: es, min_cluster_size, min_samples }
                    && es@.map_values(|j: usize| j as int) == sm.map_values(|x: (Seq<char>, int)| x.1)
                    && min_cluster_size == p.min_cluster_size
                    && min_samples == (if sm.len() - 1 < 5 { if sm.len() - 1 < 1 { 1 } else { sm.len() - 1 } } else { 5 }))
            }
        },
        (ClassifyPhase::Embeddings, ClassifyEvent::Failed(m)) => t.phase == ClassifyPhase::Done && fails_with(a, "读取向量索引失败: "@ + m@),
        (ClassifyPhase::Clustering, ClassifyEvent::Clustered { labels, cluster_count, noise_count }) =>
            if labels.len() != s.samples.len() {
                t.phase == ClassifyPhase::Done && fails_with(a, "cluster labels do not match the samples"@)
            } else if s.samples.len() + 2 > usize::MAX {
                t.phase == ClassifyPhase::Done && fails_with(a, "too many samples"@)
            } else {
                let sv = zip_labels(samples_view(s.samples@), labels@);
                let n = s.samples.len();
                if !q.write_to_index {
                    &&& t.phase == ClassifyPhase::Done
                    &&& reply_is(a, summary_text(n as nat, cluster_count as nat, noise_count as nat), n as i32, noise_count as i32, p.classify_index@)
                    &&& grouping_of(sv, reply_groups(a))
                } else if !q.has_index_sink {
                    t.phase == ClassifyPhase::Done && fails_with(a, "全文索引未启用，无法保存分类结果"@)
                } else {
                    &&& t.phase == ClassifyPhase::Writing
                    &&& grouping_of(sv, t.groups@)
                    &&& t.cluster_count == cluster_count
                    &&& t.noise_count == noise_count
                    &&& t.samples.len() == n
                    &&& a matches ClassifyAction::Write(calls) && calls_of(p.classify_index@, p.bucket@, sv, t.groups@, calls@)
                }
            },
        (ClassifyPhase::Writing, ClassifyEvent::Written) => {
            &&& t.phase == ClassifyPhase::Done
            &&& reply_is(
                a, summary_text(s.samples.len() as nat, s.cluster_count as nat, s.noise_count as nat),
                s.samples.len() as i32, s.noise_count as i32, p.classify_index@,
            )
            &&& reply_groups(a) == s.groups@
        },
        (_, ClassifyEvent::Failed(m)) => t.phase == ClassifyPhase::Done && fails_with(a, m@),
        _ => t.phase == ClassifyPhase::Done && fails_with(a, "classify step out of order"@),
    }
}

fn fail(s: ClassifyState, message: String) -> (r: (ClassifyState, ClassifyAction))
    ensures
        r.0 == (ClassifyState { phase: ClassifyPhase::Done, ..s }),
        fails_with(r.1, message@),
{
    (ClassifyState { phase: ClassifyPhase::Done, ..s }, ClassifyAction::Fail(message))
}

fn text_of(s: &str) -> (r: String)
    ensures
        r@ == s@,
{
    string_from_chars(&str_chars(s))
}

fn prefixed(head: &str, detail: &str) -> (r: String)
    ensures
        r@ == head@ + detail@,
{
    string_from_chars(&concat(&str_chars(head), &str_chars(detail)))
}

fn reply(s: ClassifyState, message: String, groups: Vec<ClassGroup>, total: i32, noise: i32) -> (r: (ClassifyState, ClassifyAction))
    ensures
        r.0 == (ClassifyState { phase: ClassifyPhase::Done, ..s }),
        reply_is(r.1, message@, total, noise, s.params.classify_index@),
        reply_groups(r.1) == groups@,
{
    let index = text_of(s.params.classify_index.as_str());
    let a = ClassifyAction::Reply(ClassifyReply { success: true, message, groups, total, noise_count: noise, classify_index_name: index });
    (ClassifyState { phase: ClassifyPhase::Done, ..s }, a)
}

fn append_keys(keys: &mut Vec<String>, more: &Vec<String>)
    ensures
        keys_view(final(keys)@) == keys_view(old(keys)@) + keys_view(more@),
{
    let ghost start = keys_view(keys@);
    let mut i: usize = 0;
    while i < more.len()
        invariant
            i <= more.len(),
            keys_view(keys@) == start + keys_view(more@).subrange(0, i as int),
        decreases more.len() - i,
    {
        let ghost before = keys_view(keys@);
        keys.push(text_of(more[i].as_str()));
        assert(keys_view(keys@) =~= before.push(more@[i as int]@));
        assert(keys_view(more@).subrange(0, i + 1) =~= keys_view(more@).subrange(0, i as int).push(more@[i as int]@));
        i = i + 1;
    }
    assert(keys_view(more@).subrange(0, i as int) =~= keys_view(more@));
}

fn split_entries(entries: &Vec<(u64, bool)>) -> (r: (Vec<u64>, Vec<bool>))
    ensures
        r.0@ == entries@.map_values(|x: (u64, bool)| x.0),
        r.1@ == entries@.map_values(|x: (u64, bool)| x.1),
{
    let mut ids: Vec<u64> = Vec::new();
    let mut hv: Vec<bool> = Vec::new();
    let mut i: usize = 0;
    while i < entries.len()
        invariant
            i <= entries.len(),
            ids@ == entries@.map_values(|x: (u64, bool)| x.0).subrange(0, i as int),
            hv@ == entries@.map_values(|x: (u64, bool)| x.1).subrange(0, i as int),
        decreases entries.len() - i,
    {
        ids.push(entries[i].0);
        hv.push(entries[i].1);
        assert(ids@ =~= entries@.map_values(|x: (u64, bool)| x.0).subrange(0, i + 1));
        assert(hv@ =~= entries@.map_values(|x: (u64, bool)| x.1).subrange(0, i + 1));
        i = i + 1;
    }
    assert(ids@ =~= entries@.map_values(|x: (u64, bool)| x.0));
    assert(hv@ =~= entries@.map_values(|x: (u64, bool)| x.1));
    (ids, hv)
}

fn entry_positions(samples: &Vec<(String, usize)>) -> (r: Vec<usize>)
    ensures
        r@.map_values(|j: usize| j as int) == samples_view(samples@).map_values(|x: (Seq<char>, int)| x.1),
{
    let mut out: Vec<usize> = Vec::new();
    let mut i: usize = 0;
    while i < samples.len()
        invariant
            i <= samples.len(),
            out@.map_values(|j: usize| j as int) == samples_view(samples@).map_values(|x: (Seq<char>, int)| x.1).subrange(0, i as int),
        decreases samples.len() - i,
    {
        let ghost before = out@.map_values(|j: usize| j as int);
        out.push(samples[i].1);
        assert(out@.map_values(|j: usize| j as int) =~= before.push(samples[i as int].1 as int));
        assert(samples_view(samples@).map_values(|x: (Seq<char>, int)| x.1).subrange(0, i + 1)
            =~= samples_view(samples@).map_values(|x: (Seq<char>, int)| x.1).subrange(0, i as int).push(samples[i as int].1 as int));
        i = i + 1;
    }
    assert(samples_view(samples@).map_values(|x: (Seq<char>, int)| x.1).subrange(0, i as int)
        =~= samples_view(samples@).map_values(|x: (Seq<char>, int)| x.1));
    out
}

fn label_samples(samples: &Vec<(String, usize)>, labels: &Vec<i32>) -> (r: Vec<(String, i32)>)
    requires
        labels.len() == samples.len(),
    ensures
        labeled_view(r@) == zip_labels(samples_view(samples@), labels@),
{
    let ghost z = zip_labels(samples_view(samples@), labels@);
    let mut out: Vec<(String, i32)> = Vec::new();
    let mut i: usize = 0;
    while i < samples.len()
        invariant
            i <= samples.len(),
            labels.len() == samples.len(),
            z == zip_labels(samples_view(samples@), labels@),
            labeled_view(out@) == z.subrange(0, i as int),
        decreases samples.len() - i,
    {
        let ghost before = labeled_view(out@);
        out.push((text_of(samples[i].0.as_str()), labels[i]));
        assert(labeled_view(out@) =~= before.push(z[i as int]));
        assert(z.subrange(0, i + 1) =~= z.subrange(0, i as int).push(z[i as int]));
        i = i + 1;
    }
    assert(z.subrange(0, i as int) =~= z);
    out
}

/// The next state and action of a classification after an event.
pub fn classify_step(s: ClassifyState, q: &ClassifyRequest, e: ClassifyEvent) -> (r: (ClassifyState, ClassifyAction))
    ensures
        classify_step_spec(s, *q, e, r.0, r.1),
{
    match (s.phase, e) {
        (ClassifyPhase::Start, ClassifyEvent::Begin) => {
            if !q.has_embedding_service {
                return fail(s, text_of("嵌入索引服务未启用"));
            }
            let bucket = text_of(s.params.bucket.as_str());
            let a = ClassifyAction::ListPage { bucket, marker: String::new() };
            (ClassifyState { phase: ClassifyPhase::Listing, keys: Vec::new(), ..s }, a)
        },
        (ClassifyPhase::Listing, ClassifyEvent::Page { success, message, keys, is_truncated, next_marker }) => {
            if !success {
                return fail(s, message);
            }
            let mut all_keys = s.keys;
            append_keys(&mut all_keys, &keys);
            let s = ClassifyState { keys: all_keys, ..s };
            if continue_key_listing(is_truncated, next_marker.as_str(), s.keys.len()) {
                let bucket = text_of(s.params.bucket.as_str());
                let a = ClassifyAction::ListPage { bucket, marker: next_marker };
                (ClassifyState { phase: ClassifyPhase::Listing, ..s }, a)
            } else if s.keys.len() == 0 {
                reply(s, text_of("当前 bucket 没有图片"), Vec::new(), 0, 0)
            } else {
                let index = text_of(s.params.vector_index.as_str());
                (ClassifyState { phase: ClassifyPhase::Embeddings, ..s }, ClassifyAction::ReadEntries { index })
            }
        },
        (ClassifyPhase::Listing, ClassifyEvent::Failed(m)) => {
            let x = prefixed("列出图片失败: ", m.as_str());
            fail(s, x)
        },
        (ClassifyPhase::Embeddings, ClassifyEvent::Entries { success, message, entries }) => {
            if !success {
                return fail(s, message);
            }
            let (ids, hv) = split_entries(&entries);
            let samples = match_samples(&s.keys, &ids, &hv);
            let n = samples.len();
            if n < 2 {
                let m = too_few_samples_message(n);
                let s = ClassifyState { samples, ..s };
                reply(s, m, Vec::new(), n as i32, 0)
            } else {
                let positions = entry_positions(&samples);
                let a = ClassifyAction::Cluster { entries: positions, min_cluster_size: s.params.min_cluster_size, min_samples: min_samples(n) };
                (ClassifyState { phase: ClassifyPhase::Clustering, samples, ..s }, a)
            }
        },
        (ClassifyPhase::Embeddings, ClassifyEvent::Failed(m)) => {
            let x = prefixed("读取向量索引失败: ", m.as_str());
            fail(s, x)
        },
        (ClassifyPhase::Clustering, ClassifyEvent::Clustered { labels, cluster_count, noise_count }) => {
            if labels.len() != s.samples.len() {
                return fail(s, text_of("cluster labels do not match the samples"));
            }
            if s.samples.len() > usize::MAX - 2 {
                return fail(s, text_of("too many samples"));
            }
            let n = s.samples.len();
            let labeled = label_samples(&s.samples, &labels);
            let groups = group_by_label(&labeled);
            let ghost sv = zip_labels(samples_view(s.samples@), labels@);
            proof {
                assert(labeled@.map_values(|x: (String, i32)| (x.0@, x.1)) == sv);
            }
            if !q.write_to_index {
                let m = classify_summary(n, cluster_count, noise_count);
                reply(s, m, groups, n as i32, noise_count as i32)
            } else if !q.has_index_sink {
                fail(s, no_sink_message())
            } else {
                let calls = classification_calls(s.params.classify_index.as_str(), s.params.bucket.as_str(), &labeled, &groups);
                let a = ClassifyAction::Write(calls);
                (
                    ClassifyState { phase: ClassifyPhase::Writing, labeled, groups, cluster_count, noise_count, ..s },
                    a,
                )
            }
        },
        (ClassifyPhase::Writing, ClassifyEvent::Written) => {
            let m = classify_summary(s.samples.len(), s.cluster_count, s.noise_count);
            let total = s.samples.len() as i32;
            let noise = s.noise_count as i32;
            let ClassifyState { phase, params, keys, samples, labeled, groups, cluster_count, noise_count } = s;
            let rest = ClassifyState { phase, params, keys, samples, labeled, groups: Vec::new(), cluster_count, noise_count };
            reply(rest, m, groups, total, noise)
        },
        (_, ClassifyEvent::Failed(m)) => fail(s, m),
        _ => fail(s, text_of("classify step out of order")),
    }
}

} // verus!
