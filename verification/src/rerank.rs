//! The cross-encoder rerank service's own logic: configuration, request
//! checks, building `[CLS] query [SEP] document [SEP]` token pairs within the
//! sequence budget, padding a batch, weight precision names and request ids.
//! Running the model and ordering its floating-point scores happen outside.

use vstd::prelude::*;
use crate::text;
use crate::text::{chars_eq, push_all, str_chars, string_from_chars};

verus! {

broadcast use text::lemma_chars_deep_view;

// ---------------------------------------------------------------------------
// Configuration and HTTP types
// ---------------------------------------------------------------------------

/// Settings of the rerank service.
pub struct RerankerServiceConfig {
    /// Model directory (`config.json`, `tokenizer.json`, `model.safetensors`).
    pub model_path: String,
    /// Whether to use a GPU.
    pub use_cuda: bool,
    /// Token budget of one query-document pair.
    pub max_seq_len: usize,
    /// How many results to return when the request names no number.
    pub default_top_n: usize,
    /// Weight precision: `f32` or `f16`.
    pub dtype: String,
}

impl Default for RerankerServiceConfig {
    fn default() -> (r: RerankerServiceConfig)
        ensures
            r.model_path@ == "laoflch_db_model/bge-reranker-v2-m3"@,
            !r.use_cuda,
            r.max_seq_len == 1024,
            r.default_top_n == 10,
            r.dtype@ == "f32"@,
    {
        RerankerServiceConfig {
            model_path: "laoflch_db_model/bge-reranker-v2-m3".to_string(),
            use_cuda: false,
            max_seq_len: 1024,
            default_top_n: 10,
            dtype: "f32".to_string(),
        }
    }
}

/// Body of an OpenAI-style `/rerank` request.
pub struct RerankHttpRequest {
    pub model: Option<String>,
    pub query: String,
    pub documents: Vec<String>,
    pub top_n: Option<usize>,
    pub return_documents: bool,
}

/// A document echoed back with a result.
pub struct RerankHttpDocument {
    pub text: String,
}

/// Token usage of a rerank call.
pub struct RerankHttpUsage {
    pub total_tokens: usize,
}

// ---------------------------------------------------------------------------
// Model configuration defaults
// ---------------------------------------------------------------------------

/// Default hidden size.
pub fn mc_hidden() -> (r: usize)
    ensures
        r == 1024,
{
    1024
}

/// Default number of attention heads.
pub fn mc_heads() -> (r: usize)
    ensures
        r == 16,
{
    16
}

/// Default position embedding type.
pub fn mc_pet() -> (r: String)
    ensures
        r@ == "absolute"@,
{
    "absolute".to_string()
}

/// Default intermediate size.
pub fn mc_inter() -> (r: usize)
    ensures
        r == 4096,
{
    4096
}

/// Default number of hidden layers.
pub fn mc_layers() -> (r: usize)
    ensures
        r == 24,
{
    24
}

/// Default vocabulary size.
pub fn mc_vocab() -> (r: usize)
    ensures
        r == 250002,
{
    250002
}

/// Default maximum number of positions.
pub fn mc_maxpos() -> (r: usize)
    ensures
        r == 8192,
{
    8192
}

/// Default token type vocabulary size.
pub fn mc_typevocab() -> (r: usize)
    ensures
        r == 2,
{
    2
}

/// Default padding token id.
pub fn mc_pad() -> (r: u32)
    ensures
        r == 1,
{
    1
}

// ---------------------------------------------------------------------------
// Weight precision
// ---------------------------------------------------------------------------

/// The normal components of a Unix path: the pieces between `/`
/// separators, leaving out empty pieces (repeated, leading or trailing
/// separators) and `.` pieces.
pub open spec fn path_components(path: Seq<char>) -> Seq<Seq<char>> {
    crate::text::split_by(path, "/"@).filter(|c: Seq<char>| c.len() > 0 && c != "."@)
}

/// The last component of a Unix path as `Path::file_name` gives it: none
/// when the path has no component (such as `/`, `.` or the empty path) or
/// its last component is `..`.
pub open spec fn unix_file_name(path: Seq<char>) -> Option<Seq<char>> {
    let cs = path_components(path);
    if cs.len() == 0 || cs.last() == ".."@ {
        None
    } else {
        Some(cs.last())
    }
}

/// Calls `Path::file_name` and `OsStr::to_string_lossy` (the name is text
/// already, so the conversion keeps it). This library is built for Unix
/// targets, where `/` is the only separator; `Path::components` drops empty
/// and interior `.` pieces, and `file_name` gives the last component unless
/// it is `..`.
#[verifier::external_body]
fn path_file_name(path: &str) -> (r: Option<String>)
    ensures
        match r {
            Some(n) => unix_file_name(path@) == Some(n@),
            None => unix_file_name(path@) == None::<Seq<char>>,
        },
{
    std::path::Path::new(path).file_name().map(|n| n.to_string_lossy().to_string())
}

/// The name a service reports for its model: the last component of the
/// model directory, or the whole path when it has none.
pub fn model_name(model_path: &str) -> (r: String)
    ensures
        r@ == match unix_file_name(model_path@) {
            Some(n) => n,
            None => model_path@,
        },
{
    match path_file_name(model_path) {
        Some(n) => n,
        None => model_path.to_string(),
    }
}

/// The precision the weights are loaded in.
#[derive(PartialEq, Eq, Structural, Clone, Copy)]
pub enum WeightDType {
    F32,
    F16,
}

/// `f32`/`fp32` and `f16`/`fp16`, in any ASCII case; anything else is an
/// error naming the lower-cased text.
pub open spec fn spec_parse_dtype(s: Seq<char>) -> Result<WeightDType, Seq<char>> {
    let l = text::ascii_lower(s);
    if l == "f32"@ || l == "fp32"@ {
        Ok(WeightDType::F32)
    } else if l == "f16"@ || l == "fp16"@ {
        Ok(WeightDType::F16)
    } else {
        Err("不支持的 dtype: "@ + l + "（支持 f32/fp32、f16/fp16）"@)
    }
}

/// Read a weight precision name.
pub fn parse_dtype(s: &str) -> (r: Result<WeightDType, String>)
    ensures
        match r {
            Ok(d) => spec_parse_dtype(s@) == Ok::<WeightDType, Seq<char>>(d),
            Err(e) => spec_parse_dtype(s@) == Err::<WeightDType, Seq<char>>(e@),
        },
{
    let l = text::ascii_lower_chars(&str_chars(s));
    if chars_eq(&l, &str_chars("f32")) || chars_eq(&l, &str_chars("fp32")) {
        Ok(WeightDType::F32)
    } else if chars_eq(&l, &str_chars("f16")) || chars_eq(&l, &str_chars("fp16")) {
        Ok(WeightDType::F16)
    } else {
        let mut m = str_chars("不支持的 dtype: ");
        push_all(&mut m, &l);
        push_all(&mut m, &str_chars("（支持 f32/fp32、f16/fp16）"));
        Err(string_from_chars(&m))
    }
}

// ---------------------------------------------------------------------------
// Request checks
// ---------------------------------------------------------------------------

/// A rerank request is served when its trimmed query and its document list
/// are not empty; the trimmed query is what gets ranked against.
pub open spec fn spec_check_request(query: Seq<char>, n_documents: nat) -> Result<Seq<char>, Seq<char>> {
    let q = text::trim_spec(query);
    if q.len() == 0 {
        Err("query 不能为空"@)
    } else if n_documents == 0 {
        Err("documents 不能为空"@)
    } else {
        Ok(q)
    }
}

/// Check a rerank request; gives the trimmed query.
pub fn check_rerank_request(req: &RerankHttpRequest) -> (r: Result<String, String>)
    ensures
        match r {
            Ok(q) => spec_check_request(req.query@, req.documents.len() as nat) == Ok::<Seq<char>, Seq<char>>(q@),
            Err(e) => spec_check_request(req.query@, req.documents.len() as nat) == Err::<Seq<char>, Seq<char>>(e@),
        },
{
    let q = text::trim_chars(&str_chars(req.query.as_str()));
    if q.len() == 0 {
        return Err("query 不能为空".to_string());
    }
    if req.documents.len() == 0 {
        return Err("documents 不能为空".to_string());
    }
    Ok(string_from_chars(&q))
}

/// The number of results to return.
pub fn effective_top_n(requested: Option<usize>, config: &RerankerServiceConfig) -> (r: usize)
    ensures
        r == match requested {
            Some(n) => n,
            None => config.default_top_n,
        },
{
    match requested {
        Some(n) => n,
        None => config.default_top_n,
    }
}

// ---------------------------------------------------------------------------
// Token pairs and batches
// ---------------------------------------------------------------------------

/// `a - b`, or zero when `b` is larger.
pub open spec fn saturating_sub(a: int, b: int) -> nat {
    if a > b {
        (a - b) as nat
    } else {
        0
    }
}

/// One pair: the query ids, the document ids cut to what the budget leaves
/// after the query and one separator, then the separator.
pub open spec fn pair_ids(q: Seq<u32>, d: Seq<u32>, max_seq: nat, sep: u32) -> Seq<u32> {
    let room = saturating_sub(max_seq as int, (q.len() + 1) as int);
    let kept = if d.len() > room { d.subrange(0, room as int) } else { d };
    q + kept + seq![sep]
}

/// All pairs.
pub open spec fn all_pairs(q: Seq<u32>, docs: Seq<Seq<u32>>, max_seq: nat, sep: u32) -> Seq<Seq<u32>> {
    docs.map_values(|d: Seq<u32>| pair_ids(q, d, max_seq, sep))
}

/// The sum of the pair lengths.
pub open spec fn total_len(pairs: Seq<Seq<u32>>) -> nat
    decreases pairs.len(),
{
    if pairs.len() == 0 {
        0
    } else {
        total_len(pairs.drop_last()) + pairs.last().len()
    }
}

/// The longest pair length (zero for none).
pub open spec fn max_len(pairs: Seq<Seq<u32>>) -> nat
    decreases pairs.len(),
{
    if pairs.len() == 0 {
        0
    } else if pairs.last().len() > max_len(pairs.drop_last()) {
        pairs.last().len()
    } else {
        max_len(pairs.drop_last())
    }
}

/// The token ids of a padded batch: each pair followed by `pad` up to
/// `width`, pairs one after another.
pub open spec fn padded_ids(pairs: Seq<Seq<u32>>, width: nat, pad: u32) -> Seq<u32>
    decreases pairs.len(),
{
    if pairs.len() == 0 {
        Seq::empty()
    } else {
        padded_ids(pairs.drop_last(), width, pad) + Seq::new(
            width,
            |i: int| if i < pairs.last().len() { pairs.last()[i] } else { pad },
        )
    }
}

/// The attention mask of a padded batch: 1 over real tokens, 0 over padding.
pub open spec fn padded_mask(pairs: Seq<Seq<u32>>, width: nat) -> Seq<u32>
    decreases pairs.len(),
{
    if pairs.len() == 0 {
        Seq::empty()
    } else {
        padded_mask(pairs.drop_last(), width) + Seq::new(
            width,
            |i: int| if i < pairs.last().len() { 1u32 } else { 0u32 },
        )
    }
}

/// The model input of one rerank call.
pub struct RerankBatch {
    pub input_ids: Vec<u32>,
    pub attention_mask: Vec<u32>,
    pub token_type_ids: Vec<u32>,
    pub batch_size: usize,
    pub max_len: usize,
    pub total_tokens: usize,
}

/// Build the pairs of a batch.
pub fn build_pairs(q_ids: &[u32], doc_ids: &Vec<Vec<u32>>, max_seq: usize, sep: u32) -> (r: Vec<Vec<u32>>)
    requires
        q_ids.len() < usize::MAX,
    ensures
        r@.map_values(|p: Vec<u32>| p@) == all_pairs(q_ids@, doc_ids@.map_values(|d: Vec<u32>| d@), max_seq as nat, sep),
{
    let room: usize = if max_seq > q_ids.len() + 1 { max_seq - (q_ids.len() + 1) } else { 0 };
    let ghost docs = doc_ids@.map_values(|d: Vec<u32>| d@);
    let mut pairs: Vec<Vec<u32>> = Vec::new();
    let mut i: usize = 0;
    while i < doc_ids.len()
        invariant
            i <= doc_ids.len(),
            q_ids.len() < usize::MAX,
            room == saturating_sub(max_seq as int, (q_ids.len() + 1) as int),
            docs == doc_ids@.map_values(|d: Vec<u32>| d@),
            pairs@.map_values(|p: Vec<u32>| p@) == all_pairs(q_ids@, docs.subrange(0, i as int), max_seq as nat, sep),
        decreases doc_ids.len() - i,
    {
        let d = &doc_ids[i];
        let keep = if d.len() > room { room } else { d.len() };
        let mut pair: Vec<u32> = Vec::new();
        let mut k: usize = 0;
        while k < q_ids.len()
            invariant
                k <= q_ids.len(),
                pair@ == q_ids@.subrange(0, k as int),
            decreases q_ids.len() - k,
        {
            pair.push(q_ids[k]);
            k = k + 1;
        }
        let mut k: usize = 0;
        while k < keep
            invariant
                k <= keep,
                keep <= d.len(),
                pair@ == q_ids@ + d@.subrange(0, k as int),
            decreases keep - k,
        {
            pair.push(d[k]);
            k = k + 1;
            assert(pair@ =~= q_ids@ + d@.subrange(0, k as int));
        }
        pair.push(sep);
        proof {
            assert(q_ids@.subrange(0, q_ids@.len() as int) =~= q_ids@);
            let kept = if d@.len() > room { d@.subrange(0, room as int) } else { d@ };
            assert(d@.subrange(0, keep as int) =~= kept);
            assert(pair@ =~= pair_ids(q_ids@, docs[i as int], max_seq as nat, sep));
        }
        let ghost before = pairs@.map_values(|p: Vec<u32>| p@);
        let ghost pv = pair@;
        pairs.push(pair);
        assert(pairs@.map_values(|p: Vec<u32>| p@) =~= before.push(pv));
        assert(all_pairs(q_ids@, docs.subrange(0, i + 1), max_seq as nat, sep) =~= all_pairs(q_ids@, docs.subrange(0, i as int), max_seq as nat, sep).push(pv));
        i = i + 1;
    }
    assert(docs.subrange(0, i as int) =~= docs);
    pairs
}

/// Pad pairs into one batch. The padded batch must fit in memory.
pub fn pad_batch(pairs: &Vec<Vec<u32>>, pad: u32) -> (r: RerankBatch)
    requires
        total_len(pairs@.map_values(|p: Vec<u32>| p@)) <= usize::MAX,
        pairs.len() * max_len(pairs@.map_values(|p: Vec<u32>| p@)) <= usize::MAX,
    ensures
        r.batch_size == pairs.len(),
        r.max_len == max_len(pairs@.map_values(|p: Vec<u32>| p@)),
        r.total_tokens == total_len(pairs@.map_values(|p: Vec<u32>| p@)),
        r.input_ids@ == padded_ids(pairs@.map_values(|p: Vec<u32>| p@), r.max_len as nat, pad),
        r.attention_mask@ == padded_mask(pairs@.map_values(|p: Vec<u32>| p@), r.max_len as nat),
        r.token_type_ids@ == Seq::new((pairs.len() * r.max_len) as nat, |i: int| 0u32),
{
    let ghost ps = pairs@.map_values(|p: Vec<u32>| p@);
    let mut width: usize = 0;
    let mut total: usize = 0;
    let mut i: usize = 0;
    while i < pairs.len()
        invariant
            i <= pairs.len(),
            ps == pairs@.map_values(|p: Vec<u32>| p@),
            total_len(ps) <= usize::MAX,
            width == max_len(ps.subrange(0, i as int)),
            total == total_len(ps.subrange(0, i as int)),
        decreases pairs.len() - i,
    {
        let ghost next = ps.subrange(0, i + 1);
        assert(next.drop_last() =~= ps.subrange(0, i as int));
        assert(next.last() == pairs@[i as int]@);
        proof {
            lemma_total_len_prefix(ps, i + 1);
        }
        if pairs[i].len() > width {
            width = pairs[i].len();
        }
        total = total + pairs[i].len();
        i = i + 1;
    }
    assert(ps.subrange(0, i as int) =~= ps);
    let mut ids: Vec<u32> = Vec::new();
    let mut mask: Vec<u32> = Vec::new();
    let mut types: Vec<u32> = Vec::new();
    let mut j: usize = 0;
    while j < pairs.len()
        invariant
            j <= pairs.len(),
            ps == pairs@.map_values(|p: Vec<u32>| p@),
            width == max_len(ps),
            pairs.len() * width <= usize::MAX,
            ids@ == padded_ids(ps.subrange(0, j as int), width as nat, pad),
            mask@ == padded_mask(ps.subrange(0, j as int), width as nat),
            types@ == Seq::new((j * width) as nat, |i: int| 0u32),
        decreases pairs.len() - j,
    {
        let p = &pairs[j];
        let ghost ids0 = ids@;
        let ghost mask0 = mask@;
        let ghost types0 = types@;
        proof {
            lemma_max_len_bound(ps, j as int);
            assert(j * width + width <= pairs.len() * width) by (nonlinear_arith)
                requires
                    j < pairs.len(),
            ;
        }
        let mut k: usize = 0;
        while k < width
            invariant
                k <= width,
                p@.len() <= width,
                ids@ == ids0 + Seq::new(k as nat, |i: int| if i < p@.len() { p@[i] } else { pad }),
                mask@ == mask0 + Seq::new(k as nat, |i: int| if i < p@.len() { 1u32 } else { 0u32 }),
                types@ == types0 + Seq::new(k as nat, |i: int| 0u32),
            decreases width - k,
        {
            if k < p.len() {
                ids.push(p[k]);
                mask.push(1);
            } else {
                ids.push(pad);
                mask.push(0);
            }
            types.push(0);
            k = k + 1;
            assert(ids@ =~= ids0 + Seq::new(k as nat, |i: int| if i < p@.len() { p@[i] } else { pad }));
            assert(mask@ =~= mask0 + Seq::new(k as nat, |i: int| if i < p@.len() { 1u32 } else { 0u32 }));
            assert(types@ =~= types0 + Seq::new(k as nat, |i: int| 0u32));
        }
        let ghost next = ps.subrange(0, j + 1);
        assert(next.drop_last() =~= ps.subrange(0, j as int));
        assert(next.last() == p@);
        assert(types@ =~= Seq::new(((j + 1) * width) as nat, |i: int| 0u32)) by (nonlinear_arith)
            requires
                types@ == types0 + Seq::new(width as nat, |i: int| 0u32),
                types0 == Seq::new((j * width) as nat, |i: int| 0u32),
        {
            assert((j + 1) * width == j * width + width);
        }
        j = j + 1;
    }
    assert(ps.subrange(0, j as int) =~= ps);
    RerankBatch {
        input_ids: ids,
        attention_mask: mask,
        token_type_ids: types,
        batch_size: pairs.len(),
        max_len: width,
        total_tokens: total,
    }
}

/// A prefix's total is at most the whole total.
proof fn lemma_total_len_prefix(ps: Seq<Seq<u32>>, k: int)
    requires
        0 <= k <= ps.len(),
    ensures
        total_len(ps.subrange(0, k)) <= total_len(ps),
    decreases ps.len() - k,
{
    if k < ps.len() {
        lemma_total_len_prefix(ps, k + 1);
        assert(ps.subrange(0, k + 1).drop_last() =~= ps.subrange(0, k));
    } else {
        assert(ps.subrange(0, k) =~= ps);
    }
}

/// Every pair is at most as long as the longest.
proof fn lemma_max_len_bound(ps: Seq<Seq<u32>>, j: int)
    requires
        0 <= j < ps.len(),
    ensures
        ps[j].len() <= max_len(ps),
    decreases ps.len(),
{
    if j < ps.len() - 1 {
        lemma_max_len_bound(ps.drop_last(), j);
        assert(ps.drop_last()[j] == ps[j]);
    }
}

// ---------------------------------------------------------------------------
// Request ids
// ---------------------------------------------------------------------------

/// Lower-case hexadecimal digits of `n`, without leading zeros.
pub open spec fn hex_digits(n: nat) -> Seq<char>
    decreases n,
{
    if n < 16 {
        seq![crate::s3_auth::hex_digit_char(n as int)]
    } else {
        hex_digits(n / 16).push(crate::s3_auth::hex_digit_char((n % 16) as int))
    }
}

/// `rerank-` and the time in nanoseconds as at least 16 hex digits.
pub open spec fn request_id_text(nanos: u128) -> Seq<char> {
    "rerank-"@ + text::zero_pad(hex_digits(nanos as nat), 16)
}

fn hex_of(n: u128) -> (r: Vec<char>)
    ensures
        r@ == hex_digits(n as nat),
    decreases n,
{
    let d = (n % 16) as u8;
    let c = if d < 10 { (d + 48) as char } else { (d + 87) as char };
    if n < 16 {
        let mut v: Vec<char> = Vec::new();
        v.push(c);
        v
    } else {
        let mut v = hex_of(n / 16);
        v.push(c);
        v
    }
}

/// The request id for a time in nanoseconds.
pub fn format_request_id(nanos: u128) -> (r: String)
    ensures
        r@ == request_id_text(nanos),
{
    let digits = hex_of(nanos);
    let mut out = str_chars("rerank-");
    if digits.len() < 16 {
        let mut k: usize = 0;
        let pad = 16 - digits.len();
        let ghost start = out@;
        while k < pad
            invariant
                k <= pad,
                out@ == start + Seq::new(k as nat, |i: int| '0'),
            decreases pad - k,
        {
            out.push('0');
            k = k + 1;
            assert(out@ =~= start + Seq::new(k as nat, |i: int| '0'));
        }
    }
    push_all(&mut out, &digits);
    assert(out@ =~= request_id_text(nanos));
    string_from_chars(&out)
}

/// Calls `SystemTime::now().duration_since(UNIX_EPOCH)` in nanoseconds (zero
/// for a clock before the epoch). Nothing is claimed of the value: it is the
/// clock.
#[verifier::external_body]
fn unix_now_nanos() -> (r: u128) {
    std::time::SystemTime::now().duration_since(std::time::UNIX_EPOCH).map(|d| d.as_nanos()).unwrap_or(0)
}

/// A request id from the current time.
pub fn make_id() -> (r: String)
    ensures
        exists|n: u128| r@ == request_id_text(n),
{
    format_request_id(unix_now_nanos())
}

// ---------------------------------------------------------------------------
// Tokenization
// ---------------------------------------------------------------------------

#[verifier::external_type_specification]
#[verifier::external_body]
pub struct ExTokenizer(tokenizers::Tokenizer);

/// The outcomes `Tokenizer::encode` may give for a text: the token ids, or
/// the error's message. It is a set because a tokenizer may sample (BPE
/// dropout, unigram sampling); which member a call gives is left open.
pub uninterp spec fn encodings_of(tokenizer: tokenizers::Tokenizer, text: Seq<char>, add_special_tokens: bool) -> Set<Result<Seq<u32>, Seq<char>>>;

/// An encoding result by its views.
pub open spec fn encoding_view(r: Result<Vec<u32>, String>) -> Result<Seq<u32>, Seq<char>> {
    match r {
        Ok(v) => Ok(v@),
        Err(e) => Err(e@),
    }
}

/// Calls `Tokenizer::encode` and `Encoding::get_ids`; a failure becomes its
/// message. The result is one of the outcomes the tokenizer may give for
/// these arguments; which ids those are depends on the loaded vocabulary
/// and is not claimed.
#[verifier::external_body]
fn encode_ids(tokenizer: &tokenizers::Tokenizer, text: &str, add_special_tokens: bool) -> (r: Result<Vec<u32>, String>)
    ensures
        encodings_of(*tokenizer, text@, add_special_tokens).contains(encoding_view(r)),
{
    match tokenizer.encode(text, add_special_tokens) {
        Ok(e) => Ok(e.get_ids().to_vec()),
        Err(e) => Err(e.to_string()),
    }
}

/// The tokenizer's token-to-id lookup: its added tokens over its model's
/// vocabulary. A token outside the map has no id.
pub uninterp spec fn token_ids_of(tokenizer: tokenizers::Tokenizer) -> Map<Seq<char>, u32>;

/// Calls `Tokenizer::token_to_id`, a lookup in the added tokens and then in
/// the model's vocabulary: the id the tokenizer's map gives the token, or
/// `None` where the map has no entry for it.
#[verifier::external_body]
fn token_id(tokenizer: &tokenizers::Tokenizer, token: &str) -> (r: Option<u32>)
    ensures
        r == (if token_ids_of(*tokenizer).dom().contains(token@) {
            Some(token_ids_of(*tokenizer)[token@])
        } else {
            None::<u32>
        }),
{
    tokenizer.token_to_id(token)
}

/// The id of the `</s>` separator, or an error when the vocabulary lacks it.
pub fn separator_token_id(tokenizer: &tokenizers::Tokenizer) -> (r: Result<u32, String>)
    ensures
        match r {
            Ok(id) => token_ids_of(*tokenizer).dom().contains("</s>"@) && id == token_ids_of(*tokenizer)["</s>"@],
            Err(e) => !token_ids_of(*tokenizer).dom().contains("</s>"@) && e@ == "tokenizer 缺少 </s> token"@,
        },
{
    match token_id(tokenizer, "</s>") {
        Some(id) => Ok(id),
        None => Err("tokenizer 缺少 </s> token".to_string()),
    }
}

/// `head` followed by `detail`.
fn message(head: &str, detail: &str) -> (r: String)
    ensures
        r@ == head@ + detail@,
{
    let mut m = str_chars(head);
    push_all(&mut m, &str_chars(detail));
    string_from_chars(&m)
}

/// The batch made from encoded query and document ids.
pub open spec fn batch_matches(b: RerankBatch, q: Seq<u32>, ds: Seq<Seq<u32>>, max_seq: nat, sep: u32, pad: u32) -> bool {
    let ps = all_pairs(q, ds, max_seq, sep);
    &&& b.batch_size == ds.len()
    &&& b.max_len == max_len(ps)
    &&& b.total_tokens == total_len(ps)
    &&& b.input_ids@ == padded_ids(ps, b.max_len as nat, pad)
    &&& b.attention_mask@ == padded_mask(ps, b.max_len as nat)
    &&& b.token_type_ids@ == Seq::new((ds.len() * b.max_len) as nat, |i: int| 0u32)
}

fn sum_fits(pairs: &Vec<Vec<u32>>) -> (r: bool)
    ensures
        r == (total_len(pairs@.map_values(|p: Vec<u32>| p@)) <= usize::MAX
            && pairs.len() * max_len(pairs@.map_values(|p: Vec<u32>| p@)) <= usize::MAX),
{
    let ghost ps = pairs@.map_values(|p: Vec<u32>| p@);
    let mut total: u128 = 0;
    let mut width: usize = 0;
    let mut i: usize = 0;
    while i < pairs.len()
        invariant
            i <= pairs.len(),
            ps == pairs@.map_values(|p: Vec<u32>| p@),
            total == total_len(ps.subrange(0, i as int)),
            total <= usize::MAX,
            width == max_len(ps.subrange(0, i as int)),
        decreases pairs.len() - i,
    {
        let ghost next = ps.subrange(0, i + 1);
        assert(next.drop_last() =~= ps.subrange(0, i as int));
        assert(next.last() == pairs@[i as int]@);
        total = total + pairs[i].len() as u128;
        if total > usize::MAX as u128 {
            proof {
                lemma_total_len_prefix(ps, i + 1);
            }
            return false;
        }
        if pairs[i].len() > width {
            width = pairs[i].len();
        }
        i = i + 1;
    }
    assert(ps.subrange(0, i as int) =~= ps);
    let a: u128 = pairs.len() as u128;
    let w: u128 = width as u128;
    assert(a * w <= u128::MAX) by (nonlinear_arith)
        requires
            a <= 0xffff_ffff_ffff_ffffu128,
            w <= 0xffff_ffff_ffff_ffffu128,
    ;
    let product: u128 = a * w;
    product <= usize::MAX as u128
}

/// The batch fits in memory: the tokens, and the padded batch, can be
/// counted in a `usize`.
pub open spec fn batch_fits(ps: Seq<Seq<u32>>) -> bool {
    total_len(ps) <= usize::MAX && ps.len() * max_len(ps) <= usize::MAX
}

/// What building a batch from encoded ids gives: an error for query ids
/// that are empty or too long to extend, or for a batch too large for
/// memory, else the padded batch of the pairs.
pub open spec fn batch_result(r: Result<RerankBatch, String>, q: Seq<u32>, ds: Seq<Seq<u32>>, max_seq: nat, sep: u32, pad: u32) -> bool {
    if q.len() == 0 {
        r matches Err(e) && e@ == "query 编码后为空"@
    } else if q.len() >= usize::MAX {
        r matches Err(e) && e@ == "query 编码后过长"@
    } else if !batch_fits(all_pairs(q, ds, max_seq, sep)) {
        r matches Err(e) && e@ == "batch 过大"@
    } else {
        r matches Ok(b) && batch_matches(b, q, ds, max_seq, sep, pad)
    }
}

/// Build the padded model input from the query's ids and each document's
/// ids; see `batch_result` for every outcome.
pub fn batch_from_encodings(q_ids: &Vec<u32>, doc_ids: &Vec<Vec<u32>>, max_seq: usize, sep: u32, pad: u32) -> (r: Result<RerankBatch, String>)
    ensures
        batch_result(r, q_ids@, doc_ids@.map_values(|d: Vec<u32>| d@), max_seq as nat, sep, pad),
{
    if q_ids.len() == 0 {
        return Err("query 编码后为空".to_string());
    }
    if q_ids.len() == usize::MAX {
        return Err("query 编码后过长".to_string());
    }
    let pairs = build_pairs(q_ids.as_slice(), doc_ids, max_seq, sep);
    if !sum_fits(&pairs) {
        return Err("batch 过大".to_string());
    }
    let b = pad_batch(&pairs, pad);
    proof {
        let ds = doc_ids@.map_values(|d: Vec<u32>| d@);
        assert(batch_matches(b, q_ids@, ds, max_seq as nat, sep, pad));
    }
    Ok(b)
}

/// The outcomes of encoding a query and its documents, in that order, and
/// building the batch: the first failed encoding is reported with its
/// message, and where every encoding succeeds the result is that of
/// `batch_result` on the ids. An empty or overlong query stops before any
/// document is encoded.
pub open spec fn rerank_outcome(
    r: Result<RerankBatch, String>,
    tokenizer: tokenizers::Tokenizer,
    query: Seq<char>,
    docs: Seq<Seq<char>>,
    max_seq: nat,
    sep: u32,
    pad: u32,
) -> bool {
    ||| exists|qe: Seq<char>| #[trigger] encodings_of(tokenizer, query, true).contains(Err(qe))
        && (r matches Err(e) && e@ == "query 编码失败: "@ + qe)
    ||| exists|q: Seq<u32>| #[trigger] encodings_of(tokenizer, query, true).contains(Ok(q)) && {
        ||| (q.len() == 0 || q.len() >= usize::MAX) && batch_result(r, q, Seq::empty(), max_seq, sep, pad)
        ||| 0 < q.len() < usize::MAX && exists|ds: Seq<Seq<u32>>, de: Seq<char>| {
            &&& ds.len() < docs.len()
            &&& forall|i: int| 0 <= i < ds.len() ==> encodings_of(tokenizer, docs[i], false).contains(Ok(#[trigger] ds[i]))
            &&& #[trigger] encodings_of(tokenizer, docs[ds.len() as int], false).contains(Err(de))
            &&& (r matches Err(e) && e@ == "document 编码失败: "@ + de)
        }
        ||| 0 < q.len() < usize::MAX && exists|ds: Seq<Seq<u32>>| {
            &&& ds.len() == docs.len()
            &&& forall|i: int| 0 <= i < ds.len() ==> encodings_of(tokenizer, docs[i], false).contains(Ok(#[trigger] ds[i]))
            &&& #[trigger] batch_result(r, q, ds, max_seq, sep, pad)
        }
    }
}

/// Encode a query and its documents and build the padded model input. No
/// documents give an empty batch without encoding anything; otherwise the
/// query is encoded with special tokens, each document without, and the
/// result is as `rerank_outcome` says.
pub fn prepare_rerank_batch(
    tokenizer: &tokenizers::Tokenizer,
    query: &str,
    documents: &Vec<String>,
    max_seq: usize,
    sep: u32,
    pad: u32,
) -> (r: Result<RerankBatch, String>)
    ensures
        documents.len() == 0 ==> (r matches Ok(b) && b.batch_size == 0 && b.total_tokens == 0 && b.max_len == 0
            && b.input_ids@.len() == 0),
        documents.len() > 0 ==> rerank_outcome(
            r,
            *tokenizer,
            query@,
            documents@.map_values(|d: String| d@),
            max_seq as nat,
            sep,
            pad,
        ),
{
    if documents.len() == 0 {
        return Ok(RerankBatch {
            input_ids: Vec::new(),
            attention_mask: Vec::new(),
            token_type_ids: Vec::new(),
            batch_size: 0,
            max_len: 0,
            total_tokens: 0,
        });
    }
    let ghost docs = documents@.map_values(|d: String| d@);
    let q_ids = match encode_ids(tokenizer, query, true) {
        Ok(ids) => ids,
        Err(e) => {
            let r = Err(message("query 编码失败: ", e.as_str()));
            assert(encodings_of(*tokenizer, query@, true).contains(Err(e@)));
            return r;
        },
    };
    assert(encodings_of(*tokenizer, query@, true).contains(Ok(q_ids@)));
    if q_ids.len() == 0 || q_ids.len() == usize::MAX {
        let empty: Vec<Vec<u32>> = Vec::new();
        let r = batch_from_encodings(&q_ids, &empty, max_seq, sep, pad);
        assert(empty@.map_values(|d: Vec<u32>| d@) =~= Seq::<Seq<u32>>::empty());
        return r;
    }
    let mut doc_ids: Vec<Vec<u32>> = Vec::new();
    let mut i: usize = 0;
    while i < documents.len()
        invariant
            i <= documents.len(),
            doc_ids.len() == i,
            docs == documents@.map_values(|d: String| d@),
            encodings_of(*tokenizer, query@, true).contains(Ok(q_ids@)),
            0 < q_ids.len() < usize::MAX,
            forall|k: int| 0 <= k < i ==> encodings_of(*tokenizer, docs[k], false).contains(Ok(#[trigger] doc_ids@[k]@)),
        decreases documents.len() - i,
    {
        match encode_ids(tokenizer, documents[i].as_str(), false) {
            Ok(ids) => {
                doc_ids.push(ids);
            },
            Err(e) => {
                let r = Err(message("document 编码失败: ", e.as_str()));
                proof {
                    let ds = doc_ids@.map_values(|d: Vec<u32>| d@);
                    assert(ds.len() == i);
                    assert(docs[ds.len() as int] == documents@[i as int]@);
                    assert(forall|k: int| 0 <= k < ds.len() ==> encodings_of(*tokenizer, docs[k], false).contains(Ok(#[trigger] ds[k]))) by {
                        assert forall|k: int| 0 <= k < ds.len() implies encodings_of(*tokenizer, docs[k], false).contains(Ok(#[trigger] ds[k])) by {
                            assert(ds[k] == doc_ids@[k]@);
                        }
                    }
                    assert(encodings_of(*tokenizer, docs[ds.len() as int], false).contains(Err(e@)));
                }
                return r;
            },
        }
        i = i + 1;
    }
    let r = batch_from_encodings(&q_ids, &doc_ids, max_seq, sep, pad);
    proof {
        let ds = doc_ids@.map_values(|d: Vec<u32>| d@);
        assert(ds.len() == docs.len());
        assert forall|k: int| 0 <= k < ds.len() implies encodings_of(*tokenizer, docs[k], false).contains(Ok(#[trigger] ds[k])) by {
            assert(ds[k] == doc_ids@[k]@);
        }
        assert(batch_result(r, q_ids@, ds, max_seq as nat, sep, pad));
    }
    r
}

} // verus!
