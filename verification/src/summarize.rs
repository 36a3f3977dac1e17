//! The summarization service's own decisions: input checks, language
//! detection, the task prefix, the input token budget, generation lengths
//! and the finished summary. Token generation itself runs outside.

use vstd::prelude::*;
use crate::text;
use crate::text::{chars_eq, push_all, str_chars, string_from_chars};

verus! {

/// Settings of the summarization service.
pub struct TextSummarizeServiceConfig {
    pub model_path: String,
    pub use_cuda: bool,
    pub max_input_tokens: usize,
    pub default_max_length: usize,
    pub default_min_length: usize,
    pub prefix_zh: String,
    pub prefix_en: String,
    pub dtype: String,
}

impl Default for TextSummarizeServiceConfig {
    fn default() -> (r: TextSummarizeServiceConfig)
        ensures
            r.model_path@ == "laoflch_db_model/flan-t5-small"@,
            !r.use_cuda,
            r.max_input_tokens == 1024,
            r.default_max_length == 150,
            r.default_min_length == 40,
            r.prefix_zh@ == "请用中文总结以下内容：\n"@,
            r.prefix_en@ == "summarize: "@,
            r.dtype@ == "f32"@,
    {
        TextSummarizeServiceConfig {
            model_path: "laoflch_db_model/flan-t5-small".to_string(),
            use_cuda: false,
            max_input_tokens: 1024,
            default_max_length: 150,
            default_min_length: 40,
            prefix_zh: "请用中文总结以下内容：\n".to_string(),
            prefix_en: "summarize: ".to_string(),
            dtype: "f32".to_string(),
        }
    }
}

/// Whether `char::is_alphabetic` holds of `c` (Unicode `Alphabetic`).
pub uninterp spec fn alphabetic(c: char) -> bool;

/// Calls `char::is_alphabetic`. Claimed: a function of the character.
#[verifier::external_body]
fn is_alphabetic(c: char) -> (r: bool)
    ensures
        r == alphabetic(c),
{
    c.is_alphabetic()
}

/// A CJK unified ideograph (U+4E00 to U+9FFF).
pub open spec fn is_cjk(c: char) -> bool {
    '\u{4e00}' <= c && c <= '\u{9fff}'
}

/// The number of alphabetic characters of `s`.
pub open spec fn alphabetic_count(s: Seq<char>) -> nat
    decreases s.len(),
{
    if s.len() == 0 {
        0
    } else {
        alphabetic_count(s.drop_last()) + if alphabetic(s.last()) { 1nat } else { 0nat }
    }
}

/// The number of alphabetic CJK characters of `s`.
pub open spec fn cjk_count(s: Seq<char>) -> nat
    decreases s.len(),
{
    if s.len() == 0 {
        0
    } else {
        cjk_count(s.drop_last()) + if alphabetic(s.last()) && is_cjk(s.last()) { 1nat } else { 0nat }
    }
}

/// `zh` when more than 30% of the alphabetic characters are CJK ideographs,
/// else `en` (also for text without alphabetic characters).
pub open spec fn spec_detect_language(s: Seq<char>) -> Seq<char> {
    if alphabetic_count(s) > 0 && cjk_count(s) * 10 > alphabetic_count(s) * 3 {
        "zh"@
    } else {
        "en"@
    }
}

proof fn lemma_counts_bounded(s: Seq<char>)
    ensures
        cjk_count(s) <= alphabetic_count(s) <= s.len(),
    decreases s.len(),
{
    if s.len() > 0 {
        lemma_counts_bounded(s.drop_last());
    }
}

/// Detect the language of a text. The ratio is compared exactly, in
/// integers that cannot overflow for texts of up to 10^18 characters (far
/// beyond what memory holds). Up to 10^15 characters the exact comparison
/// also agrees with a floating-point ratio; beyond that the two may differ
/// by rounding, and this function keeps the exact one.
pub fn detect_language(text: &str) -> (r: String)
    requires
        text@.len() <= 1_000_000_000_000_000,
    ensures
        r@ == spec_detect_language(text@),
{
    let c = str_chars(text);
    let mut zh: u64 = 0;
    let mut total: u64 = 0;
    let mut i: usize = 0;
    while i < c.len()
        invariant
            i <= c.len(),
            c@ == text@,
            c@.len() <= 1_000_000_000_000_000,
            zh == cjk_count(c@.subrange(0, i as int)),
            total == alphabetic_count(c@.subrange(0, i as int)),
        decreases c.len() - i,
    {
        let ghost next = c@.subrange(0, i + 1);
        assert(next.drop_last() =~= c@.subrange(0, i as int));
        assert(next.last() == c@[i as int]);
        proof {
            lemma_counts_bounded(c@.subrange(0, i as int));
        }
        if is_alphabetic(c[i]) {
            total = total + 1;
            if '\u{4e00}' <= c[i] && c[i] <= '\u{9fff}' {
                zh = zh + 1;
            }
        }
        i = i + 1;
    }
    assert(c@.subrange(0, i as int) =~= c@);
    proof {
        lemma_counts_bounded(c@);
    }
    if total > 0 && zh * 10 > total * 3 {
        "zh".to_string()
    } else {
        "en".to_string()
    }
}

/// The language to summarize in: `zh` or `en` when asked for, else the
/// detected one.
pub open spec fn spec_target_language(requested: Option<Seq<char>>, detected: Seq<char>) -> Seq<char> {
    match requested {
        Some(l) => if l == "zh"@ || l == "en"@ {
            l
        } else {
            detected
        },
        None => detected,
    }
}

/// Choose the output language.
pub fn target_language(requested: Option<&str>, detected: &str) -> (r: String)
    ensures
        r@ == spec_target_language(
            match requested {
                Some(l) => Some(l@),
                None => None::<Seq<char>>,
            },
            detected@,
        ),
{
    match requested {
        Some(l) => {
            let lc = str_chars(l);
            if chars_eq(&lc, &str_chars("zh")) || chars_eq(&lc, &str_chars("en")) {
                string_from_chars(&lc)
            } else {
                string_from_chars(&str_chars(detected))
            }
        },
        None => string_from_chars(&str_chars(detected)),
    }
}

/// The model input: the task prefix of the target language, then the text.
pub fn summarize_input(config: &TextSummarizeServiceConfig, target: &str, text: &str) -> (r: String)
    ensures
        r@ == (if target@ == "zh"@ { config.prefix_zh@ } else { config.prefix_en@ }) + text@,
{
    let mut out = if chars_eq(&str_chars(target), &str_chars("zh")) {
        str_chars(config.prefix_zh.as_str())
    } else {
        str_chars(config.prefix_en.as_str())
    };
    push_all(&mut out, &str_chars(text));
    string_from_chars(&out)
}

/// Keep at most `max` input tokens.
pub fn truncate_tokens(ids: &mut Vec<u32>, max: usize)
    ensures
        final(ids)@ == (if old(ids)@.len() > max { old(ids)@.subrange(0, max as int) } else { old(ids)@ }),
{
    if ids.len() > max {
        ids.truncate(max);
    }
}

/// The generation bounds: a positive request wins, otherwise the configured
/// default (for the maximum and the minimum alike).
pub fn generation_lengths(config: &TextSummarizeServiceConfig, max_length: i32, min_length: i32) -> (r: (usize, usize))
    ensures
        r.0 == (if max_length > 0 { max_length as usize } else { config.default_max_length }),
        r.1 == (if min_length > 0 { min_length as usize } else { config.default_min_length }),
{
    let max_len = if max_length > 0 { max_length as usize } else { config.default_max_length };
    let min_len = if min_length > 0 { min_length as usize } else { config.default_min_length };
    (max_len, min_len)
}

/// Whether the next token is sampled (the temperature is above zero and
/// the minimum length is reached) rather than chosen greedily.
pub fn samples_next(temperature_positive: bool, produced: usize, min_len: usize) -> (r: bool)
    ensures
        r == (temperature_positive && produced >= min_len),
{
    temperature_positive && produced >= min_len
}

/// Record a generated token. Generation goes on while the token is not the
/// end token and fewer than `max_len` tokens are out.
pub fn push_generated(output: &mut Vec<u32>, token: u32, eos: u32, max_len: usize) -> (go_on: bool)
    requires
        old(output).len() < max_len,
    ensures
        final(output)@ == old(output)@.push(token),
        go_on == (token != eos && final(output).len() < max_len),
{
    output.push(token);
    token != eos && output.len() < max_len
}

/// A request is refused when its text is only white space.
pub fn check_summarize_text(text: &str) -> (r: Result<(), String>)
    ensures
        r is Ok <==> text::trim_spec(text@).len() > 0,
        r matches Err(e) ==> e@ == "输入文本不能为空"@,
{
    if text::trim_chars(&str_chars(text)).len() == 0 {
        Err("输入文本不能为空".to_string())
    } else {
        Ok(())
    }
}

/// The finished summary (decoded text trimmed) and its length in characters.
pub fn finish_summary(decoded: &str) -> (r: (String, usize))
    ensures
        r.0@ == text::trim_spec(decoded@),
        r.1 == text::trim_spec(decoded@).len(),
{
    let t = text::trim_chars(&str_chars(decoded));
    let n = t.len();
    (string_from_chars(&t), n)
}

} // verus!
