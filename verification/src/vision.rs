//! The embedding models' own configuration logic: which model directories
//! are loaded, the layout facts of a vision tower, and how checkpoint weight
//! names are mapped. Running the models happens outside.

use vstd::prelude::*;
use crate::text;
use crate::text::{chars_eq, push_all, str_chars, string_from_chars};

verus! {

broadcast use text::lemma_chars_deep_view;

/// Default rotary grid side of an EVA-style vision tower.
pub fn default_pt_hw_seq_len() -> (r: usize)
    ensures
        r == 16,
{
    16
}

/// The integer and naming facts of a vision tower's configuration.
pub struct VisionLayout {
    pub image_size: usize,
    pub patch_size: usize,
    pub model_type: Option<String>,
    pub weight_prefix: Option<String>,
    pub pt_hw_seq_len: usize,
    pub rope_embeddings: bool,
    pub naive_swiglu: bool,
    pub subln: bool,
}

impl VisionLayout {
    /// The prefix stripped from weight names (empty when none is set).
    pub fn weight_prefix(&self) -> (r: String)
        ensures
            r@ == match self.weight_prefix {
                Some(p) => p@,
                None => Seq::<char>::empty(),
            },
    {
        match &self.weight_prefix {
            Some(p) => string_from_chars(&str_chars(p.as_str())),
            None => String::new(),
        }
    }

    /// Whether the tower is EVA02-style: SwiGLU, rotary embeddings, sub-layer
    /// norms, or model type `jina_clip_vision`.
    pub fn is_eva_style(&self) -> (r: bool)
        ensures
            r == (self.naive_swiglu || self.rope_embeddings || self.subln || match self.model_type {
                Some(t) => t@ == "jina_clip_vision"@,
                None => false,
            }),
    {
        let vtype = match &self.model_type {
            Some(t) => chars_eq(&str_chars(t.as_str()), &str_chars("jina_clip_vision")),
            None => {
                proof {
                    reveal_strlit("jina_clip_vision");
                }
                false
            },
        };
        self.naive_swiglu || self.rope_embeddings || self.subln || vtype
    }

    /// Patches per side.
    pub fn grid_size(&self) -> (r: usize)
        requires
            self.patch_size > 0,
        ensures
            r == self.image_size / self.patch_size,
    {
        self.image_size / self.patch_size
    }
}

// ---------------------------------------------------------------------------
// Weight names
// ---------------------------------------------------------------------------

/// Every occurrence of `from` (non-empty) replaced by `to`, left to right,
/// as `str::replace` does.
pub open spec fn replace_all(s: Seq<char>, from: Seq<char>, to: Seq<char>) -> Seq<char> {
    text::join_with(text::split_by(s, from), to)
}

fn replace_chars(s: &[char], from: &str, to: &str) -> (r: Vec<char>)
    requires
        from@.len() > 0,
    ensures
        r@ == replace_all(s@, from@, to@),
{
    let parts = text::split_chars(s, &str_chars(from));
    text::join_chars(&parts, &str_chars(to))
}

/// The attention and norm renamings shared by the CLIP-style and
/// SigLIP-style checkpoints, in the order they are applied.
pub open spec fn renamed(k: Seq<char>) -> Seq<char> {
    let k1 = replace_all(k, "self_attn.q_proj"@, "attention.query"@);
    let k2 = replace_all(k1, "self_attn.k_proj"@, "attention.key"@);
    let k3 = replace_all(k2, "self_attn.v_proj"@, "attention.value"@);
    let k4 = replace_all(k3, "self_attn.out_proj"@, "attention.output"@);
    let k5 = replace_all(k4, "layer_norm1"@, "attention_ln"@);
    let k6 = replace_all(k5, "layer_norm2"@, "mlp_ln"@);
    let k7 = replace_all(k6, "pre_layernorm"@, "pre_ln"@);
    let k8 = replace_all(k7, "post_layernorm"@, "post_ln"@);
    let k9 = replace_all(k8, "class_embedding"@, "cls_token"@);
    replace_all(k9, "position_embedding"@, "pos_embed"@)
}

fn rename(k: &[char]) -> (r: Vec<char>)
    ensures
        r@ == renamed(k@),
{
    proof {
        reveal_strlit("self_attn.q_proj");
        reveal_strlit("self_attn.k_proj");
        reveal_strlit("self_attn.v_proj");
        reveal_strlit("self_attn.out_proj");
        reveal_strlit("layer_norm1");
        reveal_strlit("layer_norm2");
        reveal_strlit("pre_layernorm");
        reveal_strlit("post_layernorm");
        reveal_strlit("class_embedding");
        reveal_strlit("position_embedding");
    }
    let k1 = replace_chars(k, "self_attn.q_proj", "attention.query");
    let k2 = replace_chars(&k1, "self_attn.k_proj", "attention.key");
    let k3 = replace_chars(&k2, "self_attn.v_proj", "attention.value");
    let k4 = replace_chars(&k3, "self_attn.out_proj", "attention.output");
    let k5 = replace_chars(&k4, "layer_norm1", "attention_ln");
    let k6 = replace_chars(&k5, "layer_norm2", "mlp_ln");
    let k7 = replace_chars(&k6, "pre_layernorm", "pre_ln");
    let k8 = replace_chars(&k7, "post_layernorm", "post_ln");
    let k9 = replace_chars(&k8, "class_embedding", "cls_token");
    replace_chars(&k9, "position_embedding", "pos_embed")
}

/// The name a checkpoint weight gets, or `None` when it is dropped: the
/// shared renamings for CLIP-style (`jina-clip-v2`, `jina_clip_vision`) and
/// SigLIP-style (`siglip`, `siglip_vision_model`) models, then
/// `patch_embed.conv.` at the start shortened to `patch_embed.`; the
/// resulting `patch_embed.bias` is dropped.
pub open spec fn spec_map_weight_key(key: Seq<char>, model_type: Seq<char>) -> Option<Seq<char>> {
    let clip = model_type == "jina-clip-v2"@ || model_type == "jina_clip_vision"@;
    let siglip = model_type == "siglip"@ || model_type == "siglip_vision_model"@;
    let a = if clip { renamed(key) } else { key };
    let b = if siglip { renamed(a) } else { a };
    let c = if text::has_prefix(b, "patch_embed.conv."@) {
        "patch_embed."@ + b.subrange("patch_embed.conv."@.len() as int, b.len() as int)
    } else {
        b
    };
    if c == "patch_embed.bias"@ {
        None
    } else {
        Some(c)
    }
}

/// Map one checkpoint weight name.
pub fn map_weight_key(key: &str, model_type: &str) -> (r: Option<String>)
    ensures
        match r {
            Some(k) => spec_map_weight_key(key@, model_type@) == Some(k@),
            None => spec_map_weight_key(key@, model_type@) == None::<Seq<char>>,
        },
{
    let m = str_chars(model_type);
    let clip = chars_eq(&m, &str_chars("jina-clip-v2")) || chars_eq(&m, &str_chars("jina_clip_vision"));
    let siglip = chars_eq(&m, &str_chars("siglip")) || chars_eq(&m, &str_chars("siglip_vision_model"));
    let k0 = str_chars(key);
    let a = if clip { rename(&k0) } else { k0 };
    let b = if siglip { rename(&a) } else { a };
    let conv = str_chars("patch_embed.conv.");
    let c = if text::starts_with(&b, &conv) {
        let mut n = str_chars("patch_embed.");
        push_all(&mut n, &text::chars_from(&b, conv.len()));
        n
    } else {
        b
    };
    if chars_eq(&c, &str_chars("patch_embed.bias")) {
        None
    } else {
        Some(string_from_chars(&c))
    }
}

// ---------------------------------------------------------------------------
// Model directories
// ---------------------------------------------------------------------------

/// Whether a model directory is loaded at start-up: all of them without a
/// list, none with an empty list, else those whose lower-cased name is in
/// the lower-cased list.
pub open spec fn spec_should_load(name: Seq<char>, targets: Option<Seq<String>>) -> bool {
    match targets {
        None => true,
        Some(t) => name_listed(t, name),
    }
}

/// Some entry of `t`, lower-cased, equals `name` lower-cased.
pub open spec fn name_listed(t: Seq<String>, name: Seq<char>) -> bool {
    exists|k: int| 0 <= k < t.len() && #[trigger] text::lowercase_of(t[k]@) == text::lowercase_of(name)
}

/// Decide whether to load a model directory.
pub fn should_load_model(name: &str, targets: &Option<Vec<String>>) -> (r: bool)
    ensures
        r == spec_should_load(name@, match targets {
            Some(t) => Some(t@),
            None => None::<Seq<String>>,
        }),
{
    match targets {
        None => true,
        Some(t) => {
            let n = text::to_lowercase_chars(&str_chars(name));
            let mut i: usize = 0;
            while i < t.len()
                invariant
                    i <= t.len(),
                    *targets == Some(*t),
                    n@ == text::lowercase_of(name@),
                    forall|k: int| 0 <= k < i ==> text::lowercase_of(#[trigger] t@[k]@) != n@,
                decreases t.len() - i,
            {
                let l = text::to_lowercase_chars(&str_chars(t[i].as_str()));
                if chars_eq(&l, &n) {
                    assert(text::lowercase_of(t@[i as int]@) == text::lowercase_of(name@));
                    assert(name_listed(t@, name@));
                    return true;
                }
                i = i + 1;
            }
            false
        },
    }
}

/// A model directory is usable when it holds a configuration, a tokenizer
/// and weights.
pub fn model_files_complete(has_config: bool, has_tokenizer: bool, has_weights: bool) -> (r: bool)
    ensures
        r == (has_config && has_tokenizer && has_weights),
{
    has_config && has_tokenizer && has_weights
}

/// `共 {n} 个可加载模型`.
pub fn loadable_models_message(n: usize) -> (r: String)
    ensures
        r@ == "共 "@ + text::decimal_seq(n as nat) + " 个可加载模型"@,
{
    let mut m = str_chars("共 ");
    push_all(&mut m, &text::u64_to_decimal(n as u64));
    push_all(&mut m, &str_chars(" 个可加载模型"));
    string_from_chars(&m)
}

} // verus!
