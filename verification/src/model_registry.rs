//! The embedding service's registry of loaded models: which models are
//! registered under which names, what loading, unloading and asking about a
//! model answer, and the service's request checks and messages. Loading
//! weights and computing vectors happens outside.

use vstd::prelude::*;
use vstd::hash_map::StringHashMap;
use crate::text;
use crate::text::{push_all, str_chars, string_from_chars};
use crate::text_index::{distinct_names, find_name};
use crate::vision::{model_files_complete, should_load_model, spec_should_load};

verus! {

broadcast use text::lemma_chars_deep_view;

/// What the registry records of a model.
pub struct ModelEntry {
    pub embedding_dim: usize,
    pub model_path: String,
    pub loaded: bool,
    pub device: String,
}

impl ModelEntry {
    /// A copy of the record.
    pub fn duplicate(&self) -> (r: ModelEntry)
        ensures
            r == *self,
    {
        ModelEntry {
            embedding_dim: self.embedding_dim,
            model_path: self.model_path.clone(),
            loaded: self.loaded,
            device: self.device.clone(),
        }
    }
}

/// `{head}'{name}'{tail}`.
pub open spec fn quoted(head: Seq<char>, name: Seq<char>, tail: Seq<char>) -> Seq<char> {
    head + seq!['\''] + name + seq!['\''] + tail
}

fn quoted_message(head: &str, name: &str, tail: &str) -> (r: String)
    ensures
        r@ == quoted(head@, name@, tail@),
{
    let mut m = str_chars(head);
    m.push('\'');
    push_all(&mut m, &str_chars(name));
    m.push('\'');
    push_all(&mut m, &str_chars(tail));
    string_from_chars(&m)
}

/// The models registered by name, and their names in registration order.
pub struct ModelRegistry {
    models: StringHashMap<ModelEntry>,
    names: Vec<String>,
}

impl ModelRegistry {
    /// The registered models.
    pub closed spec fn models(&self) -> Map<Seq<char>, ModelEntry> {
        self.models@
    }

    closed spec fn name_seq(&self) -> Seq<Seq<char>> {
        self.names@.map_values(|s: String| s@)
    }

    /// Each registered name occurs once in the name list, and nothing else.
    pub closed spec fn wf(&self) -> bool {
        &&& distinct_names(self.name_seq())
        &&& forall|k: Seq<char>| self.models@.contains_key(k) <==> self.name_seq().contains(k)
    }

    /// A registry without models.
    pub fn new() -> (r: ModelRegistry)
        ensures
            r.wf(),
            r.models() == Map::<Seq<char>, ModelEntry>::empty(),
    {
        let r = ModelRegistry { models: StringHashMap::new(), names: Vec::new() };
        assert(r.name_seq() =~= Seq::<Seq<char>>::empty());
        r
    }

    /// Register a loaded model under a name, replacing an earlier one.
    pub fn register(&mut self, name: &str, entry: ModelEntry)
        requires
            old(self).wf(),
        ensures
            final(self).wf(),
            final(self).models() == old(self).models().insert(name@, entry),
    {
        let ghost old_names = self.name_seq();
        let present = self.models.contains_key(name);
        self.models.insert(name.to_string(), entry);
        if !present {
            self.names.push(name.to_string());
            proof {
                assert(self.name_seq() =~= old_names.push(name@));
                assert(!old_names.contains(name@));
                assert(distinct_names(self.name_seq())) by {
                    let ns = self.name_seq();
                    assert forall|i: int, j: int| 0 <= i < j < ns.len() implies #[trigger] ns[i] != #[trigger] ns[j] by {
                        if j == ns.len() - 1 {
                            assert(ns[i] == old_names[i]);
                        } else {
                            assert(ns[i] == old_names[i] && ns[j] == old_names[j]);
                        }
                    }
                }
                assert forall|k: Seq<char>| self.models@.contains_key(k) <==> self.name_seq().contains(k) by {
                    if k == name@ {
                        assert(self.name_seq()[old_names.len() as int] == k);
                    } else {
                        if old_names.contains(k) {
                            let i = choose|i: int| 0 <= i < old_names.len() && old_names[i] == k;
                            assert(self.name_seq()[i] == k);
                        }
                        if self.name_seq().contains(k) {
                            let i = choose|i: int| 0 <= i < self.name_seq().len() && self.name_seq()[i] == k;
                            assert(old_names[i] == k);
                        }
                    }
                }
            }
        } else {
            assert(self.name_seq() == old_names);
        }
    }

    /// Unload a model: it leaves the registry with the message
    /// `模型 '{name}' 已成功卸载`; an unknown name is refused with
    /// `模型 '{name}' 未找到，无法卸载` and nothing changes.
    pub fn unload(&mut self, name: &str) -> (r: Result<String, String>)
        requires
            old(self).wf(),
        ensures
            final(self).wf(),
            final(self).models() == old(self).models().remove(name@),
            match r {
                Ok(m) => old(self).models().contains_key(name@) && m@ == quoted("模型 "@, name@, " 已成功卸载"@),
                Err(e) => !old(self).models().contains_key(name@) && e@ == quoted("模型 "@, name@, " 未找到，无法卸载"@),
            },
    {
        if !self.models.contains_key(name) {
            assert(self.models() =~= old(self).models().remove(name@));
            return Err(quoted_message("模型 ", name, " 未找到，无法卸载"));
        }
        let ghost old_names = self.name_seq();
        self.models.remove(name);
        match find_name(&self.names, name) {
            Some(i) => {
                self.names.remove(i);
                proof {
                    let ns = self.name_seq();
                    assert(ns =~= old_names.remove(i as int));
                    assert(distinct_names(ns)) by {
                        assert forall|a: int, b: int| 0 <= a < b < ns.len() implies #[trigger] ns[a] != #[trigger] ns[b] by {
                            let a2 = if a < i { a } else { a + 1 };
                            let b2 = if b < i { b } else { b + 1 };
                            assert(ns[a] == old_names[a2] && ns[b] == old_names[b2]);
                        }
                    }
                    assert forall|k: Seq<char>| self.models@.contains_key(k) <==> ns.contains(k) by {
                        if k == name@ {
                            if ns.contains(k) {
                                let j = choose|j: int| 0 <= j < ns.len() && ns[j] == k;
                                let j2 = if j < i { j } else { j + 1 };
                                assert(old_names[j2] == k);
                                assert(old_names[i as int] == k);
                            }
                        } else {
                            if old_names.contains(k) {
                                let j = choose|j: int| 0 <= j < old_names.len() && old_names[j] == k;
                                assert(j != i);
                                let j2 = if j < i { j } else { j - 1 };
                                assert(ns[j2] == k);
                            }
                            if ns.contains(k) {
                                let j = choose|j: int| 0 <= j < ns.len() && ns[j] == k;
                                let j2 = if j < i { j } else { j + 1 };
                                assert(old_names[j2] == k);
                            }
                        }
                    }
                }
            },
            None => {
                proof {
                    assert(old_names.contains(name@));
                    let j = choose|j: int| 0 <= j < old_names.len() && old_names[j] == name@;
                    assert(self.names@[j]@ == name@);
                }
            },
        }
        Ok(quoted_message("模型 ", name, " 已成功卸载"))
    }

    /// What is recorded of a model; an unknown name is refused with
    /// `模型 '{name}' 未找到`.
    pub fn model_info(&self, name: &str) -> (r: Result<ModelEntry, String>)
        ensures
            match r {
                Ok(m) => self.models().contains_key(name@) && m == self.models()[name@],
                Err(e) => !self.models().contains_key(name@) && e@ == quoted("模型 "@, name@, " 未找到"@),
            },
    {
        match self.models.get(name) {
            Some(m) => Ok(m.duplicate()),
            None => Err(quoted_message("模型 ", name, " 未找到")),
        }
    }

    /// The model an embedding request uses and its dimension: it must be
    /// registered (`模型 '{name}' 未加载，请先调用 LoadModel`) and fully loaded
    /// (`模型 '{name}' 未正确加载完成`).
    pub fn embedding_model(&self, name: &str) -> (r: Result<usize, String>)
        ensures
            match r {
                Ok(dim) => self.models().contains_key(name@) && self.models()[name@].loaded
                    && dim == self.models()[name@].embedding_dim,
                Err(e) => if !self.models().contains_key(name@) {
                    e@ == quoted("模型 "@, name@, " 未加载，请先调用 LoadModel"@)
                } else {
                    !self.models()[name@].loaded && e@ == quoted("模型 "@, name@, " 未正确加载完成"@)
                },
            },
    {
        match self.models.get(name) {
            None => Err(quoted_message("模型 ", name, " 未加载，请先调用 LoadModel")),
            Some(m) => {
                if m.loaded {
                    Ok(m.embedding_dim)
                } else {
                    Err(quoted_message("模型 ", name, " 未正确加载完成"))
                }
            },
        }
    }

    /// The registered names, each once.
    pub fn list_names(&self) -> (r: Vec<String>)
        requires
            self.wf(),
        ensures
            distinct_names(r@.map_values(|s: String| s@)),
            forall|k: Seq<char>| self.models().contains_key(k) <==> r@.map_values(|s: String| s@).contains(k),
    {
        let r = self.names.clone();
        assert(r@.map_values(|s: String| s@) =~= self.name_seq());
        r
    }
}

/// The dimension a model found at start-up is registered with: the
/// `hidden_size` of its configuration, else 384.
pub fn discovered_dim(hidden_size: Option<u64>) -> (r: usize)
    ensures
        r == match hidden_size {
            Some(v) => v as usize,
            None => 384,
        },
{
    match hidden_size {
        Some(v) => v as usize,
        None => 384,
    }
}

/// The load list as character sequences.
pub open spec fn targets_view(targets: Option<Vec<String>>) -> Option<Seq<String>> {
    match targets {
        Some(t) => Some(t@),
        None => None,
    }
}

impl ModelRegistry {
    /// Register a model directory found at start-up when the load list
    /// takes it and it holds a configuration, a tokenizer and weights; it is
    /// registered even when its weights did not load (then not `loaded`).
    /// Gives whether it was registered.
    pub fn register_discovered(
        &mut self,
        name: &str,
        targets: &Option<Vec<String>>,
        has_config: bool,
        has_tokenizer: bool,
        has_weights: bool,
        hidden_size: Option<u64>,
        path: &str,
        loaded: bool,
        device: &str,
    ) -> (registered: bool)
        requires
            old(self).wf(),
        ensures
            final(self).wf(),
            registered == (spec_should_load(name@, targets_view(*targets)) && has_config && has_tokenizer
                && has_weights),
            registered ==> {
                &&& final(self).models() == old(self).models().insert(name@, final(self).models()[name@])
                &&& final(self).models()[name@].embedding_dim == match hidden_size {
                    Some(v) => v as usize,
                    None => 384usize,
                }
                &&& final(self).models()[name@].model_path@ == path@
                &&& final(self).models()[name@].loaded == loaded
                &&& final(self).models()[name@].device@ == device@
            },
            !registered ==> final(self).models() == old(self).models(),
    {
        if !should_load_model(name, targets) {
            return false;
        }
        if !model_files_complete(has_config, has_tokenizer, has_weights) {
            return false;
        }
        let entry = ModelEntry {
            embedding_dim: discovered_dim(hidden_size),
            model_path: path.to_string(),
            loaded,
            device: device.to_string(),
        };
        self.register(name, entry);
        true
    }
}

/// A registered model can be asked about until it is unloaded: what
/// registering recorded is what `model_info` gives back, and after an
/// unload the name is unknown.
pub proof fn law_register_then_query(m: Map<Seq<char>, ModelEntry>, name: Seq<char>, e: ModelEntry)
    ensures
        m.insert(name, e).contains_key(name),
        m.insert(name, e)[name] == e,
        !m.insert(name, e).remove(name).contains_key(name),
{
}

/// Check a load request before any file is read: the name must not be
/// empty (`模型名称不能为空`) and the path must be a directory
/// (`模型路径 '{path}' 不存在或不是目录`).
pub fn check_load_request(name: &str, path: &str, path_is_dir: bool) -> (r: Result<(), String>)
    ensures
        match r {
            Ok(()) => name@.len() > 0 && path_is_dir,
            Err(e) => if name@.len() == 0 {
                e@ == "模型名称不能为空"@
            } else {
                !path_is_dir && e@ == quoted("模型路径 "@, path@, " 不存在或不是目录"@)
            },
        },
{
    if name.is_empty() {
        return Err("模型名称不能为空".to_string());
    }
    if !path_is_dir {
        return Err(quoted_message("模型路径 ", path, " 不存在或不是目录"));
    }
    Ok(())
}

/// `模型路径 '{path}' 缺少必要文件 (需要 config.json, tokenizer.json, model.safetensors)`.
pub fn missing_model_files_message(path: &str) -> (r: String)
    ensures
        r@ == quoted("模型路径 "@, path@, " 缺少必要文件 (需要 config.json, tokenizer.json, model.safetensors)"@),
{
    quoted_message("模型路径 ", path, " 缺少必要文件 (需要 config.json, tokenizer.json, model.safetensors)")
}

/// `模型 '{name}' 注册成功`.
pub fn registered_message(name: &str) -> (r: String)
    ensures
        r@ == quoted("模型 "@, name@, " 注册成功"@),
{
    quoted_message("模型 ", name, " 注册成功")
}

/// `{head}{n}{tail}`.
fn count_message(head: &str, n: usize, tail: &str) -> (r: String)
    ensures
        r@ == head@ + text::decimal_seq(n as nat) + tail@,
{
    let mut m = str_chars(head);
    push_all(&mut m, &text::u64_to_decimal(n as u64));
    push_all(&mut m, &str_chars(tail));
    string_from_chars(&m)
}

/// `共 {n} 个模型`.
pub fn models_count_message(n: usize) -> (r: String)
    ensures
        r@ == "共 "@ + text::decimal_seq(n as nat) + " 个模型"@,
{
    count_message("共 ", n, " 个模型")
}

/// `成功生成 {n} 条向量`.
pub fn embeddings_message(n: usize) -> (r: String)
    ensures
        r@ == "成功生成 "@ + text::decimal_seq(n as nat) + " 条向量"@,
{
    count_message("成功生成 ", n, " 条向量")
}

/// What a similarity request gets before any score is computed: an empty
/// query vector is refused (`查询向量不能为空`); no candidates give an empty
/// answer (`没有候选向量可供比较`); otherwise scoring goes ahead.
pub fn check_similarity_request(query_len: usize, candidates: usize) -> (r: Result<Option<String>, String>)
    ensures
        match r {
            Err(e) => query_len == 0 && e@ == "查询向量不能为空"@,
            Ok(Some(m)) => query_len > 0 && candidates == 0 && m@ == "没有候选向量可供比较"@,
            Ok(None) => query_len > 0 && candidates > 0,
        },
{
    if query_len == 0 {
        return Err("查询向量不能为空".to_string());
    }
    if candidates == 0 {
        return Ok(Some("没有候选向量可供比较".to_string()));
    }
    Ok(None)
}

/// How many ranked candidates a similarity answer keeps: the request's
/// number, at least one.
pub fn similarity_top_k(top_k: i32) -> (r: usize)
    ensures
        r == (if top_k < 1 { 1 } else { top_k as usize }),
{
    if top_k < 1 {
        1
    } else {
        top_k as usize
    }
}

/// `成功计算 {n} 条相似度结果`.
pub fn similarity_message(n: usize) -> (r: String)
    ensures
        r@ == "成功计算 "@ + text::decimal_seq(n as nat) + " 条相似度结果"@,
{
    count_message("成功计算 ", n, " 条相似度结果")
}

} // verus!
