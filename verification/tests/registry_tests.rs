use laoflchdb::model_registry::{
    check_load_request, check_similarity_request, embeddings_message, missing_model_files_message,
    models_count_message, registered_message, similarity_message, similarity_top_k, ModelEntry,
    ModelRegistry,
};

fn entry(dim: usize, loaded: bool) -> ModelEntry {
    ModelEntry { embedding_dim: dim, model_path: "/m/bert".to_string(), loaded, device: "Cpu".to_string() }
}

#[test]
fn registered_models_can_be_queried_until_unloaded() {
    let mut r = ModelRegistry::new();
    assert_eq!(r.model_info("bert").err().unwrap(), "模型 'bert' 未找到");
    r.register("bert", entry(768, true));
    let info = r.model_info("bert").ok().unwrap();
    assert_eq!(info.embedding_dim, 768);
    assert_eq!(info.model_path, "/m/bert");
    assert_eq!(r.embedding_model("bert"), Ok(768));
    r.register("bert", entry(512, true));
    assert_eq!(r.embedding_model("bert"), Ok(512));
    assert_eq!(r.list_names(), vec!["bert".to_string()]);
    assert_eq!(r.unload("bert"), Ok("模型 'bert' 已成功卸载".to_string()));
    assert_eq!(r.unload("bert"), Err("模型 'bert' 未找到，无法卸载".to_string()));
    assert!(r.list_names().is_empty());
}

#[test]
fn embedding_requests_need_a_loaded_model() {
    let mut r = ModelRegistry::new();
    assert_eq!(r.embedding_model("x"), Err("模型 'x' 未加载，请先调用 LoadModel".to_string()));
    r.register("x", entry(8, false));
    assert_eq!(r.embedding_model("x"), Err("模型 'x' 未正确加载完成".to_string()));
}

#[test]
fn load_requests_and_messages() {
    assert_eq!(check_load_request("", "/m", true), Err("模型名称不能为空".to_string()));
    assert_eq!(check_load_request("a", "/nope", false), Err("模型路径 '/nope' 不存在或不是目录".to_string()));
    assert_eq!(check_load_request("a", "/m", true), Ok(()));
    assert_eq!(
        missing_model_files_message("/m"),
        "模型路径 '/m' 缺少必要文件 (需要 config.json, tokenizer.json, model.safetensors)"
    );
    assert_eq!(registered_message("a"), "模型 'a' 注册成功");
    assert_eq!(models_count_message(2), "共 2 个模型");
    assert_eq!(embeddings_message(3), "成功生成 3 条向量");
}

#[test]
fn similarity_requests() {
    assert_eq!(check_similarity_request(0, 3), Err("查询向量不能为空".to_string()));
    assert_eq!(check_similarity_request(4, 0), Ok(Some("没有候选向量可供比较".to_string())));
    assert_eq!(check_similarity_request(4, 2), Ok(None));
    assert_eq!(similarity_top_k(0), 1);
    assert_eq!(similarity_top_k(-3), 1);
    assert_eq!(similarity_top_k(5), 5);
    assert_eq!(similarity_message(5), "成功计算 5 条相似度结果");
}

use laoflchdb::model_registry::discovered_dim;

fn discover(r: &mut ModelRegistry, names: &[&str], targets: Option<Vec<String>>) {
    for n in names {
        r.register_discovered(n, &targets, true, true, true, Some(128), &format!("/tmp/candle/{}", n), false, "Cpu");
    }
}

#[test]
fn test_list_models_empty() {
    let r = ModelRegistry::new();
    assert!(r.list_names().is_empty());
    assert_eq!(models_count_message(r.list_names().len()), "共 0 个模型");
}

#[test]
fn test_get_model_not_found() {
    let r = ModelRegistry::new();
    assert!(r.model_info("non_existent").is_err());
}

#[test]
fn test_unload_non_existent_model() {
    let mut r = ModelRegistry::new();
    assert!(r.unload("ghost").is_err());
}

#[test]
fn test_compute_similarity_empty_query() {
    assert!(check_similarity_request(0, 0).is_err());
}

#[test]
fn test_compute_similarity_no_candidates() {
    assert_eq!(check_similarity_request(3, 0), Ok(Some("没有候选向量可供比较".to_string())));
}

#[test]
fn test_create_embedding_without_model() {
    let r = ModelRegistry::new();
    assert!(r.embedding_model("no_model").is_err());
}

#[test]
fn test_new_with_config_none() {
    let mut r = ModelRegistry::new();
    discover(&mut r, &[], None);
    assert_eq!(r.list_names().len(), 0);
}

#[test]
fn test_new_with_config_empty_list() {
    let mut r = ModelRegistry::new();
    discover(&mut r, &["test_model"], Some(vec![]));
    assert_eq!(r.list_names().len(), 0, "空列表应跳过所有");
}

#[test]
fn test_new_with_config_filter() {
    let mut r = ModelRegistry::new();
    discover(&mut r, &["model_a", "model_b", "model_c"], Some(vec!["model_a".to_string()]));
    let names = r.list_names();
    assert_eq!(names.len(), 1);
    assert_eq!(names[0], "model_a");
    let info = r.model_info("model_a").ok().unwrap();
    assert_eq!(info.embedding_dim, 128);
    assert!(!info.loaded);
}

#[test]
fn discovered_models_need_all_files_and_default_to_384() {
    let mut r = ModelRegistry::new();
    assert!(!r.register_discovered("m", &None, true, false, true, None, "/m", true, "Cpu"));
    assert!(r.register_discovered("M2", &Some(vec!["m2".to_string()]), true, true, true, None, "/m2", true, "Cpu"));
    assert_eq!(r.model_info("M2").ok().unwrap().embedding_dim, 384);
    assert_eq!(discovered_dim(Some(768)), 768);
}
