use laoflchdb::face::{
    anchors_per_stride, detect_input_size, effective_max_faces, extract_summary, face_key,
    face_saved, face_store_step, indexed_vector_id, needs_duplicate_search, should_index_face,
    FaceStoreStep,
};
use laoflchdb::summarize::{
    check_summarize_text, detect_language, finish_summary, generation_lengths, summarize_input,
    target_language, truncate_tokens, TextSummarizeServiceConfig,
};
use laoflchdb::vector_index::{
    analyze_consistency, check_building, classify_rebuild_entry, decode_node_records,
    dimension_mismatch_message, distance_metric_from_str, effective_top_k, encode_node_record,
    ids_from_keys, ids_missing_from, index_name_or_default, page_range, parse_vector_key,
    snapshot_paths, vector_key, vector_table_name, DistanceKind, EmbeddingServiceConfig,
    HnswServiceConfig, NodeDecodeError, RebuildEntry,
};
use laoflchdb::vision::{
    default_pt_hw_seq_len, loadable_models_message, map_weight_key, model_files_complete,
    should_load_model, VisionLayout,
};

#[test]
fn detector_input_size_is_clamped() {
    assert_eq!(detect_input_size(100, 200), 320);
    assert_eq!(detect_input_size(640, 480), 640);
    assert_eq!(detect_input_size(3000, 10), 1280);
    assert_eq!(anchors_per_stride(640, 8), 80 * 80 * 2);
    assert_eq!(anchors_per_stride(640, 32), 20 * 20 * 2);
}

#[test]
fn face_limits_and_keys() {
    assert_eq!(effective_max_faces(5, 10), 5);
    assert_eq!(effective_max_faces(0, 10), 10);
    assert_eq!(effective_max_faces(-1, 0), 20);
    assert_eq!(face_key(123), "face_123");
    assert!(needs_duplicate_search(false, true));
    assert!(!needs_duplicate_search(false, false));
    assert_eq!(extract_summary(3), "提取了 3 张人脸的特征");
}

#[test]
fn face_storing_steps() {
    assert!(face_store_step(Some(9), true, true, true) == FaceStoreStep::UseExisting(9));
    assert!(face_store_step(None, true, true, true) == FaceStoreStep::SaveImage);
    assert!(face_store_step(None, true, false, true) == FaceStoreStep::SaveUnavailable);
    assert!(face_store_step(None, false, true, true) == FaceStoreStep::IndexOnly);
    assert!(face_store_step(None, false, true, false) == FaceStoreStep::Nothing);
    let s = face_saved(FaceStoreStep::UseExisting(9), 100, "faces", true);
    assert_eq!((s.key.as_str(), s.bucket.as_str(), s.face_id), ("face_9", "", 9));
    let s = face_saved(FaceStoreStep::SaveImage, 100, "faces", true);
    assert_eq!((s.key.as_str(), s.bucket.as_str(), s.face_id), ("face_100", "faces", 100));
    let s = face_saved(FaceStoreStep::SaveImage, 100, "faces", false);
    assert_eq!((s.key.as_str(), s.bucket.as_str(), s.face_id), ("", "", 100));
    let s = face_saved(FaceStoreStep::Nothing, 100, "faces", true);
    assert_eq!(s.face_id, 0);
    assert!(should_index_face(None, true, 100, true));
    assert!(!should_index_face(Some(1), true, 100, true));
    assert!(!should_index_face(None, true, 0, true));
    assert_eq!(indexed_vector_id(Some(7), 100, false), 7);
    assert_eq!(indexed_vector_id(None, 100, true), 100);
    assert_eq!(indexed_vector_id(None, 100, false), 0);
}

#[test]
fn index_configuration_defaults() {
    let h = HnswServiceConfig::default();
    assert_eq!((h.dim, h.m, h.ef_construction, h.ef_search, h.max_elements), (512, 32, 200, 50, 1_000_000));
    assert_eq!(h.snapshot_path, "./laoflch_hnsw_snapshots");
    let e = EmbeddingServiceConfig::default();
    let names: Vec<&str> = e.indices.iter().map(|i| i.name.as_str()).collect();
    assert_eq!(names, vec!["default", "image", "face", "memory"]);
    assert_eq!(e.startup_mode, "snapshot");
    assert!(distance_metric_from_str("Euclidean") == DistanceKind::Euclidean);
    assert!(distance_metric_from_str("DOT") == DistanceKind::InnerProduct);
    assert!(distance_metric_from_str("dotproduct") == DistanceKind::InnerProduct);
    assert!(distance_metric_from_str("whatever") == DistanceKind::Cosine);
}

#[test]
fn vector_keys_roundtrip() {
    assert_eq!(vector_key(42), "v:42");
    assert_eq!(parse_vector_key(vector_key(42).as_bytes()), Some(42));
    assert_eq!(parse_vector_key(b"x:42"), None);
    assert_eq!(parse_vector_key(b"v:abc"), None);
    assert_eq!(index_name_or_default(""), "default");
    assert_eq!(vector_table_name("image"), "hnsw_image");
    assert_eq!(effective_top_k(0), 10);
    assert_eq!(effective_top_k(3), 3);
    assert_eq!(dimension_mismatch_message(512, 3), "向量维度不匹配: 需要 512, 实际 3");
    let (m, i, n) = snapshot_paths("/snap", "hnsw_index");
    assert_eq!(m, "/snap/hnsw_index.meta.cbor");
    assert_eq!(i, "/snap/hnsw_index.ids.cbor");
    assert_eq!(n, "/snap/hnsw_index.nodes.cbor");
    assert_eq!(check_building(true), Err("HNSW 服务正在构建中，请稍后再试".to_string()));
    assert_eq!(check_building(false), Ok(()));
}

#[test]
fn node_records_read_back_what_was_written() {
    let mut file = encode_node_record(1, b"abc");
    assert_eq!(file, vec![1, 0, 0, 0, 0, 0, 0, 0, 3, 0, 0, 0, b'a', b'b', b'c']);
    file.extend(encode_node_record(0x0102030405060708, b""));
    let back = decode_node_records(&file).ok().unwrap();
    assert_eq!(back, vec![(1, b"abc".to_vec()), (0x0102030405060708, vec![])]);
    let mut short = file.clone();
    short.extend([9, 9, 9]);
    assert_eq!(decode_node_records(&short).ok().unwrap().len(), 2);
    assert!(matches!(decode_node_records(&file[..10]), Err(NodeDecodeError::LengthTruncated)));
    assert!(matches!(decode_node_records(&file[..13]), Err(NodeDecodeError::DataTruncated)));
}

#[test]
fn pages_and_consistency() {
    assert_eq!(page_range(10, 0, 3), (0, 3));
    assert_eq!(page_range(10, 8, 5), (8, 10));
    assert_eq!(page_range(10, -2, 0), (0, 10));
    assert_eq!(page_range(10, 20, 5), (10, 10));
    let keys: Vec<Vec<u8>> = vec![b"v:3".to_vec(), b"meta".to_vec(), b"v:1".to_vec()];
    assert_eq!(ids_from_keys(&keys), vec![3, 1]);
    assert_eq!(ids_missing_from(&vec![1, 2, 2, 3], &vec![3]), vec![1, 2]);
    let c = analyze_consistency(&vec![1, 2, 3], &vec![2, 3, 4, 4]);
    assert_eq!(c.only_in_index, vec![1]);
    assert_eq!(c.only_in_store, vec![4]);
}

#[test]
fn rebuild_entries() {
    assert!(classify_rebuild_entry(b"bad", 8, 2) == RebuildEntry::InvalidKey);
    assert!(classify_rebuild_entry(b"v:5", 7, 2) == RebuildEntry::BadLength { id: 5 });
    assert!(classify_rebuild_entry(b"v:5", 12, 2) == RebuildEntry::DimensionMismatch { id: 5, got: 3 });
    assert!(classify_rebuild_entry(b"v:5", 8, 2) == RebuildEntry::Candidate { id: 5 });
}

#[test]
fn weight_names_are_mapped() {
    assert_eq!(default_pt_hw_seq_len(), 16);
    assert_eq!(
        map_weight_key("encoder.layers.0.self_attn.q_proj.weight", "jina-clip-v2"),
        Some("encoder.layers.0.attention.query.weight".to_string())
    );
    assert_eq!(map_weight_key("layer_norm1.bias", "siglip"), Some("attention_ln.bias".to_string()));
    assert_eq!(map_weight_key("layer_norm1.bias", "other"), Some("layer_norm1.bias".to_string()));
    assert_eq!(map_weight_key("patch_embed.conv.weight", "other"), Some("patch_embed.weight".to_string()));
    assert_eq!(map_weight_key("patch_embed.conv.bias", "other"), None);
}

#[test]
fn vision_layout_facts() {
    let l = VisionLayout {
        image_size: 512,
        patch_size: 14,
        model_type: Some("jina_clip_vision".to_string()),
        weight_prefix: None,
        pt_hw_seq_len: 16,
        rope_embeddings: false,
        naive_swiglu: false,
        subln: false,
    };
    assert!(l.is_eva_style());
    assert_eq!(l.grid_size(), 36);
    assert_eq!(l.weight_prefix(), "");
    let m = VisionLayout { model_type: None, weight_prefix: Some("vision.".to_string()), ..l };
    assert!(!m.is_eva_style());
    assert_eq!(m.weight_prefix(), "vision.");
}

#[test]
fn model_directories() {
    assert!(should_load_model("Any", &None));
    assert!(!should_load_model("clip", &Some(vec![])));
    assert!(should_load_model("Jina-CLIP", &Some(vec!["jina-clip".to_string()])));
    assert!(!should_load_model("bert", &Some(vec!["jina-clip".to_string()])));
    assert!(model_files_complete(true, true, true));
    assert!(!model_files_complete(true, false, true));
    assert_eq!(loadable_models_message(2), "共 2 个可加载模型");
}

#[test]
fn summarization_decisions() {
    let c = TextSummarizeServiceConfig::default();
    assert_eq!(c.max_input_tokens, 1024);
    assert_eq!(detect_language("这是一个测试文本"), "zh");
    assert_eq!(detect_language("this is a test"), "en");
    assert_eq!(detect_language("1234"), "en");
    assert_eq!(detect_language("ab 中文"), "zh");
    assert_eq!(target_language(Some("zh"), "en"), "zh");
    assert_eq!(target_language(Some("fr"), "en"), "en");
    assert_eq!(target_language(None, "zh"), "zh");
    assert_eq!(summarize_input(&c, "zh", "文本"), "请用中文总结以下内容：\n文本");
    assert_eq!(summarize_input(&c, "en", "text"), "summarize: text");
    let mut ids = vec![1, 2, 3, 4];
    truncate_tokens(&mut ids, 2);
    assert_eq!(ids, vec![1, 2]);
    truncate_tokens(&mut ids, 5);
    assert_eq!(ids, vec![1, 2]);
    assert_eq!(generation_lengths(&c, 0, 0), (150, 40));
    assert_eq!(generation_lengths(&c, 60, 10), (60, 10));
    assert_eq!(check_summarize_text("  \n"), Err("输入文本不能为空".to_string()));
    assert!(check_summarize_text(" a ").is_ok());
    assert_eq!(finish_summary("  hi there \n"), ("hi there".to_string(), 8));
}

use laoflchdb::vector_index::{
    all_indices_message, check_index_dimension, check_search_query, index_message,
    index_not_found_message, listed_id, search_message, total_elements,
};

#[test]
fn embedding_service_checks_and_messages() {
    assert_eq!(check_index_dimension("image", 512, 512), Ok(()));
    assert_eq!(
        check_index_dimension("image", 512, 3),
        Err("向量维度不匹配: 索引名=image, 需要 512, 实际 3".to_string())
    );
    assert_eq!(index_not_found_message("x"), "索引不存在: x");
    assert_eq!(check_search_query(0), Err("查询向量为空".to_string()));
    assert_eq!(check_search_query(4), Ok(()));
    assert_eq!(search_message(0), "未找到匹配结果");
    assert_eq!(search_message(3), "搜索完成, 返回 3 条结果");
    assert_eq!(listed_id(b"v:17"), 17);
    assert_eq!(listed_id(b"junk"), 0);
    assert_eq!(all_indices_message(4, 10), "索引数: 4, 总向量数: 10");
    assert_eq!(index_message("face", 2), "索引: face, 向量数: 2");
    assert_eq!(total_elements(&vec![1, 2, 3]), Some(6));
    assert_eq!(total_elements(&vec![u64::MAX, 1]), None);
}

use laoflchdb::face::{check_feature_dims, detect_max_faces, generate_face_id, kept_face_count};

#[test]
fn face_detection_limits_and_feature_checks() {
    assert_eq!(detect_max_faces(3, 10), 3);
    assert_eq!(detect_max_faces(0, 0), 0);
    assert_eq!(kept_face_count(30, 0), 30);
    assert_eq!(kept_face_count(30, 20), 20);
    assert_eq!(kept_face_count(5, 20), 5);
    assert_eq!(check_feature_dims(512, 512), Ok(()));
    assert_eq!(
        check_feature_dims(512, 3),
        Err("特征向量维度应为 512，实际 feature1=512, feature2=3".to_string())
    );
    let g = snowflake_me::Snowflake::builder()
        .machine_id(&|| Ok(3))
        .data_center_id(&|| Ok(1))
        .finalize()
        .unwrap();
    assert_ne!(generate_face_id(&g), 0);
}

use laoflchdb::summarize::{push_generated, samples_next};

#[test]
fn generation_steps() {
    assert!(samples_next(true, 5, 5));
    assert!(!samples_next(true, 4, 5));
    assert!(!samples_next(false, 9, 5));
    let mut out = vec![];
    assert!(push_generated(&mut out, 7, 1, 3));
    assert!(!push_generated(&mut out, 1, 1, 3));
    assert_eq!(out, vec![7, 1]);
    let mut full = vec![4, 5];
    assert!(!push_generated(&mut full, 6, 1, 3));
    assert_eq!(full, vec![4, 5, 6]);
}
