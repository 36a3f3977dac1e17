use laoflchdb::image::{
    apply_metadata_update, classify_params, classify_summary, continue_key_listing,
    default_bucket_name, default_top_k, generate_image_key, group_by_label,
    image_index_or_default, image_metadata_from_json, index_model_or_default,
    insert_error_means_present, mark_indexed, match_samples, metadata_key, min_samples,
    needs_generated_key, resolve_bucket, sample_category, thumbnail_fills_square,
    thumbnail_key, thumbnail_sizes, too_few_samples_message, upload_decision, UploadDecision,
};

fn dups() -> Vec<(String, i32)> {
    vec![("k1".to_string(), 512), ("k2".to_string(), 512)]
}

#[test]
fn bucket_and_model_defaults() {
    assert_eq!(default_bucket_name(), "images");
    assert_eq!(resolve_bucket("", "images"), "images");
    assert_eq!(resolve_bucket("pics", "images"), "pics");
    assert_eq!(default_top_k(), 10);
    assert_eq!(index_model_or_default(""), "jina-clip-v2");
    assert_eq!(index_model_or_default("m"), "m");
    assert_eq!(image_index_or_default(""), "image");
}

#[test]
fn thumbnails() {
    let sizes = thumbnail_sizes();
    let got: Vec<(&str, u32)> = sizes.iter().map(|(n, s)| (n.as_str(), *s)).collect();
    assert_eq!(got, vec![("thumbnail", 128), ("small", 256), ("medium", 512)]);
    assert!(thumbnail_fills_square("thumbnail"));
    assert!(!thumbnail_fills_square("small"));
    assert_eq!(thumbnail_key("cat.png", "small"), "cat.png__small.jpg");
    assert_eq!(metadata_key("cat.png"), "__img_meta__cat.png");
}

#[test]
fn upload_decisions() {
    assert!(matches!(upload_decision(&vec![], "skip"), UploadDecision::Store));
    match upload_decision(&dups(), "overwrite") {
        UploadDecision::ReplaceDuplicates(keys) => assert_eq!(keys, vec!["k1".to_string(), "k2".to_string()]),
        _ => panic!("expected ReplaceDuplicates"),
    }
    assert!(matches!(upload_decision(&dups(), "new"), UploadDecision::Store));
    match upload_decision(&dups(), "skip") {
        UploadDecision::Skip { key, dim } => {
            assert_eq!(key, "k1");
            assert_eq!(dim, 512);
        }
        _ => panic!("expected Skip"),
    }
    match upload_decision(&dups(), "") {
        UploadDecision::Confirm { existing_key } => assert_eq!(existing_key, "k1"),
        _ => panic!("expected Confirm"),
    }
    assert!(needs_generated_key(true, "overwrite", "given"));
    assert!(needs_generated_key(false, "skip", ""));
    assert!(!needs_generated_key(false, "overwrite", "given"));
    assert!(!needs_generated_key(true, "skip", "given"));
}

#[test]
fn image_keys_are_decimal_and_insert_errors_are_read() {
    let g = snowflake_me::Snowflake::builder()
        .machine_id(&|| Ok(2))
        .data_center_id(&|| Ok(1))
        .finalize()
        .unwrap();
    let k = generate_image_key(&g);
    assert!(!k.is_empty() && k.chars().all(|c| c.is_ascii_digit()));
    assert!(insert_error_means_present("vector 12 already exists"));
    assert!(!insert_error_means_present("dimension mismatch"));
}

#[test]
fn metadata_update_merges_then_deletes() {
    let doc = br#"{"key":"cat.png","name":"Cat","user_metadata":{"a":"1","b":"2"},"thumbnails":{"small":"cat.png__small.jpg"},"is_indexed":false,"width":10,"height":20}"#;
    let mut m = image_metadata_from_json(doc);
    assert_eq!(m.key, "cat.png");
    assert_eq!(m.width, 10);
    assert_eq!(m.thumbnails.get("small"), Some("cat.png__small.jpg".to_string()));
    apply_metadata_update(
        &mut m,
        "",
        &vec![("b".to_string(), "3".to_string()), ("c".to_string(), "4".to_string())],
        &vec!["a".to_string(), "c".to_string()],
        "1700000000".to_string(),
    );
    assert_eq!(m.name, "Cat");
    assert_eq!(m.user_metadata.get("a"), None);
    assert_eq!(m.user_metadata.get("b"), Some("3".to_string()));
    assert_eq!(m.user_metadata.get("c"), None);
    assert_eq!(m.last_modified, "1700000000");
    apply_metadata_update(&mut m, "Kitty", &vec![], &vec![], "1".to_string());
    assert_eq!(m.name, "Kitty");
    mark_indexed(&mut m, "jina-clip-v2", "2".to_string());
    assert!(m.is_indexed);
    assert_eq!(m.index_model, "jina-clip-v2");
}

#[test]
fn classification_parameters() {
    let p = classify_params("", "", "", 0);
    assert_eq!(p.bucket, "images");
    assert_eq!(p.vector_index, "image");
    assert_eq!(p.classify_index, "image_classification");
    assert_eq!(p.min_cluster_size, 3);
    assert_eq!(classify_params("b", "v", "c", 7).min_cluster_size, 7);
    assert!(continue_key_listing(true, "m", 10));
    assert!(!continue_key_listing(true, "", 10));
    assert!(!continue_key_listing(true, "m", 50001));
    assert_eq!(min_samples(1), 1);
    assert_eq!(min_samples(3), 2);
    assert_eq!(min_samples(100), 5);
}

#[test]
fn groups_are_largest_first_and_cover_labels() {
    let samples: Vec<(String, i32)> = vec![
        ("a".to_string(), 1),
        ("b".to_string(), 0),
        ("c".to_string(), 1),
        ("d".to_string(), -1),
        ("e".to_string(), 1),
        ("f".to_string(), 0),
    ];
    let groups = group_by_label(&samples);
    assert_eq!(groups.len(), 2);
    assert_eq!(groups[0].label, 1);
    assert_eq!(groups[0].keys, vec!["a".to_string(), "c".to_string(), "e".to_string()]);
    assert_eq!(groups[0].category, "cat_0");
    assert_eq!(groups[0].name, "分类 1");
    assert_eq!(groups[1].keys, vec!["b".to_string(), "f".to_string()]);
    assert_eq!(sample_category(&groups, 0), ("cat_1".to_string(), "分类 2".to_string()));
    assert_eq!(sample_category(&groups, -1), ("noise".to_string(), "未分类".to_string()));
}

#[test]
fn samples_are_matched_to_vectors() {
    let keys = vec!["10".to_string(), "11".to_string(), "12".to_string()];
    let ids = vec![12u64, 10, 10];
    let has = vec![true, false, true];
    assert_eq!(match_samples(&keys, &ids, &has), vec![("10".to_string(), 2), ("12".to_string(), 0)]);
}

#[test]
fn classification_messages() {
    assert_eq!(classify_summary(10, 2, 1), "分类完成: 10 张图片，2 个分类，1 张噪声");
    assert_eq!(too_few_samples_message(1), "向量化图片不足(1 张)，无法聚类");
}

use laoflchdb::image::{check_thumbnail_size, image_key_of_meta_key, list_images_params, thumbnail_missing_message};

#[test]
fn thumbnail_requests_and_listing() {
    assert_eq!(check_thumbnail_size("small"), Ok(()));
    assert_eq!(
        check_thumbnail_size("huge"),
        Err("Invalid thumbnail size 'huge'. Valid sizes: thumbnail, small, medium".to_string())
    );
    assert_eq!(thumbnail_missing_message("small", "cat.png"), "Thumbnail 'small' for image 'cat.png' not found");
    assert_eq!(list_images_params(0, "desc", "2024/"), (100, true, "__img_meta__2024/".to_string()));
    assert_eq!(list_images_params(5, "asc", ""), (5, false, "__img_meta__".to_string()));
    assert_eq!(image_key_of_meta_key("__img_meta__cat.png"), "cat.png");
    assert_eq!(image_key_of_meta_key("cat.png"), "cat.png");
}

#[test]
fn replacing_a_duplicate_removes_everything_it_stored() {
    let m = image_metadata_from_json(br#"{"thumbnails":{"small":"123__small.jpg","medium":"123__medium.jpg"}}"#);
    let (id, keys) = laoflchdb::image::duplicate_cleanup("123", &m.thumbnails);
    assert_eq!(id, Some(123));
    assert_eq!(keys.len(), 4);
    assert_eq!(keys[0], "123");
    assert_eq!(keys[3], "__img_meta__123");
    let mut thumbs = vec![keys[1].clone(), keys[2].clone()];
    thumbs.sort();
    assert_eq!(thumbs, vec!["123__medium.jpg".to_string(), "123__small.jpg".to_string()]);
    let (none, _) = laoflchdb::image::duplicate_cleanup("cat.png", &m.thumbnails);
    assert_eq!(none, None);
}

use laoflchdb::image::{classification_calls, classification_index_fields, no_sink_message, SinkCall};

#[test]
fn classification_is_written_as_drop_create_and_documents() {
    let samples: Vec<(String, i32)> = vec![("a".to_string(), 1), ("b".to_string(), -1), ("c".to_string(), 0)];
    let groups = group_by_label(&samples);
    let calls = classification_calls("image_classification", "images", &samples, &groups);
    assert_eq!(calls.len(), 5);
    assert!(matches!(&calls[0], SinkCall::DropIndex { index } if index == "image_classification"));
    match &calls[1] {
        SinkCall::CreateIndex { index, fields } => {
            assert_eq!(index, "image_classification");
            assert_eq!(fields.len(), 4);
            assert_eq!(fields[2], (2, "label".to_string(), 0, Some("分类名称".to_string())));
        }
        _ => panic!("expected CreateIndex"),
    }
    match &calls[3] {
        SinkCall::AddDocument { index, doc_id, fields } => {
            assert_eq!(index, "image_classification");
            assert_eq!(doc_id, "b");
            assert_eq!(
                fields,
                &vec![
                    ("key".to_string(), "b".to_string()),
                    ("category".to_string(), "noise".to_string()),
                    ("label".to_string(), "未分类".to_string()),
                    ("bucket".to_string(), "images".to_string()),
                ]
            );
        }
        _ => panic!("expected AddDocument"),
    }
    match &calls[2] {
        SinkCall::AddDocument { fields, .. } => assert_eq!(fields[1].1, groups.iter().find(|g| g.label == 1).unwrap().category),
        _ => panic!("expected AddDocument"),
    }
    assert_eq!(classification_index_fields()[0].1, "key");
    assert_eq!(no_sink_message(), "全文索引未启用，无法保存分类结果");
}
