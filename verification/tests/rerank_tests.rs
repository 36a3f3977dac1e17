use std::str::FromStr;

use laoflchdb::rerank::model_name;

use laoflchdb::rerank::{
    build_pairs, check_rerank_request, effective_top_n, format_request_id, make_id, mc_heads,
    mc_hidden, mc_inter, mc_layers, mc_maxpos, mc_pad, mc_pet, mc_typevocab, mc_vocab, pad_batch,
    batch_from_encodings, parse_dtype, prepare_rerank_batch, separator_token_id, RerankHttpRequest,
    RerankerServiceConfig, WeightDType,
};

const TOKENIZER: &str = r#"{
  "version": "1.0",
  "truncation": null,
  "padding": null,
  "added_tokens": [],
  "normalizer": null,
  "pre_tokenizer": {"type": "Whitespace"},
  "post_processor": null,
  "decoder": null,
  "model": {"type": "WordLevel", "vocab": {"[UNK]": 0, "</s>": 2, "hello": 3, "world": 4, "cat": 5}, "unk_token": "[UNK]"}
}"#;

const NO_SEP_TOKENIZER: &str = r#"{
  "version": "1.0",
  "truncation": null,
  "padding": null,
  "added_tokens": [],
  "normalizer": null,
  "pre_tokenizer": {"type": "Whitespace"},
  "post_processor": null,
  "decoder": null,
  "model": {"type": "WordLevel", "vocab": {"[UNK]": 0, "hello": 3}, "unk_token": "[UNK]"}
}"#;

fn request(query: &str, docs: &[&str]) -> RerankHttpRequest {
    RerankHttpRequest {
        model: None,
        query: query.to_string(),
        documents: docs.iter().map(|d| d.to_string()).collect(),
        top_n: None,
        return_documents: false,
    }
}

#[test]
fn model_constants_and_defaults() {
    assert_eq!((mc_hidden(), mc_heads(), mc_inter(), mc_layers()), (1024, 16, 4096, 24));
    assert_eq!((mc_vocab(), mc_maxpos(), mc_typevocab(), mc_pad()), (250002, 8192, 2, 1));
    assert_eq!(mc_pet(), "absolute");
    let c = RerankerServiceConfig::default();
    assert_eq!(c.max_seq_len, 1024);
    assert_eq!(effective_top_n(None, &c), 10);
    assert_eq!(effective_top_n(Some(3), &c), 3);
}

#[test]
fn weight_precision_names() {
    assert!(parse_dtype("FP16") == Ok(WeightDType::F16));
    assert!(parse_dtype("f32") == Ok(WeightDType::F32));
    match parse_dtype("BF16") {
        Err(e) => assert_eq!(e, "不支持的 dtype: bf16（支持 f32/fp32、f16/fp16）"),
        Ok(_) => panic!("bf16 accepted"),
    }
}

#[test]
fn request_checks() {
    assert_eq!(check_rerank_request(&request("  cat  ", &["a"])), Ok("cat".to_string()));
    assert_eq!(check_rerank_request(&request("   ", &["a"])), Err("query 不能为空".to_string()));
    assert_eq!(check_rerank_request(&request("cat", &[])), Err("documents 不能为空".to_string()));
}

#[test]
fn pairs_cut_documents_to_the_budget() {
    let pairs = build_pairs(&[7, 8], &vec![vec![1, 2, 3, 4], vec![5]], 5, 2);
    assert_eq!(pairs, vec![vec![7, 8, 1, 2, 2], vec![7, 8, 5, 2]]);
    let none = build_pairs(&[7, 8, 9, 10], &vec![vec![1]], 3, 2);
    assert_eq!(none, vec![vec![7, 8, 9, 10, 2]]);
}

#[test]
fn batches_are_padded() {
    let b = pad_batch(&vec![vec![7, 8, 1, 2], vec![7, 2]], 1);
    assert_eq!(b.batch_size, 2);
    assert_eq!(b.max_len, 4);
    assert_eq!(b.total_tokens, 6);
    assert_eq!(b.input_ids, vec![7, 8, 1, 2, 7, 2, 1, 1]);
    assert_eq!(b.attention_mask, vec![1, 1, 1, 1, 1, 1, 0, 0]);
    assert_eq!(b.token_type_ids, vec![0; 8]);
}

#[test]
fn request_ids() {
    assert_eq!(format_request_id(255), "rerank-00000000000000ff");
    assert_eq!(format_request_id(0x1234_5678_9abc_def0_1), "rerank-123456789abcdef01");
    assert!(make_id().starts_with("rerank-"));
}

#[test]
fn tokenized_batches() {
    let t = tokenizers::Tokenizer::from_str(TOKENIZER).unwrap();
    assert_eq!(separator_token_id(&t), Ok(2));
    let b = prepare_rerank_batch(&t, "hello", &vec!["world cat".to_string(), "cat".to_string()], 16, 2, 1).unwrap();
    assert_eq!(b.batch_size, 2);
    assert_eq!(b.input_ids, vec![3, 4, 5, 2, 3, 5, 2, 1]);
    assert_eq!(b.attention_mask, vec![1, 1, 1, 1, 1, 1, 1, 0]);
    let empty = prepare_rerank_batch(&t, "hello", &vec![], 16, 2, 1).unwrap();
    assert_eq!(empty.batch_size, 0);
    let bad = tokenizers::Tokenizer::from_str(NO_SEP_TOKENIZER).unwrap();
    assert_eq!(separator_token_id(&bad), Err("tokenizer 缺少 </s> token".to_string()));
}

#[test]
fn model_names_are_the_last_path_component() {
    assert_eq!(model_name("laoflch_db_model/bge-reranker-v2-m3"), "bge-reranker-v2-m3");
    assert_eq!(model_name("models/flan-t5-small/"), "flan-t5-small");
    assert_eq!(model_name("/"), "/");
    assert_eq!(model_name("a/.."), "a/..");
    assert_eq!(model_name("foo.txt/."), "foo.txt");
    assert_eq!(model_name("./m//"), "m");
    assert_eq!(model_name("."), ".");
    assert_eq!(model_name(""), "");
}

#[test]
fn batches_from_encoded_ids() {
    let b = batch_from_encodings(&vec![3], &vec![vec![4, 5, 6], vec![]], 3, 2, 1).unwrap();
    assert_eq!(b.batch_size, 2);
    assert_eq!(b.max_len, 3);
    assert_eq!(b.total_tokens, 5);
    assert_eq!(b.input_ids, vec![3, 4, 2, 3, 2, 1]);
    assert_eq!(b.attention_mask, vec![1, 1, 1, 1, 1, 0]);
    assert_eq!(b.token_type_ids, vec![0; 6]);
    assert_eq!(
        batch_from_encodings(&vec![], &vec![vec![4]], 8, 2, 1).err(),
        Some("query 编码后为空".to_string())
    );
}

#[test]
fn empty_query_encoding_is_refused() {
    let t = tokenizers::Tokenizer::from_str(TOKENIZER).unwrap();
    let r = prepare_rerank_batch(&t, "", &vec!["cat".to_string()], 16, 2, 1);
    assert_eq!(r.err(), Some("query 编码后为空".to_string()));
}
