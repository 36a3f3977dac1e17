use laoflchdb::classify_flow::{classify_start, classify_step, ClassifyAction, ClassifyEvent, ClassifyPhase, ClassifyReply, ClassifyRequest};
use laoflchdb::image::SinkCall;

fn request(write: bool, sink: bool) -> ClassifyRequest {
    ClassifyRequest {
        bucket: String::new(),
        index_name: String::new(),
        classify_index_name: String::new(),
        min_cluster_size: 0,
        write_to_index: write,
        has_embedding_service: true,
        has_index_sink: sink,
    }
}

fn strings(v: &[&str]) -> Vec<String> {
    v.iter().map(|s| s.to_string()).collect()
}

fn reply(a: ClassifyAction) -> ClassifyReply {
    match a {
        ClassifyAction::Reply(r) => r,
        _ => panic!("not a reply"),
    }
}

fn page(keys: &[&str], truncated: bool, marker: &str) -> ClassifyEvent {
    ClassifyEvent::Page {
        success: true,
        message: String::new(),
        keys: strings(keys),
        is_truncated: truncated,
        next_marker: marker.to_string(),
    }
}

#[test]
fn classification_lists_pages_clusters_and_replies() {
    let q = request(false, false);
    let s = classify_start(&q);
    assert_eq!(s.params.bucket, "images");
    let (s, a) = classify_step(s, &q, ClassifyEvent::Begin);
    assert!(matches!(a, ClassifyAction::ListPage { ref bucket, ref marker } if bucket == "images" && marker.is_empty()));
    let (s, a) = classify_step(s, &q, page(&["1", "2"], true, "2"));
    assert!(matches!(a, ClassifyAction::ListPage { ref marker, .. } if marker == "2"));
    let (s, a) = classify_step(s, &q, page(&["3", "4"], false, ""));
    assert!(matches!(a, ClassifyAction::ReadEntries { ref index } if index == "image"));
    assert_eq!(s.keys, strings(&["1", "2", "3", "4"]));
    let entries = vec![(1, true), (2, true), (3, false), (4, true)];
    let (s, a) = classify_step(s, &q, ClassifyEvent::Entries { success: true, message: String::new(), entries });
    match a {
        ClassifyAction::Cluster { entries, min_cluster_size, min_samples } => {
            assert_eq!(entries, vec![0, 1, 3]);
            assert_eq!(min_cluster_size, 3);
            assert_eq!(min_samples, 2);
        }
        _ => panic!("expected clustering"),
    }
    let (s, a) = classify_step(s, &q, ClassifyEvent::Clustered { labels: vec![0, -1, 0], cluster_count: 1, noise_count: 1 });
    assert!(s.phase == ClassifyPhase::Done);
    let r = reply(a);
    assert_eq!(r.message, "分类完成: 3 张图片，1 个分类，1 张噪声");
    assert_eq!(r.total, 3);
    assert_eq!(r.noise_count, 1);
    assert_eq!(r.classify_index_name, "image_classification");
    assert_eq!(r.groups.len(), 1);
    assert_eq!(r.groups[0].keys, strings(&["1", "4"]));
    assert_eq!(r.groups[0].category, "cat_0");
}

#[test]
fn classification_answers_empty_buckets_and_too_few_vectors() {
    let q = request(false, false);
    let (s, _) = classify_step(classify_start(&q), &q, ClassifyEvent::Begin);
    let (_, a) = classify_step(s, &q, page(&[], false, ""));
    let r = reply(a);
    assert_eq!(r.message, "当前 bucket 没有图片");
    assert_eq!(r.total, 0);
    assert!(r.groups.is_empty());

    let (s, _) = classify_step(classify_start(&q), &q, ClassifyEvent::Begin);
    let (s, _) = classify_step(s, &q, page(&["1", "2"], false, ""));
    let (_, a) = classify_step(s, &q, ClassifyEvent::Entries { success: true, message: String::new(), entries: vec![(2, true)] });
    let r = reply(a);
    assert_eq!(r.message, "向量化图片不足(1 张)，无法聚类");
    assert_eq!(r.total, 1);

    let mut no_service = request(false, false);
    no_service.has_embedding_service = false;
    let (_, a) = classify_step(classify_start(&no_service), &no_service, ClassifyEvent::Begin);
    assert!(matches!(a, ClassifyAction::Fail(ref m) if m == "嵌入索引服务未启用"));
}

#[test]
fn classification_writes_to_the_sink() {
    let q = request(true, true);
    let (s, _) = classify_step(classify_start(&q), &q, ClassifyEvent::Begin);
    let (s, _) = classify_step(s, &q, page(&["1", "2"], false, ""));
    let (s, _) = classify_step(s, &q, ClassifyEvent::Entries { success: true, message: String::new(), entries: vec![(1, true), (2, true)] });
    let (s, a) = classify_step(s, &q, ClassifyEvent::Clustered { labels: vec![0, 0], cluster_count: 1, noise_count: 0 });
    match a {
        ClassifyAction::Write(calls) => {
            assert_eq!(calls.len(), 4);
            assert!(matches!(calls[0], SinkCall::DropIndex { ref index } if index == "image_classification"));
            assert!(matches!(calls[3], SinkCall::AddDocument { ref doc_id, .. } if doc_id == "2"));
        }
        _ => panic!("expected writes"),
    }
    let (_, a) = classify_step(s, &q, ClassifyEvent::Written);
    let r = reply(a);
    assert_eq!(r.message, "分类完成: 2 张图片，1 个分类，0 张噪声");
    assert_eq!(r.groups.len(), 1);

    let nosink = request(true, false);
    let (s, _) = classify_step(classify_start(&nosink), &nosink, ClassifyEvent::Begin);
    let (s, _) = classify_step(s, &nosink, page(&["1", "2"], false, ""));
    let (s, _) = classify_step(s, &nosink, ClassifyEvent::Entries { success: true, message: String::new(), entries: vec![(1, true), (2, true)] });
    let (_, a) = classify_step(s, &nosink, ClassifyEvent::Clustered { labels: vec![0, 0], cluster_count: 1, noise_count: 0 });
    assert!(matches!(a, ClassifyAction::Fail(ref m) if m == "全文索引未启用，无法保存分类结果"));
}

#[test]
fn classification_failures_carry_their_messages() {
    let q = request(false, false);
    let (s, _) = classify_step(classify_start(&q), &q, ClassifyEvent::Begin);
    let (_, a) = classify_step(s, &q, ClassifyEvent::Failed("down".to_string()));
    assert!(matches!(a, ClassifyAction::Fail(ref m) if m == "列出图片失败: down"));
    let (_, a) = classify_step(classify_start(&q), &q, ClassifyEvent::Written);
    assert!(matches!(a, ClassifyAction::Fail(ref m) if m == "classify step out of order"));
}
