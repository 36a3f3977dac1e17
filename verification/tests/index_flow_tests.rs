use laoflchdb::index_flow::{index_start, index_step, IndexAction, IndexEvent, IndexPhase, IndexReply, IndexRequest};
use laoflchdb::string_map::StringMap;
use laoflchdb::upload::{upload_metadata_record, upload_thumbnail_map};

fn request(index: &str, model: &str) -> IndexRequest {
    IndexRequest { key: "42".to_string(), index_name: index.to_string(), model_name: model.to_string() }
}

fn record() -> laoflchdb::image::ImageMetadataRecord {
    upload_metadata_record("42", "image/png", 10, 2, 3, "e", "1", upload_thumbnail_map("42"), StringMap::new(), "Png", "n")
}

fn reply(a: IndexAction) -> IndexReply {
    match a {
        IndexAction::Reply(r) => r,
        _ => panic!("not a reply"),
    }
}

#[test]
fn indexing_marks_the_record() {
    let q = request("", "");
    let (s, a) = index_step(index_start(), &q, IndexEvent::Begin);
    assert!(matches!(a, IndexAction::ReadMetadata));
    let (s, a) = index_step(s, &q, IndexEvent::MetadataRead(Some(record())));
    assert!(matches!(a, IndexAction::ReadObject));
    let (s, a) = index_step(s, &q, IndexEvent::ObjectRead { success: true, message: String::new() });
    assert!(matches!(a, IndexAction::Embed { ref model, ref index } if model == "jina-clip-v2" && index == "image"));
    let (s, a) = index_step(s, &q, IndexEvent::Embedded);
    assert!(matches!(a, IndexAction::Insert { ref index } if index == "image"));
    let (s, a) = index_step(s, &q, IndexEvent::Inserted { id: "42".to_string(), dim: 1024 });
    assert!(matches!(a, IndexAction::ReadClock));
    let (s, a) = index_step(s, &q, IndexEvent::Clock("99".to_string()));
    assert!(matches!(a, IndexAction::SaveMetadata));
    let (s, a) = index_step(s, &q, IndexEvent::MetadataSaved);
    assert!(s.phase == IndexPhase::Done);
    let r = reply(a);
    assert!(r.success);
    assert_eq!(r.message, "OK");
    assert_eq!((r.embedding_id.as_str(), r.embedding_dim), ("42", 1024));
    let m = r.metadata.unwrap();
    assert!(m.is_indexed);
    assert_eq!(m.index_model, "jina-clip-v2");
    assert_eq!(m.last_modified, "99");
    assert_eq!(m.key, "42");
}

#[test]
fn indexing_answers_missing_and_unreadable_images() {
    let q = request("faces", "clip");
    let (s, _) = index_step(index_start(), &q, IndexEvent::Begin);
    let (_, a) = index_step(s, &q, IndexEvent::MetadataRead(None));
    let r = reply(a);
    assert!(!r.success);
    assert_eq!(r.message, "图片不存在");
    assert!(r.metadata.is_none());

    let (s, _) = index_step(index_start(), &q, IndexEvent::Begin);
    let (s, _) = index_step(s, &q, IndexEvent::MetadataRead(Some(record())));
    let (_, a) = index_step(s, &q, IndexEvent::ObjectRead { success: false, message: "gone".to_string() });
    let r = reply(a);
    assert!(!r.success);
    assert_eq!(r.message, "读取图片失败: gone");

    let (s, _) = index_step(index_start(), &q, IndexEvent::Begin);
    let (s, _) = index_step(s, &q, IndexEvent::MetadataRead(Some(record())));
    let (s, a) = index_step(s, &q, IndexEvent::ObjectRead { success: true, message: String::new() });
    assert!(matches!(a, IndexAction::Embed { ref model, ref index } if model == "clip" && index == "faces"));
    let (_, a) = index_step(s, &q, IndexEvent::Failed("gpu".to_string()));
    assert!(matches!(a, IndexAction::Fail(ref m) if m == "图片向量化失败: gpu"));
}

#[test]
fn a_vector_already_present_still_marks_the_record() {
    let q = request("", "");
    let (s, _) = index_step(index_start(), &q, IndexEvent::Begin);
    let (s, _) = index_step(s, &q, IndexEvent::MetadataRead(Some(record())));
    let (s, _) = index_step(s, &q, IndexEvent::ObjectRead { success: true, message: String::new() });
    let (s, _) = index_step(s, &q, IndexEvent::Embedded);
    let (s, a) = index_step(s, &q, IndexEvent::InsertFailed("node 42 already exists".to_string()));
    assert!(matches!(a, IndexAction::ReadClock));
    let (s, _) = index_step(s, &q, IndexEvent::Clock("7".to_string()));
    let (_, a) = index_step(s, &q, IndexEvent::Failed("disk".to_string()));
    let r = reply(a);
    assert!(r.success);
    assert_eq!(r.message, "图片已存在向量索引，已标记为已索引");
    assert_eq!((r.embedding_id.as_str(), r.embedding_dim), ("42", 0));
    assert!(r.metadata.unwrap().is_indexed);

    let (s, _) = index_step(index_start(), &q, IndexEvent::Begin);
    let (s, _) = index_step(s, &q, IndexEvent::MetadataRead(Some(record())));
    let (s, _) = index_step(s, &q, IndexEvent::ObjectRead { success: true, message: String::new() });
    let (s, _) = index_step(s, &q, IndexEvent::Embedded);
    let (_, a) = index_step(s, &q, IndexEvent::InsertFailed("full".to_string()));
    assert!(matches!(a, IndexAction::Fail(ref m) if m == "向量索引失败: full"));
    let (_, a) = index_step(index_start(), &q, IndexEvent::Embedded);
    assert!(matches!(a, IndexAction::Fail(ref m) if m == "index step out of order"));
}
