use laoflchdb::string_map::StringMap;
use laoflchdb::upload::{
    upload_metadata_record, upload_start, upload_step, upload_thumbnail_map, UploadAction, UploadEvent, UploadPhase,
    UploadReply, UploadRequestFlags, UploadState,
};

fn flags(auto_index: bool, action: &str, key: &str) -> UploadRequestFlags {
    let mut user = StringMap::new();
    user.insert("owner", "me");
    UploadRequestFlags {
        auto_index,
        duplicate_action: action.to_string(),
        requested_key: key.to_string(),
        index_model: String::new(),
        content_type: "image/png".to_string(),
        content_length: 42,
        name: "cat".to_string(),
        user_metadata: user,
    }
}

fn state(phase: UploadPhase) -> UploadState {
    let mut s = upload_start();
    s.phase = phase;
    s
}

fn reply(a: UploadAction) -> UploadReply {
    match a {
        UploadAction::Reply(r) => r,
        _ => panic!("not a reply"),
    }
}

fn summary(r: &UploadReply) -> (bool, String, String, String, bool, String, i32, bool, String) {
    (
        r.success,
        r.message.clone(),
        r.key.clone(),
        r.etag.clone(),
        r.auto_indexed,
        r.embedding_id.clone(),
        r.embedding_dim,
        r.duplicate_detected,
        r.existing_key.clone(),
    )
}

#[test]
fn plain_upload_runs_every_store() {
    let f = flags(false, "", "k1");
    let (s, a) = upload_step(upload_start(), &f, UploadEvent::Begin);
    assert!(matches!(a, UploadAction::EnsureBucket));
    let (s, a) = upload_step(s, &f, UploadEvent::BucketReady);
    assert!(matches!(a, UploadAction::Decode));
    assert_eq!(s.key, "k1");
    let (s, a) = upload_step(s, &f, UploadEvent::Decoded { width: 640, height: 480, format: "Png".to_string() });
    assert!(matches!(a, UploadAction::StoreOriginal { ref key } if key == "k1"));
    let (mut s, mut a) = upload_step(s, &f, UploadEvent::OriginalStored { success: true, etag: "e1".to_string() });
    let mut thumbs = Vec::new();
    while let UploadAction::StoreThumbnail { size_name, max_size, thumb_key } = a {
        thumbs.push((size_name, max_size, thumb_key));
        let r = upload_step(s, &f, UploadEvent::ThumbnailStored);
        s = r.0;
        a = r.1;
    }
    assert_eq!(
        thumbs,
        vec![
            ("thumbnail".to_string(), 128, "k1__thumbnail.jpg".to_string()),
            ("small".to_string(), 256, "k1__small.jpg".to_string()),
            ("medium".to_string(), 512, "k1__medium.jpg".to_string()),
        ]
    );
    assert!(matches!(a, UploadAction::ReadClock));
    let (s, a) = upload_step(s, &f, UploadEvent::Clock("1700000000".to_string()));
    assert!(matches!(a, UploadAction::SaveMetadata));
    {
        let m = s.record.as_ref().unwrap();
        assert_eq!(m.key, "k1");
        assert_eq!((m.width, m.height), (640, 480));
        assert_eq!(m.content_length, 42);
        assert_eq!(m.etag, "e1");
        assert_eq!(m.last_modified, "1700000000");
        assert_eq!(m.format, "Png");
        assert_eq!(m.name, "cat");
        assert_eq!(m.thumbnails.get("thumbnail"), Some("k1__thumbnail.jpg".to_string()));
        assert_eq!(m.thumbnails.get("small"), Some("k1__small.jpg".to_string()));
        assert_eq!(m.thumbnails.get("medium"), Some("k1__medium.jpg".to_string()));
        assert_eq!(m.user_metadata.get("owner"), Some("me".to_string()));
        assert!(!m.is_indexed);
    }
    let (s, a) = upload_step(s, &f, UploadEvent::MetadataSaved);
    assert!(s.phase == UploadPhase::Done);
    let r = reply(a);
    assert_eq!(
        summary(&r),
        (true, "OK".to_string(), "k1".to_string(), "e1".to_string(), false, String::new(), 0, false, String::new())
    );
    let m = r.metadata.unwrap();
    assert_eq!(m.key, "k1");
    assert_eq!(m.thumbnails.get("medium"), Some("k1__medium.jpg".to_string()));
}

#[test]
fn duplicates_follow_the_requested_action() {
    let dups = vec![("11".to_string(), 512), ("12".to_string(), 512)];
    let dup_state = || {
        let mut s = state(UploadPhase::Duplicates);
        s.has_embedding = true;
        s
    };
    let (_, a) = upload_step(dup_state(), &flags(true, "skip", ""), UploadEvent::DuplicatesFound(dups.clone()));
    let r = reply(a);
    assert_eq!(
        summary(&r),
        (
            true,
            "Image already exists, skipped storage".to_string(),
            "11".to_string(),
            String::new(),
            true,
            "11".to_string(),
            512,
            true,
            "11".to_string()
        )
    );
    assert!(r.metadata.is_none());
    let (_, a) = upload_step(dup_state(), &flags(true, "", ""), UploadEvent::DuplicatesFound(dups.clone()));
    let r = reply(a);
    assert_eq!(r.message, "Duplicate image detected, please confirm");
    assert_eq!(r.existing_key, "11");
    let (t, a) = upload_step(dup_state(), &flags(true, "overwrite", "mine"), UploadEvent::DuplicatesFound(dups.clone()));
    assert!(matches!(a, UploadAction::DeleteDuplicates(ref k) if *k == vec!["11".to_string(), "12".to_string()]));
    let (_, a) = upload_step(t, &flags(true, "overwrite", "mine"), UploadEvent::DuplicatesDeleted);
    assert!(matches!(a, UploadAction::GenerateKey));
    let (_, a) = upload_step(dup_state(), &flags(true, "new", "mine"), UploadEvent::DuplicatesFound(dups));
    assert!(matches!(a, UploadAction::GenerateKey));
    let (_, a) = upload_step(dup_state(), &flags(true, "skip", "mine"), UploadEvent::Failed("down".to_string()));
    assert!(matches!(a, UploadAction::Fail(ref m) if m == "图片去重检查失败: down"));
}

#[test]
fn indexing_marks_the_record_and_the_reply() {
    let f = flags(true, "", "");
    let mut s = state(UploadPhase::Clock);
    s.has_embedding = true;
    s.key = "7".to_string();
    s.etag = "e".to_string();
    let (s, _) = upload_step(s, &f, UploadEvent::Clock("5".to_string()));
    let (s, a) = upload_step(s, &f, UploadEvent::MetadataSaved);
    assert!(matches!(a, UploadAction::Index { ref key } if key == "7"));
    let (s, a) = upload_step(s, &f, UploadEvent::Indexed { id: "7".to_string(), dim: 1024 });
    assert!(matches!(a, UploadAction::SaveMetadata));
    {
        let m = s.record.as_ref().unwrap();
        assert!(m.is_indexed);
        assert_eq!(m.index_model, "jina-clip-v2");
    }
    let (_, a) = upload_step(s, &f, UploadEvent::Failed("disk".to_string()));
    let r = reply(a);
    assert_eq!(
        summary(&r),
        (true, "OK".to_string(), "7".to_string(), "e".to_string(), true, "7".to_string(), 1024, false, String::new())
    );
    let m = r.metadata.unwrap();
    assert!(m.is_indexed);
    assert_eq!(m.last_modified, "5");
}

#[test]
fn failures_and_stray_events_end_the_upload() {
    let f = flags(false, "", "");
    let (t, a) = upload_step(upload_start(), &f, UploadEvent::ThumbnailStored);
    assert!(t.phase == UploadPhase::Done);
    assert!(matches!(a, UploadAction::Fail(ref m) if m == "upload step out of order"));
    let mut s = state(UploadPhase::Original);
    s.key = "k".to_string();
    let (_, a) = upload_step(s, &f, UploadEvent::OriginalStored { success: false, etag: "x".to_string() });
    let r = reply(a);
    assert!(!r.success);
    assert_eq!(r.message, "Failed to upload original image");
    assert_eq!(r.key, "k");
    assert!(r.metadata.is_none());
    let (_, a) = upload_step(upload_start(), &f, UploadEvent::Failed("no bucket".to_string()));
    assert!(matches!(a, UploadAction::Fail(ref m) if m == "no bucket"));
}

#[test]
fn upload_metadata_record_fields() {
    let thumbs = upload_thumbnail_map("k1");
    assert_eq!(thumbs.get("small"), Some("k1__small.jpg".to_string()));
    let mut user = StringMap::new();
    user.insert("a", "b");
    let copy = user.duplicate();
    assert_eq!(copy.get("a"), Some("b".to_string()));
    let r = upload_metadata_record("k1", "image/png", 42, 10, 20, "et", "100", thumbs, user, "Png", "cat");
    assert_eq!(r.key, "k1");
    assert_eq!(r.content_length, 42);
    assert_eq!((r.width, r.height), (10, 20));
    assert_eq!(r.etag, "et");
    assert_eq!(r.last_modified, "100");
    assert_eq!(r.format, "Png");
    assert_eq!(r.name, "cat");
    assert!(!r.is_indexed);
    assert!(r.index_model.is_empty());
    assert_eq!(r.user_metadata.get("a"), Some("b".to_string()));
    assert_eq!(r.thumbnails.get("medium"), Some("k1__medium.jpg".to_string()));
}
