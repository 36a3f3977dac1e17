use laoflchdb::kv_meta::{
    bytes_less, check_create_table, column_meta_key, column_meta_prefix, list_tables_from_keys,
    schema_meta_key, table_meta_key, table_meta_prefix, take_keys, take_range, EngineOptions,
};
use laoflchdb::object_store::{
    bucket_creation_date, bucket_meta_key, effective_max_keys, etag_from_uuid, generate_etag,
    keys_as_text, listing_cuts_safe, now_string, object_data_key,
    object_meta_from_json, object_meta_key, plan_listing, strip_leading_slash,
    upload_content_type, ObjectStoreConfig,
};
use laoflchdb::s3_auth::HeaderList;
use laoflchdb::string_map::StringMap;

fn strings(v: &[&str]) -> Vec<String> {
    v.iter().map(|s| s.to_string()).collect()
}

#[test]
fn object_store_defaults() {
    let c = ObjectStoreConfig::default();
    assert!(!c.enabled);
    assert_eq!(c.db_path, "./laoflch_object_store_data");
    assert_eq!(c.schema_name, "object_store");
    assert_eq!(c.blob_db.blob_file_size, 256 * 1024 * 1024);
    assert_eq!(c.blob_db.blob_compression_type, "zstd");
    assert_eq!(c.blob_db.blob_garbage_collection_age_cutoff_percent, 25);
}

#[test]
fn object_keys() {
    assert_eq!(object_data_key("a/b.txt"), "__obj__a/b.txt");
    assert_eq!(object_meta_key("a/b.txt"), "__meta__a/b.txt");
    assert_eq!(bucket_meta_key(), "__bucket_meta__");
    assert_eq!(strip_leading_slash("/a/b"), "a/b");
    assert_eq!(strip_leading_slash("a"), "a");
    assert_eq!(strip_leading_slash(""), "");
}

#[test]
fn upload_content_type_defaults_to_octet_stream() {
    let mut h = HeaderList::new();
    assert_eq!(upload_content_type(&h), "application/octet-stream");
    h.append("Content-Type", b"image/png");
    assert_eq!(upload_content_type(&h), "image/png");
}

#[test]
fn etags_and_clock() {
    assert_eq!(etag_from_uuid("67e55044-10b1-426f-9247-bb680e5fe0c8"), "\"67e5504410b1426f9247bb680e5fe0c8\"");
    let e = generate_etag();
    assert_eq!(e.len(), 34);
    assert!(e.starts_with('"') && e.ends_with('"'));
    assert!(now_string().chars().all(|c| c.is_ascii_digit()));
}

#[test]
fn listing_splits_objects_and_common_prefixes() {
    let raw: Vec<Vec<u8>> = ["__meta__x", "__obj__a/1.jpg", "__obj__a/2.jpg", "__obj__b.txt", "__obj__c/d/e"]
        .iter()
        .map(|s| s.as_bytes().to_vec())
        .collect();
    let keys = keys_as_text(&raw);
    assert!(listing_cuts_safe(&keys, "", "/"));
    let plan = plan_listing(&keys, "", "/", "", 1000);
    assert_eq!(plan.object_keys, strings(&["b.txt"]));
    assert_eq!(plan.common_prefixes, strings(&["a/", "c/"]));
    assert!(!plan.is_truncated);
    assert_eq!(plan.next_marker, "");
    let flat = plan_listing(&keys, "", "", "", 1000);
    assert_eq!(flat.object_keys, strings(&["a/1.jpg", "a/2.jpg", "b.txt", "c/d/e"]));
    assert!(flat.common_prefixes.is_empty());
    let under_a = plan_listing(&keys, "a/", "/", "", 1000);
    assert_eq!(under_a.object_keys, strings(&["a/1.jpg", "a/2.jpg"]));
    assert!(under_a.common_prefixes.is_empty());
}

#[test]
fn listing_rolls_every_key_under_a_prefix() {
    let keys = strings(&["__obj__a/1", "__obj__a/2", "__obj__b"]);
    let plan = plan_listing(&keys, "", "/", "", 1000);
    assert_eq!(plan.common_prefixes, strings(&["a/"]));
    assert_eq!(plan.object_keys, strings(&["b"]));
    assert!(!plan.is_truncated);
    assert_eq!(plan.next_marker, "");
}

#[test]
fn listing_page_and_marker() {
    assert_eq!(effective_max_keys(0), 1000);
    assert_eq!(effective_max_keys(-3), 1000);
    assert_eq!(effective_max_keys(7), 7);
    let keys = strings(&["__obj__x", "__obj__y"]);
    let full = plan_listing(&keys, "", "", "", 2);
    assert_eq!(full.object_keys, strings(&["x", "y"]));
    assert!(!full.is_truncated);
    assert_eq!(full.next_marker, "");
    let short = plan_listing(&keys, "", "", "", 1);
    assert_eq!(short.object_keys, strings(&["x"]));
    assert!(short.is_truncated);
    assert_eq!(short.next_marker, "x");
    let abc = strings(&["__obj__a", "__obj__b", "__obj__c"]);
    let after_a = plan_listing(&abc, "", "", "a", 1000);
    assert_eq!(after_a.object_keys, strings(&["b", "c"]));
    let rolled = strings(&["__obj__a/1", "__obj__a/2", "__obj__b", "__obj__c"]);
    let p1 = plan_listing(&rolled, "", "/", "", 2);
    assert_eq!(p1.common_prefixes, strings(&["a/"]));
    assert_eq!(p1.object_keys, strings(&["b"]));
    assert!(p1.is_truncated);
    assert_eq!(p1.next_marker, "b");
    let p2 = plan_listing(&rolled, "", "/", &p1.next_marker, 2);
    assert_eq!(p2.object_keys, strings(&["c"]));
    assert!(p2.common_prefixes.is_empty());
    assert!(!p2.is_truncated);
    let after_prefix = plan_listing(&rolled, "", "/", "a/", 2);
    assert_eq!(after_prefix.object_keys, strings(&["b", "c"]));
    assert!(after_prefix.common_prefixes.is_empty());
}

#[test]
fn object_metadata_is_read_from_json() {
    let doc = br#"{"content_type":"text/plain","content_length":12,"etag":"\"x\"","last_modified":"1700000000","user_metadata":{"k":"v"}}"#;
    let m = object_meta_from_json(doc);
    assert_eq!(m.content_type, "text/plain");
    assert_eq!(m.content_length, 12);
    assert_eq!(m.etag, "\"x\"");
    assert_eq!(m.last_modified, "1700000000");
    assert_eq!(m.user_metadata, vec![("k".to_string(), "v".to_string())]);
    let empty = object_meta_from_json(b"not json");
    assert_eq!(empty.content_length, 0);
    assert_eq!(empty.content_type, "");
    assert_eq!(bucket_creation_date(br#"{"creation_date":"2024"}"#), "2024");
    assert_eq!(bucket_creation_date(b"{}"), "");
}

#[test]
fn engine_defaults_and_meta_keys() {
    let o = EngineOptions::default();
    assert_eq!(o.db_path, "./db_data");
    assert_eq!(o.schema_name, "sys");
    assert_eq!(schema_meta_key("sys"), "META-SCHEMA:sys");
    assert_eq!(table_meta_key("users", 42), "META-TABLE:users:42");
    assert_eq!(table_meta_prefix("users"), "META-TABLE:users:");
    assert_eq!(column_meta_key(42, "name", 3), "META-COL:00000000000000000042:name:3");
    assert_eq!(column_meta_prefix(42), "META-COL:00000000000000000042:");
}

#[test]
fn tables_are_listed_from_meta_keys_once() {
    let keys: Vec<Vec<u8>> = vec![
        b"META-TABLE:users:1".to_vec(),
        b"META-TABLE:users:2".to_vec(),
        b"META-SCHEMA:sys".to_vec(),
        b"META-TABLE:orders".to_vec(),
        vec![0xff, 0xfe],
    ];
    let mut t = list_tables_from_keys(&keys);
    t.sort();
    assert_eq!(t, strings(&["orders", "users"]));
}

#[test]
fn table_creation_refusals() {
    assert_eq!(check_create_table("default", false), Err("Cannot create reserved table 'default'".to_string()));
    assert_eq!(check_create_table("users", true), Err("Table 'users' already exists".to_string()));
    assert_eq!(check_create_table("users", false), Ok(()));
}

#[test]
fn prefix_listing_and_range_scan() {
    let keys: Vec<Vec<u8>> = vec![b"a1".to_vec(), b"a2".to_vec(), b"a3".to_vec(), b"b1".to_vec()];
    assert_eq!(take_keys(&keys, Some(b"a"), None), vec![b"a1".to_vec(), b"a2".to_vec(), b"a3".to_vec()]);
    assert_eq!(take_keys(&keys, Some(b"a"), Some(2)), vec![b"a1".to_vec(), b"a2".to_vec()]);
    assert_eq!(take_keys(&keys, Some(b"a"), Some(0)), vec![b"a1".to_vec()]);
    assert_eq!(take_keys(&keys, None, None).len(), 4);
    let entries: Vec<(Vec<u8>, Vec<u8>)> = keys.iter().map(|k| (k.clone(), b"v".to_vec())).collect();
    let r = take_range(&entries, b"a3", None);
    assert_eq!(r.len(), 2);
    assert_eq!(take_range(&entries, b"c", Some(3)).len(), 3);
    assert!(bytes_less(b"ab", b"b"));
    assert!(bytes_less(b"a", b"ab"));
    assert!(!bytes_less(b"b", b"b"));
}

#[test]
fn string_map_reads_back_writes() {
    let mut m = StringMap::new();
    assert_eq!(m.get("k"), None);
    m.insert("k", "v1");
    m.insert("j", "w");
    m.insert("k", "v2");
    assert_eq!(m.get("k"), Some("v2".to_string()));
    assert_eq!(m.get("j"), Some("w".to_string()));
    m.remove("k");
    assert_eq!(m.get("k"), None);
    assert_eq!(m.get("j"), Some("w".to_string()));
}

use laoflchdb::kv_meta::{
    comment_column, next_table_id, sort_columns, table_not_found_message, table_records,
    KvColumnMeta, KvColumnSpec,
};

fn col(id: u64, name: &str) -> KvColumnMeta {
    KvColumnMeta { table_id: 7, column_id: id, column_name: name.to_string(), column_type: 0, comment: String::new() }
}

#[test]
fn table_ids_count_up_from_the_schema_record() {
    assert_eq!(next_table_id(Some(3)), (3, Some(4)));
    assert_eq!(next_table_id(None), (0, None));
}

#[test]
fn new_table_records() {
    let cols = vec![
        KvColumnSpec { name: "name".to_string(), column_type: 0, comment: Some("who".to_string()) },
        KvColumnSpec { name: "age".to_string(), column_type: 1, comment: None },
    ];
    let (key, meta, records) = table_records("users", None, &cols, 5);
    assert_eq!(key, "META-TABLE:users:5");
    assert_eq!((meta.table_id, meta.column_count, meta.next_auto_inc_column_id), (5, 2, 2));
    assert_eq!(meta.comment, "");
    assert_eq!(records.len(), 2);
    assert_eq!(records[0].0, "META-COL:00000000000000000005:name:0");
    assert_eq!(records[0].1.comment, "who");
    assert_eq!(records[1].0, "META-COL:00000000000000000005:age:1");
    assert_eq!((records[1].1.column_id, records[1].1.column_type), (1, 1));
}

#[test]
fn listed_columns_are_ordered_by_id() {
    let stored = vec![col(2, "c"), col(0, "a"), col(1, "b"), col(1, "b2")];
    let sorted = sort_columns(&stored);
    let names: Vec<&str> = sorted.iter().map(|c| c.column_name.as_str()).collect();
    assert_eq!(names, vec!["a", "b", "b2", "c"]);
}

#[test]
fn column_comments() {
    let stored = vec![col(0, "a"), col(1, "b")];
    let (i, m) = comment_column(&stored, "users", "b", "note").unwrap();
    assert_eq!(i, 1);
    assert_eq!(m.comment, "note");
    assert_eq!(m.column_id, 1);
    assert_eq!(
        comment_column(&stored, "users", "zz", "x").err().unwrap(),
        "Column 'zz' not found in table 'users'"
    );
    assert_eq!(table_not_found_message("users"), "Table 'users' not found");
}
