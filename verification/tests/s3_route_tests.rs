use laoflchdb::s3_route::{
    clamp_max_keys, decode_component, default_max_keys, encode_component, listing_fields,
    lossy_text, method_not_allowed_message, parse_list_objects_params, route_request,
    timestamp_to_iso, timestamp_to_rfc7231, valid_bucket_name, S3Route,
};
use laoflchdb::sigv4::{build_canonical_query_string, header_canonical_query, parse_query_string, url_decode};

fn chars(s: &str) -> Vec<char> {
    s.chars().collect()
}

#[test]
fn root_lists_buckets_on_get_only() {
    assert!(matches!(route_request("GET", "/"), S3Route::ListBuckets));
    assert!(matches!(route_request("GET", ""), S3Route::ListBuckets));
    assert!(matches!(route_request("POST", "/"), S3Route::MethodNotAllowed));
}

#[test]
fn bucket_paths_select_bucket_operations() {
    match route_request("GET", "/photos/") {
        S3Route::ListObjects { bucket } => assert_eq!(bucket, "photos"),
        _ => panic!("expected ListObjects"),
    }
    assert!(matches!(route_request("PUT", "/photos"), S3Route::CreateBucket { .. }));
    assert!(matches!(route_request("HEAD", "/photos"), S3Route::HeadBucket { .. }));
    assert!(matches!(route_request("DELETE", "/photos"), S3Route::DeleteBucket { .. }));
    assert!(matches!(route_request("PATCH", "/photos"), S3Route::MethodNotAllowed));
}

#[test]
fn object_paths_decode_bucket_and_key() {
    match route_request("GET", "/my%20bucket/a%20b/c.txt") {
        S3Route::GetObject { bucket, key } => {
            assert_eq!(bucket, "my bucket");
            assert_eq!(key, "a b/c.txt");
        }
        _ => panic!("expected GetObject"),
    }
    assert!(matches!(route_request("PUT", "/b/k"), S3Route::PutObject { .. }));
    assert!(matches!(route_request("HEAD", "/b/k"), S3Route::HeadObject { .. }));
    assert!(matches!(route_request("DELETE", "/b/k"), S3Route::DeleteObject { .. }));
    assert!(matches!(route_request("POST", "/b/k"), S3Route::MethodNotAllowed));
}

#[test]
fn leading_slashes_before_the_bucket_are_skipped() {
    match route_request("GET", "//key") {
        S3Route::ListObjects { bucket } => assert_eq!(bucket, "key"),
        _ => panic!("expected ListObjects"),
    }
}

#[test]
fn refused_method_message() {
    assert_eq!(method_not_allowed_message("POST"), "不支持的 HTTP 方法: POST");
}

#[test]
fn percent_encoding_roundtrip() {
    assert_eq!(encode_component("a b/é"), "a%20b%2F%C3%A9");
    assert_eq!(decode_component("a%20b%2F%C3%A9"), "a b/é");
    assert_eq!(decode_component("100%"), "100%");
    assert_eq!(decode_component("%ff"), "\u{FFFD}");
    assert_eq!(lossy_text(b"ok"), "ok");
}

#[test]
fn bucket_names_are_1_to_63_bytes() {
    assert!(!valid_bucket_name(""));
    assert!(valid_bucket_name("a"));
    assert!(valid_bucket_name(&"x".repeat(63)));
    assert!(!valid_bucket_name(&"x".repeat(64)));
}

#[test]
fn max_keys_are_clamped() {
    assert_eq!(default_max_keys(), 1000);
    assert_eq!(clamp_max_keys(0), 1);
    assert_eq!(clamp_max_keys(-5), 1);
    assert_eq!(clamp_max_keys(50), 50);
    assert_eq!(clamp_max_keys(5000), 1000);
}

#[test]
fn list_parameters_are_read() {
    let p = parse_list_objects_params("list-type=2&prefix=img%2F&delimiter=%2F&max-keys=2000&continuation-token=abc&marker=zzz");
    assert_eq!(p.prefix, "img/");
    assert_eq!(p.delimiter, "/");
    assert_eq!(p.max_keys, 1000);
    assert_eq!(p.marker, "abc");
    assert!(p.is_v2);
    let q = parse_list_objects_params("marker=m1&max-keys=abc");
    assert_eq!(q.marker, "m1");
    assert_eq!(q.max_keys, 1000);
    assert!(!q.is_v2);
    assert_eq!(q.prefix, "");
}

#[test]
fn listing_fields_are_encoded_and_optional() {
    let p = parse_list_objects_params("list-type=2&prefix=a%20b&delimiter=%2F");
    let f = listing_fields(&p, true, "a b/c");
    assert_eq!(f.prefix, "a%20b");
    assert_eq!(f.marker, None);
    assert_eq!(f.next_marker, Some("a%20b%2Fc".to_string()));
    assert_eq!(f.next_continuation_token, Some("a%20b%2Fc".to_string()));
    assert_eq!(f.delimiter, Some("%2F".to_string()));
    let g = listing_fields(&p, false, "x");
    assert_eq!(g.next_marker, None);
    assert_eq!(g.next_continuation_token, None);
}

#[test]
fn timestamps_are_formatted() {
    assert_eq!(timestamp_to_iso("1700000000"), "2023-11-14T22:13:20Z");
    assert_eq!(timestamp_to_iso("not a time"), "not a time");
    assert_eq!(timestamp_to_rfc7231("1700000000"), "Tue, 14 Nov 2023 22:13:20 GMT");
    assert_eq!(timestamp_to_rfc7231("x"), "Thu, 01 Jan 1970 00:00:00 GMT");
}

#[test]
fn url_decode_drops_bad_escapes() {
    assert_eq!(url_decode(&chars("a%41b")), chars("aAb"));
    assert_eq!(url_decode(&chars("a%zzb")), chars("ab"));
    assert_eq!(url_decode(&chars("plain")), chars("plain"));
}

#[test]
fn query_parameters_keep_last_value() {
    let q = parse_query_string("a=1&b=x%20y&a=2&flag");
    assert_eq!(q.get_str("a"), Some("2".to_string()));
    assert_eq!(q.get_str("b"), Some("x y".to_string()));
    assert_eq!(q.get_str("flag"), Some("".to_string()));
    assert_eq!(q.get_str("zzz"), None);
}

#[test]
fn canonical_queries_sort_and_drop_signature() {
    let raw = "X-Amz-Signature=abc&b=2&a=1&X-Amz-Date=20240101T000000Z";
    let params = parse_query_string(raw);
    assert_eq!(build_canonical_query_string(raw, &params), "X-Amz-Date=20240101T000000Z&a=1&b=2");
    assert_eq!(header_canonical_query(&chars("b=2&a=1")), chars("a=1&b=2"));
    assert_eq!(header_canonical_query(&chars("")), chars(""));
}
