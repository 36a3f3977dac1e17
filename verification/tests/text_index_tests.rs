use laoflchdb::text_index::{
    cell_bytes, column_type_of_field, field_kind_for_column, index_schema, is_row_id_field,
    list_columns, query_combination, render_stored_value, row_document, scan_limit,
    scanned_row_id, select_search_fields, ColumnListing, ColumnSpec, FieldKind,
    QueryCombination, StoredValue, TextIndexCatalog, TextIndexError,
};

fn spec(name: &str, t: i32) -> ColumnSpec {
    ColumnSpec { name: name.to_string(), column_type: t }
}

fn generator() -> snowflake_me::Snowflake {
    snowflake_me::Snowflake::builder()
        .machine_id(&|| Ok(1))
        .data_center_id(&|| Ok(1))
        .finalize()
        .unwrap()
}

#[test]
fn column_types_map_to_field_kinds() {
    assert_eq!(field_kind_for_column(0), FieldKind::IndexedText);
    assert_eq!(field_kind_for_column(2), FieldKind::IndexedText);
    assert_eq!(field_kind_for_column(1), FieldKind::Int64);
    assert_eq!(field_kind_for_column(3), FieldKind::Float64);
    assert_eq!(field_kind_for_column(5), FieldKind::StoredText);
}

#[test]
fn column_type_roundtrip_keeps_string_int_float() {
    let back: Vec<i32> = (0..6).map(|c| column_type_of_field(field_kind_for_column(c))).collect();
    assert_eq!(back, vec![0, 1, 0, 3, 0, 0]);
    assert_eq!(column_type_of_field(FieldKind::UInt64), 0);
}

#[test]
fn created_columns_are_listed_back() {
    let cols = vec![spec("id", 1), spec("name", 0), spec("blob", 2), spec("score", 3)];
    let schema = index_schema(&cols);
    assert_eq!(schema.len(), 5);
    assert!(is_row_id_field(&schema[0].name));
    assert_eq!(schema[0].kind, FieldKind::UInt64);
    assert_eq!(schema[1].name, "id");
    assert_eq!(schema[1].kind, FieldKind::Int64);
    let listed = list_columns(&schema);
    let got: Vec<(u64, String, i32)> =
        listed.iter().map(|c| (c.column_id, c.column_name.clone(), c.column_type)).collect();
    assert_eq!(
        got,
        vec![
            (0, "id".to_string(), 1),
            (1, "name".to_string(), 0),
            (2, "blob".to_string(), 0),
            (3, "score".to_string(), 3),
        ]
    );
}

#[test]
fn catalog_create_list_drop() {
    let mut cat = TextIndexCatalog::new();
    let cols = vec![spec("name", 0), spec("email", 0)];
    assert_eq!(cat.register_table("users", Some("people"), &cols, 42, false), 42);
    assert!(cat.contains("users"));
    assert_eq!(cat.list_tables(), vec!["users".to_string()]);
    let meta = cat.get_table_meta("users").unwrap();
    assert_eq!(meta.table_id, 42);
    assert_eq!(meta.column_count, 2);
    assert_eq!(meta.comment, "people");
    assert_eq!(meta.next_auto_inc_column_id, 2);

    // A second creation under the same name changes nothing.
    assert_eq!(cat.register_table("users", None, &vec![], 7, false), 7);
    assert_eq!(cat.get_table_meta("users").unwrap().table_id, 42);

    let listed = cat.list_table_cols("users").unwrap();
    assert_eq!(listed.len(), 2);
    assert_eq!(listed[1].column_name, "email");
    let types = cat.get_column_types("users").unwrap();
    assert_eq!(types, vec![("name".to_string(), 0), ("email".to_string(), 0)]);

    cat.drop_table("users");
    assert!(!cat.contains("users"));
    assert!(cat.list_tables().is_empty());
    match cat.list_table_cols("users") {
        Err(e) => assert_eq!(e.message(), "Table not found: users"),
        Ok(_) => panic!("dropped table still listed"),
    }
}

#[test]
fn existing_directory_keeps_catalog_unchanged() {
    let mut cat = TextIndexCatalog::new();
    assert_eq!(cat.register_table("t", None, &vec![spec("a", 0)], 5, true), 5);
    assert!(!cat.contains("t"));
    let id = cat.create_table("u", None, &vec![spec("a", 0)], false);
    assert_eq!(cat.get_table_meta("u").unwrap().table_id, id);
    assert_eq!(cat.get_table_meta("u").unwrap().comment, "");
}

#[test]
fn update_comment_of_missing_table_is_refused() {
    let mut cat = TextIndexCatalog::new();
    match cat.update_table_comment("nope", "x") {
        Err(TextIndexError::TableNotFound(t)) => assert_eq!(t, "nope"),
        _ => panic!("expected TableNotFound"),
    }
    cat.register_table("t", None, &vec![], 1, false);
    assert!(cat.update_table_comment("t", "hello").is_ok());
    assert_eq!(cat.get_table_meta("t").unwrap().comment, "hello");
}

#[test]
fn fallback_row_ids_count_up_from_one() {
    let mut cat = TextIndexCatalog::new();
    cat.register_table("t", None, &vec![spec("a", 0)], 1, false);
    assert_eq!(cat.next_row_id(None, "t"), 1);
    assert_eq!(cat.next_row_id(None, "t"), 2);
    assert_eq!(cat.next_row_id(Some(99), "t"), 99);
    assert_eq!(cat.next_row_id(None, "t"), 3);
    assert_eq!(cat.next_row_id(None, "other"), 1);
}

#[test]
fn row_document_pairs_columns_with_values() {
    let cols = vec![
        ColumnListing { column_id: 0, column_name: "name".to_string(), column_type: 0 },
        ColumnListing { column_id: 1, column_name: "email".to_string(), column_type: 0 },
    ];
    let data = vec![b"John".to_vec(), b"john@example.com".to_vec(), b"extra".to_vec()];
    let doc = row_document(&cols, &data);
    assert_eq!(
        doc,
        vec![
            ("name".to_string(), "John".to_string()),
            ("email".to_string(), "john@example.com".to_string()),
        ]
    );
    let bad = vec![vec![0xffu8]];
    assert_eq!(row_document(&cols, &bad), vec![("name".to_string(), "\u{FFFD}".to_string())]);
}

#[test]
fn prepare_row_refuses_missing_table_and_builds_document() {
    let g = generator();
    let mut cat = TextIndexCatalog::new();
    match cat.prepare_row(&g, "users", &vec![b"x".to_vec()]) {
        Err(e) => assert_eq!(e.message(), "Table not found: users"),
        Ok(_) => panic!("missing table accepted"),
    }
    cat.register_table("users", None, &vec![spec("name", 0)], 1, false);
    let (id, doc) = cat.prepare_row(&g, "users", &vec![b"Ann".to_vec()]).ok().unwrap();
    assert_ne!(id, 0);
    assert_eq!(doc, vec![("name".to_string(), "Ann".to_string())]);
}

#[test]
fn stored_values_are_shown() {
    assert_eq!(render_stored_value(FieldKind::Int64, &StoredValue::I64(-5)), "-5");
    assert_eq!(render_stored_value(FieldKind::Int64, &StoredValue::U64(5)), "0");
    assert_eq!(render_stored_value(FieldKind::UInt64, &StoredValue::U64(12)), "12");
    assert_eq!(render_stored_value(FieldKind::IndexedText, &StoredValue::Text("hi".to_string())), "hi");
    assert_eq!(render_stored_value(FieldKind::StoredText, &StoredValue::Bytes(vec![0xff])), "\u{FFFD}");
    assert_eq!(render_stored_value(FieldKind::StoredText, &StoredValue::I64(3)), "");
    assert_eq!(cell_bytes(FieldKind::IndexedText, Some(&StoredValue::Text("é".to_string()))), vec![0xc3, 0xa9]);
    assert_eq!(cell_bytes(FieldKind::IndexedText, None), Vec::<u8>::new());
}

#[test]
fn scan_helpers() {
    assert_eq!(scanned_row_id(4, Some(&StoredValue::U64(77))), 77);
    assert_eq!(scanned_row_id(4, Some(&StoredValue::I64(77))), 4);
    assert_eq!(scanned_row_id(4, None), 4);
    assert_eq!(scan_limit(None), 10000);
    assert_eq!(scan_limit(Some(3)), 3);
    assert_eq!(query_combination(0), QueryCombination::Skip);
    assert_eq!(query_combination(1), QueryCombination::Single);
    assert_eq!(query_combination(4), QueryCombination::AllMust);
}

#[test]
fn search_fields_drop_row_id_and_unknown_names() {
    let schema = vec!["_row_id".to_string(), "title".to_string(), "body".to_string()];
    assert_eq!(select_search_fields(None, &schema), vec!["title".to_string(), "body".to_string()]);
    let req = vec!["body".to_string(), "_row_id".to_string(), "nope".to_string()];
    assert_eq!(select_search_fields(Some(&req), &schema), vec!["body".to_string()]);
    assert!(select_search_fields(Some(&vec![]), &schema).is_empty());
}

#[test]
fn test_create_table() {
    let mut cat = TextIndexCatalog::new();
    let columns = vec![spec("id", 1), spec("name", 0), spec("description", 0)];
    let table_id = cat.create_table("test_table", Some("Test table"), &columns, false);
    assert_ne!(table_id, 0);
    assert!(cat.list_tables().contains(&"test_table".to_string()));
}

#[test]
fn created_table_ids_carry_the_variant_bits() {
    let mut cat = TextIndexCatalog::new();
    let id = cat.create_table("t", None, &vec![spec("a", 0)], false);
    assert!(id >= 1u64 << 63 && id < 3u64 << 62);
}
