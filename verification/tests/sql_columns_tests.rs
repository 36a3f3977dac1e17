use laoflchdb::sql_columns::{
    arrow_type_for_column, column_sources, create_schema_statement, result_is_empty,
    result_row_ids, ArrowKind,
};

#[test]
fn stored_types_become_column_types() {
    assert_eq!(arrow_type_for_column(0), ArrowKind::Utf8);
    assert_eq!(arrow_type_for_column(1), ArrowKind::Int64);
    assert_eq!(arrow_type_for_column(2), ArrowKind::Binary);
    assert_eq!(arrow_type_for_column(3), ArrowKind::Float64);
    assert_eq!(arrow_type_for_column(4), ArrowKind::Utf8);
    assert_eq!(arrow_type_for_column(-1), ArrowKind::Utf8);
}

#[test]
fn fields_feed_their_columns_in_row_order() {
    let decoded = vec![
        vec![true, true, true],
        vec![true, false],
        vec![],
        vec![false, true],
    ];
    let cols = column_sources(2, &decoded);
    assert_eq!(cols, vec![vec![0, 1], vec![0, 3]]);
    assert_eq!(column_sources(0, &decoded), Vec::<Vec<usize>>::new());
}

#[test]
fn schema_statement() {
    assert_eq!(create_schema_statement("sys"), "CREATE SCHEMA IF NOT EXISTS laoflchdb.sys;");
}

#[test]
fn empty_results() {
    assert!(result_is_empty(0, 3));
    assert!(result_is_empty(2, 0));
    assert!(!result_is_empty(1, 1));
}

#[test]
fn each_batch_numbers_rows_from_zero() {
    assert_eq!(result_row_ids(&vec![2, 0, 3]), vec![0, 1, 0, 1, 2]);
    assert_eq!(result_row_ids(&vec![]), Vec::<u64>::new());
}
