use laoflchdb::lsql::{
    align_cell, clear_auth_token, column_type_to_string, describe_table_lines, get_auth_token,
    parse_meta_command, prompt, query_result_lines, separator_line, set_auth_token,
    split_whitespace_chars, table_row, truncate_display, Align, AuthSession, ColumnDisplay,
    MetaCommand, SqlCell,
};

fn chars(s: &str) -> Vec<char> {
    s.chars().collect()
}

#[test]
fn login_state_and_prompt() {
    let mut s = AuthSession::new();
    assert_eq!(get_auth_token(&s), None);
    assert_eq!(prompt("sys", &s), "lsql@sys (guest)> ");
    set_auth_token(&mut s, "tok".to_string());
    assert_eq!(get_auth_token(&s), Some("tok".to_string()));
    assert_eq!(prompt("sys", &s), "lsql@sys> ");
    clear_auth_token(&mut s);
    assert_eq!(get_auth_token(&s), None);
    assert!(!s.authenticated);
}

#[test]
fn column_type_names() {
    let names: Vec<String> = (0..6).map(column_type_to_string).collect();
    assert_eq!(names, vec!["STRING", "INT64", "BYTES", "FLOAT", "LIST", "IMAGE"]);
    assert_eq!(column_type_to_string(9), "UNKNOWN(9)");
    assert_eq!(column_type_to_string(-2), "UNKNOWN(-2)");
}

#[test]
fn meta_commands() {
    assert!(matches!(parse_meta_command("\\q"), MetaCommand::Quit));
    assert!(matches!(parse_meta_command("  \\quit  "), MetaCommand::Quit));
    assert!(matches!(parse_meta_command("\\?"), MetaCommand::Help));
    assert!(matches!(parse_meta_command("\\dt"), MetaCommand::ListTables));
    match parse_meta_command("\\c analytics") {
        MetaCommand::Connect(s) => assert_eq!(s, "analytics"),
        _ => panic!("expected Connect"),
    }
    assert!(matches!(parse_meta_command("\\c"), MetaCommand::Unknown));
    match parse_meta_command("\\d users") {
        MetaCommand::Describe(t) => assert_eq!(t, "users"),
        _ => panic!("expected Describe"),
    }
    match parse_meta_command("\\search docs  hello   world") {
        MetaCommand::Search { index, query } => {
            assert_eq!(index, "docs");
            assert_eq!(query, "hello world");
        }
        _ => panic!("expected Search"),
    }
    assert!(matches!(parse_meta_command("\\search docs"), MetaCommand::Unknown));
    assert!(matches!(parse_meta_command("\\dstats"), MetaCommand::IndexStats));
    assert!(matches!(parse_meta_command("\\nope"), MetaCommand::Unknown));
}

#[test]
fn words_and_cells() {
    assert_eq!(split_whitespace_chars(&chars(" a  bc\td ")), vec![chars("a"), chars("bc"), chars("d")]);
    assert_eq!(align_cell(&chars("ab"), 5, Align::Left), chars("ab   "));
    assert_eq!(align_cell(&chars("ab"), 5, Align::Right), chars("   ab"));
    assert_eq!(align_cell(&chars("ab"), 5, Align::Center), chars(" ab  "));
    assert_eq!(align_cell(&chars("abcdef"), 3, Align::Left), chars("abcdef"));
    assert_eq!(separator_line(&[2, 4]), chars("+----+------+"));
    assert_eq!(table_row(&vec![chars("a "), chars("bb")]), chars("| a  | bb |"));
    assert_eq!(truncate_display("abcdef", 3), "abc...");
    assert_eq!(truncate_display("abc", 3), "abc");
}

#[test]
fn query_results_are_framed() {
    let cols = vec!["id".to_string(), "name".to_string()];
    let rows = vec![
        vec![SqlCell::Int64(1), SqlCell::Text("ann".to_string())],
        vec![SqlCell::Int64(22), SqlCell::Null],
    ];
    assert_eq!(
        query_result_lines(&cols, &rows),
        vec![
            "+----+------+".to_string(),
            "| id | name |".to_string(),
            "+----+------+".to_string(),
            "|  1 | ann  |".to_string(),
            "| 22 | NULL |".to_string(),
            "+----+------+".to_string(),
            "(2 行)".to_string(),
        ]
    );
    assert_eq!(query_result_lines(&cols, &vec![]), vec!["查询成功，没有返回结果".to_string()]);
    let more = vec![vec![SqlCell::Bool(true), SqlCell::Bytes(3)]];
    let lines = query_result_lines(&cols, &more);
    assert_eq!(lines[3], "| true | <bytes:3> |");
}

#[test]
fn table_description() {
    let cols = vec![ColumnDisplay { column_id: 0, column_name: "id".to_string(), column_type: 1, comment: String::new() }];
    let sep = "+----------+----------+----------+----------+".to_string();
    let header = format!("| {:^8} | {:^8} | {:^8} | {:^8} |", "列ID", "列名", "类型", "注释");
    assert_eq!(
        describe_table_lines("sys", "users", &cols),
        vec![
            "表 \"sys.users\"".to_string(),
            sep.clone(),
            header,
            sep.clone(),
            "|        0 | id       | INT64    |          |".to_string(),
            sep,
            "(1 列)".to_string(),
        ]
    );
    assert_eq!(describe_table_lines("sys", "empty", &vec![]), vec!["表 'empty' 没有列".to_string()]);
}

use laoflchdb::lsql::{
    classify_line, default_schema, index_field_lines, index_list_lines, index_meta_lines,
    index_stats_lines, is_meta_command, IndexFieldDisplay, InputLine,
};

#[test]
fn input_lines() {
    assert!(matches!(classify_line("   "), InputLine::Empty));
    match classify_line("  \\dt  ") {
        InputLine::Meta(t) => assert_eq!(t, "\\dt"),
        _ => panic!("expected Meta"),
    }
    match classify_line(" select 1 ") {
        InputLine::Sql(t) => assert_eq!(t, "select 1"),
        _ => panic!("expected Sql"),
    }
    assert_eq!(default_schema(None), "sys");
    assert_eq!(default_schema(Some("app")), "app");
    assert!(is_meta_command("\\q"));
    assert!(!is_meta_command(" \\q"));
    assert!(!is_meta_command(""));
}

#[test]
fn index_descriptions() {
    assert_eq!(
        index_meta_lines("docs", 3, 2, ""),
        vec!["索引 \"docs\"".to_string(), "  索引ID: 3".to_string(), "  列数: 2".to_string()]
    );
    assert_eq!(index_meta_lines("docs", 3, 2, "notes").len(), 4);
    assert_eq!(index_field_lines(&vec![]), vec!["  字段: (无)".to_string()]);
    let fields = vec![IndexFieldDisplay { column_name: "title".to_string(), column_type: 0, comment: String::new() }];
    let sep = "  +----------+----------+----------+".to_string();
    assert_eq!(
        index_field_lines(&fields),
        vec![
            String::new(),
            "  字段:".to_string(),
            sep.clone(),
            format!("  | {:^8} | {:^8} | {:^8} |", "字段名", "类型", "注释"),
            sep.clone(),
            "  | title    | STRING   |          |".to_string(),
            sep,
        ]
    );
    assert_eq!(index_list_lines(&vec![]), vec!["没有找到索引".to_string()]);
    assert_eq!(
        index_list_lines(&vec!["a".to_string(), "b".to_string()]),
        vec!["所有全文索引:".to_string(), "  - a".to_string(), "  - b".to_string()]
    );
    assert_eq!(index_stats_lines(0, &vec![]), vec!["索引统计信息:".to_string(), "  索引总数: 0".to_string()]);
    assert_eq!(
        index_stats_lines(1, &vec!["a".to_string()]),
        vec![
            "索引统计信息:".to_string(),
            "  索引总数: 1".to_string(),
            "  索引列表:".to_string(),
            "    - a".to_string(),
        ]
    );
}

#[test]
fn fraction_zeros_are_trimmed() {
    assert_eq!(laoflchdb::lsql::trim_fraction_zeros("3.140000"), "3.14");
    assert_eq!(laoflchdb::lsql::trim_fraction_zeros("2.000000"), "2");
    assert_eq!(laoflchdb::lsql::trim_fraction_zeros("100"), "1");
}
