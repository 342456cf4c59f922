use minidb::pipeline::execute_insert;
use minidb::pipeline::execute_statement;
use minidb::row::Row;
use minidb::statement::ExecuteResult;
use minidb::statement::MetaCommandResult;
use minidb::statement::PrepareResult;
use minidb::statement::Statement;
use minidb::statement::StatementType;
use minidb::statement::do_meta_command;
use minidb::statement::prepare_statement;
use minidb::table::Page;
use minidb::table::ROWS_PER_PAGE;
use minidb::table::TABLE_MAX_ROWS;
use minidb::table::Table;
use minidb::table::locate;
use minidb::text::parse_u32;
use minidb::text::render_u32;
use minidb::text::split_spaces;
use minidb::text::str_eq;
use minidb::text::str_starts_with;

#[test]
fn locate_splits_and_recombines() {
    assert_eq!(ROWS_PER_PAGE, 14);
    assert_eq!(TABLE_MAX_ROWS, 1400);
    assert_eq!(locate(0), (0, 0));
    assert_eq!(locate(13), (0, 13));
    assert_eq!(locate(14), (1, 0));
    assert_eq!(locate(29), (2, 1));
    for r in 0..TABLE_MAX_ROWS {
        let (page, slot) = locate(r);
        assert_eq!(page * ROWS_PER_PAGE + slot, r);
        assert_eq!(locate(r), locate(r));
    }
}

#[test]
fn prepare_rejects_short_insert() {
    let (stmt, result) = prepare_statement("insert 1 bob");
    assert_eq!(result, PrepareResult::PrepareSyntaxError);
    assert!(stmt.is_none());
}

#[test]
fn prepare_rejects_unknown_keyword() {
    let (stmt, result) = prepare_statement("deleet 1");
    assert_eq!(result, PrepareResult::PrepareUnrecognizedStatement);
    let stmt = stmt.unwrap();
    assert_eq!(stmt.stmt_type, StatementType::StatementUnsupported);
    assert!(stmt.row_to_insert.is_none());
}

#[test]
fn prepare_accepts_insert_and_select() {
    let (stmt, result) = prepare_statement("insert 42 dina dina@x.com");
    assert_eq!(result, PrepareResult::PrepareSuccess);
    let stmt = stmt.unwrap();
    assert_eq!(stmt.stmt_type, StatementType::StatementInsert);
    let row = stmt.row_to_insert.unwrap();
    assert_eq!(row.id, 42);
    assert_eq!(row.username, "dina");
    assert_eq!(row.email, "dina@x.com");

    let (stmt, result) = prepare_statement("select");
    assert_eq!(result, PrepareResult::PrepareSuccess);
    let stmt = stmt.unwrap();
    assert_eq!(stmt.stmt_type, StatementType::StatementSelect);
    assert!(stmt.row_to_insert.is_none());
}

#[test]
fn meta_command_recognizes_only_exit() {
    assert_eq!(do_meta_command(".exit"), MetaCommandResult::MetaCommandSuccess);
    assert_eq!(
        do_meta_command(".bogus"),
        MetaCommandResult::MetaCommandUnrecognizedCommand
    );
    assert_eq!(
        do_meta_command("exit"),
        MetaCommandResult::MetaCommandUnrecognizedCommand
    );
}

#[test]
fn execute_fails_on_unsupported_statement() {
    let mut table = Table::new();
    let stmt = Statement { stmt_type: StatementType::StatementUnsupported, row_to_insert: None };
    let (result, lines) = execute_statement(&stmt, &mut table);
    assert_eq!(result, ExecuteResult::ExecuteFail);
    assert!(lines.is_empty());
    assert_eq!(table.num_rows, 0);
}

#[test]
fn execute_insert_without_payload_fails() {
    let mut table = Table::new();
    let stmt = Statement { stmt_type: StatementType::StatementInsert, row_to_insert: None };
    let result = execute_insert(&stmt, &mut table);
    assert_eq!(result, ExecuteResult::ExecuteFail);
    assert_eq!(table.num_rows, 0);
}

#[test]
fn table_new_and_free() {
    let mut table = Table::new();
    assert_eq!(table.num_rows, 0);
    let page = Page::new();
    assert!(page.rows.is_empty());
    let stmt = Statement {
        stmt_type: StatementType::StatementInsert,
        row_to_insert: Some(Row::new(1, "a".to_string(), "b".to_string())),
    };
    execute_insert(&stmt, &mut table);
    table.free();
    assert_eq!(table.num_rows, 1);
}

#[test]
fn slot_reads_are_bounded() {
    let mut table = Table::new();
    let stmt = Statement {
        stmt_type: StatementType::StatementInsert,
        row_to_insert: Some(Row::new(5, "eve".to_string(), "eve@x.com".to_string())),
    };
    assert_eq!(execute_insert(&stmt, &mut table), ExecuteResult::ExecuteSuccess);
    let row = table.slot_for_read(0).unwrap();
    assert_eq!(row.id, 5);
    assert_eq!(row.username, "eve");
    assert!(table.slot_for_read(1).is_none());
    assert!(table.slot_for_read(TABLE_MAX_ROWS).is_none());
}

#[test]
fn parse_u32_reads_decimal() {
    assert_eq!(parse_u32("0"), Some(0));
    assert_eq!(parse_u32("007"), Some(7));
    assert_eq!(parse_u32("4294967295"), Some(u32::MAX));
    assert_eq!(parse_u32("4294967296"), None);
    assert_eq!(parse_u32("99999999999999999999"), None);
    assert_eq!(parse_u32(""), None);
    assert_eq!(parse_u32("12a"), None);
    assert_eq!(parse_u32("-1"), None);
    assert_eq!(parse_u32("+1"), None);
    assert_eq!(parse_u32(" 1"), None);
}

#[test]
fn render_u32_writes_decimal() {
    assert_eq!(render_u32(0), "0");
    assert_eq!(render_u32(7), "7");
    assert_eq!(render_u32(10), "10");
    assert_eq!(render_u32(291), "291");
    assert_eq!(render_u32(u32::MAX), "4294967295");
}

#[test]
fn split_keeps_empty_tokens() {
    assert_eq!(split_spaces(""), vec!["".to_string()]);
    assert_eq!(split_spaces("a b"), vec!["a".to_string(), "b".to_string()]);
    assert_eq!(
        split_spaces("a  b"),
        vec!["a".to_string(), "".to_string(), "b".to_string()]
    );
    assert_eq!(
        split_spaces(" ab "),
        vec!["".to_string(), "ab".to_string(), "".to_string()]
    );
}

#[test]
fn string_helpers() {
    assert!(str_eq("insert", "insert"));
    assert!(!str_eq("insert", "inser"));
    assert!(!str_eq("insert", "select"));
    assert!(str_starts_with("insert 1 a b", "insert"));
    assert!(str_starts_with("insertion", "insert"));
    assert!(!str_starts_with("inser", "insert"));
    assert!(!str_starts_with("select", "insert"));
}
