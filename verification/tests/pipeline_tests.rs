use minidb::pipeline::process_line;
use minidb::table::Table;

#[test]
fn three_records_round_trip() {
    let mut table = Table::new();
    let (out, stop) = process_line(&mut table, "insert 1 alice alice@x.com");
    assert_eq!(out, vec!["Executed.".to_string()]);
    assert!(!stop);
    let (out, stop) = process_line(&mut table, "insert 2 bob bob@x.com");
    assert_eq!(out, vec!["Executed.".to_string()]);
    assert!(!stop);
    let (out, stop) = process_line(&mut table, "select");
    assert_eq!(
        out,
        vec![
            "1, alice, alice@x.com".to_string(),
            "2, bob, bob@x.com".to_string(),
            "Executed.".to_string(),
        ]
    );
    assert!(!stop);
}

#[test]
fn insertion_order_is_kept() {
    let mut table = Table::new();
    for i in 0..50u32 {
        let line = format!("insert {} user{} user{}@x.com", i, i, i);
        let (out, _) = process_line(&mut table, &line);
        assert_eq!(out, vec!["Executed.".to_string()]);
    }
    let (out, _) = process_line(&mut table, "select");
    assert_eq!(out.len(), 51);
    for i in 0..50usize {
        assert_eq!(out[i], format!("{}, user{}, user{}@x.com", i, i, i));
    }
    assert_eq!(out[50], "Executed.");
}

#[test]
fn capacity_boundary() {
    // 100 pages of 14 rows each.
    let max_rows = 1400usize;
    let mut table = Table::new();
    for i in 0..max_rows {
        let line = format!("insert {} u{} u{}@x.com", i, i, i);
        let (out, _) = process_line(&mut table, &line);
        assert_eq!(out, vec!["Executed.".to_string()], "row {} should fit", i);
    }
    assert_eq!(table.num_rows, max_rows);
    let (out, _) = process_line(&mut table, "insert 9999 late late@x.com");
    assert_eq!(out, vec!["Error: Table full.".to_string()]);
    assert_eq!(table.num_rows, max_rows);
}

#[test]
fn meta_dispatch() {
    let mut table = Table::new();
    process_line(&mut table, "insert 7 gina gina@x.com");
    let (out, stop) = process_line(&mut table, ".bogus");
    assert_eq!(out, vec!["Unrecognized command .bogus".to_string()]);
    assert!(!stop);
    assert_eq!(table.num_rows, 1);
    let (out, stop) = process_line(&mut table, ".exit");
    assert!(out.is_empty());
    assert!(stop);
    assert_eq!(table.num_rows, 1);
}

#[test]
fn empty_select() {
    let mut table = Table::new();
    let (out, stop) = process_line(&mut table, "select");
    assert_eq!(out, vec!["Executed.".to_string()]);
    assert!(!stop);
}

#[test]
fn syntax_error_diagnostic() {
    let mut table = Table::new();
    let (out, stop) = process_line(&mut table, "insert 1 bob");
    assert_eq!(out, vec!["Syntax error. Could not parse statement.".to_string()]);
    assert!(!stop);
    assert_eq!(table.num_rows, 0);
}

#[test]
fn unrecognized_keyword_diagnostic() {
    let mut table = Table::new();
    let (out, stop) = process_line(&mut table, "deleet 1");
    assert_eq!(
        out,
        vec!["Unrecognized keyword at start of deleet 1.".to_string()]
    );
    assert!(!stop);
    assert_eq!(table.num_rows, 0);
}

#[test]
fn non_numeric_id_is_a_syntax_error() {
    let mut table = Table::new();
    let (out, _) = process_line(&mut table, "insert abc bob bob@x.com");
    assert_eq!(out, vec!["Syntax error. Could not parse statement.".to_string()]);
    assert_eq!(table.num_rows, 0);
}

#[test]
fn id_boundary_values() {
    let mut table = Table::new();
    let (out, _) = process_line(&mut table, "insert 4294967295 max max@x.com");
    assert_eq!(out, vec!["Executed.".to_string()]);
    let (out, _) = process_line(&mut table, "insert 4294967296 over over@x.com");
    assert_eq!(out, vec!["Syntax error. Could not parse statement.".to_string()]);
    let (out, _) = process_line(&mut table, "select");
    assert_eq!(
        out,
        vec!["4294967295, max, max@x.com".to_string(), "Executed.".to_string()]
    );
}

#[test]
fn double_space_makes_an_empty_id_token() {
    let mut table = Table::new();
    let (out, _) = process_line(&mut table, "insert  1 bob bob@x.com");
    assert_eq!(out, vec!["Syntax error. Could not parse statement.".to_string()]);
}

#[test]
fn extra_tokens_are_ignored() {
    let mut table = Table::new();
    let (out, _) = process_line(&mut table, "insert 3 carol carol@x.com extra tokens");
    assert_eq!(out, vec!["Executed.".to_string()]);
    let (out, _) = process_line(&mut table, "select");
    assert_eq!(
        out,
        vec!["3, carol, carol@x.com".to_string(), "Executed.".to_string()]
    );
}

#[test]
fn field_byte_budgets_are_enforced() {
    let mut table = Table::new();
    let longest_name = "a".repeat(32);
    let line = format!("insert 1 {} ok@x.com", longest_name);
    let (out, _) = process_line(&mut table, &line);
    assert_eq!(out, vec!["Executed.".to_string()]);

    let too_long_name = "a".repeat(33);
    let line = format!("insert 2 {} ok@x.com", too_long_name);
    let (out, _) = process_line(&mut table, &line);
    assert_eq!(out, vec!["Syntax error. Could not parse statement.".to_string()]);

    let longest_email = "e".repeat(255);
    let line = format!("insert 3 bob {}", longest_email);
    let (out, _) = process_line(&mut table, &line);
    assert_eq!(out, vec!["Executed.".to_string()]);

    let too_long_email = "e".repeat(256);
    let line = format!("insert 4 bob {}", too_long_email);
    let (out, _) = process_line(&mut table, &line);
    assert_eq!(out, vec!["Syntax error. Could not parse statement.".to_string()]);
    assert_eq!(table.num_rows, 2);
}
