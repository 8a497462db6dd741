use bottomless_harness::rows::{Cell, Row};
use bottomless_harness::updates::{
    check_updates, first_shown_update, update_statements, UpdateMismatch,
};
use std::collections::BTreeMap;

fn row(id: i64, name: &str) -> Row {
    Row {
        id: Cell::Integer(id),
        name: Cell::Text(name.to_string()),
    }
}

/// Applies the statements of a workload to a table, and lists it by id.
fn run(table: &mut BTreeMap<i64, String>, statements: &[String]) -> Vec<Row> {
    for statement in statements {
        let rest = statement
            .strip_prefix("INSERT INTO t(id, name) VALUES(")
            .unwrap();
        let (id, rest) = rest.split_once(", '").unwrap();
        let (name, rest) = rest
            .split_once("') ON CONFLICT (id) DO UPDATE SET name = '")
            .unwrap();
        assert_eq!(rest, format!("{name}';"));
        table.insert(id.parse().unwrap(), name.to_string());
    }
    table.iter().map(|(id, name)| row(*id, name)).collect()
}

#[test]
fn statements_go_round_the_rows() {
    let statements = update_statements(2, 3, "A");
    assert_eq!(
        statements,
        vec![
            "INSERT INTO t(id, name) VALUES(0, '0-A') ON CONFLICT (id) DO UPDATE SET name = '0-A';",
            "INSERT INTO t(id, name) VALUES(1, '1-A') ON CONFLICT (id) DO UPDATE SET name = '1-A';",
            "INSERT INTO t(id, name) VALUES(0, '2-A') ON CONFLICT (id) DO UPDATE SET name = '2-A';",
        ]
    );
    assert!(update_statements(10, 0, "A").is_empty());
    assert!(update_statements(0, 0, "A").is_empty());
}

#[test]
fn the_text_of_updates_is_put_in_as_it_is() {
    assert_eq!(
        update_statements(1, 1, "A''"),
        vec!["INSERT INTO t(id, name) VALUES(0, '0-A''') ON CONFLICT (id) DO UPDATE SET name = '0-A''';"]
    );
    // an engine reads two apostrophes as one
    assert_eq!(
        check_updates(&vec![row(0, "0-A'")], 1, 1, "A''"),
        Err(UpdateMismatch::Row { index: 0 })
    );
}

#[test]
fn a_workload_is_read_back() {
    const OPS: usize = 2000;
    const ROWS: usize = 10;
    let mut table = BTreeMap::new();
    let rows = run(&mut table, &update_statements(ROWS, OPS, "A"));
    assert_eq!(rows[0], row(0, "1990-A"));
    assert_eq!(rows[9], row(9, "1999-A"));
    assert_eq!(check_updates(&rows, ROWS, OPS, "A"), Ok(()));
    assert_eq!(
        check_updates(&rows, ROWS, OPS, "B"),
        Err(UpdateMismatch::Row { index: 0 })
    );
    // a second workload overwrites the first
    let rows = run(&mut table, &update_statements(ROWS, OPS, "B"));
    assert_eq!(check_updates(&rows, ROWS, OPS, "B"), Ok(()));
}

#[test]
fn the_check_accepts_whole_rounds_only() {
    for row_count in 0..14usize {
        for ops_count in 0..44usize {
            if row_count == 0 && ops_count > 0 {
                continue;
            }
            let rows = run(
                &mut BTreeMap::new(),
                &update_statements(row_count, ops_count, "A"),
            );
            let accepted = check_updates(&rows, row_count, ops_count, "A") == Ok(());
            let whole = if ops_count < 10 {
                row_count == ops_count
            } else {
                row_count == 10 && ops_count % 10 == 0
            };
            assert_eq!(accepted, whole, "{row_count} rows, {ops_count} updates");
        }
    }
}

#[test]
fn the_last_ten_updates_are_shown() {
    assert_eq!(first_shown_update(0), 0);
    assert_eq!(first_shown_update(9), 0);
    assert_eq!(first_shown_update(10), 0);
    assert_eq!(first_shown_update(11), 1);
    assert_eq!(first_shown_update(2000), 1990);
}

#[test]
fn mismatches_are_reported() {
    let rows = vec![row(0, "0-A"), row(1, "1-A")];
    assert_eq!(check_updates(&rows, 2, 2, "A"), Ok(()));
    assert_eq!(
        check_updates(&rows, 3, 2, "A"),
        Err(UpdateMismatch::RowCount { found: 2 })
    );
    let rows = vec![row(0, "0-A"), row(1, "2-A")];
    assert_eq!(
        check_updates(&rows, 2, 2, "A"),
        Err(UpdateMismatch::Row { index: 1 })
    );
    let rows = vec![row(1, "0-A")];
    assert_eq!(
        check_updates(&rows, 1, 1, "A"),
        Err(UpdateMismatch::Row { index: 0 })
    );
    let rows = vec![Row {
        id: Cell::Integer(0),
        name: Cell::Other,
    }];
    assert_eq!(
        check_updates(&rows, 1, 1, "A"),
        Err(UpdateMismatch::Row { index: 0 })
    );
    assert_eq!(check_updates(&Vec::new(), 0, 0, "A"), Ok(()));
}
