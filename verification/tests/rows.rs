use bottomless_harness::rows::{
    read_rows, row_matches, rows_match, Cell, ExpectedRow, NamedCell, QueryOutcome, ReadError,
    ResultRow, Row,
};

fn cell(column: &str, value: Cell) -> NamedCell {
    NamedCell {
        column: column.to_string(),
        value,
    }
}

fn result_row(id: i64, name: &str) -> ResultRow {
    ResultRow {
        cells: vec![
            cell("name", Cell::Text(name.to_string())),
            cell("id", Cell::Integer(id)),
        ],
    }
}

fn expected(id: i64, name: &str) -> ExpectedRow {
    ExpectedRow {
        id,
        name: name.to_string(),
    }
}

#[test]
fn the_rows_of_the_first_result_are_read() {
    let results = vec![
        QueryOutcome::Success(vec![result_row(1, "A"), result_row(2, "B")]),
        QueryOutcome::Error("not looked at".to_string()),
    ];
    let rows = read_rows(&results).unwrap();
    assert!(rows_match(&rows, &vec![expected(1, "A"), expected(2, "B")]));
    assert!(!rows_match(&rows, &vec![expected(1, "A")]));
    assert!(!rows_match(&rows, &vec![expected(2, "B"), expected(1, "A")]));
    assert!(!rows_match(&rows, &vec![expected(1, "C"), expected(2, "C")]));
    assert_eq!(read_rows(&vec![QueryOutcome::Success(vec![])]), Ok(vec![]));
}

#[test]
fn unreadable_results_are_errors() {
    assert_eq!(read_rows(&vec![]), Err(ReadError::NoResult));
    assert_eq!(
        read_rows(&vec![QueryOutcome::Error("no such table: t".to_string())]),
        Err(ReadError::Query("no such table: t".to_string()))
    );
    let nameless = ResultRow {
        cells: vec![cell("id", Cell::Integer(3))],
    };
    assert_eq!(
        read_rows(&vec![QueryOutcome::Success(vec![
            result_row(1, "A"),
            nameless,
            ResultRow { cells: vec![] },
        ])]),
        Err(ReadError::MissingColumn { row: 1 })
    );
}

#[test]
fn cells_are_found_by_column() {
    let row = result_row(7, "G");
    assert_eq!(row.cell("id"), Some(Cell::Integer(7)));
    assert_eq!(row.cell("name"), Some(Cell::Text("G".to_string())));
    assert_eq!(row.cell("ID"), None);
}

#[test]
fn other_values_match_nothing() {
    let row = Row {
        id: Cell::Other,
        name: Cell::Text("A".to_string()),
    };
    assert!(!row_matches(&row, &expected(0, "A")));
    let swapped = Row {
        id: Cell::Text("1".to_string()),
        name: Cell::Integer(1),
    };
    assert!(!row_matches(&swapped, &expected(1, "1")));
}
