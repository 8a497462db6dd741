//! The answers of a database: reading the rows of a query, and comparing them with what was
//! expected.
use vstd::prelude::*;

verus! {

/// The value of a cell, as far as a check can expect it.
#[derive(Debug, PartialEq, Eq)]
pub enum Cell {
    /// An integer.
    Integer(i64),
    /// A piece of text.
    Text(String),
    /// A null, a real number or a blob: nothing that a check ever expects.
    Other,
}

/// What a [`Cell`] is, as a mathematical value.
pub enum CellView {
    /// An integer.
    Integer(int),
    /// A piece of text.
    Text(Seq<char>),
    /// Anything else.
    Other,
}

impl View for Cell {
    type V = CellView;

    open spec fn view(&self) -> CellView {
        match self {
            Cell::Integer(n) => CellView::Integer(*n as int),
            Cell::Text(s) => CellView::Text(s@),
            Cell::Other => CellView::Other,
        }
    }
}

impl Clone for Cell {
    /// A cell with the same value.
    fn clone(&self) -> (cell: Cell)
        ensures
            cell@ == self@,
    {
        match self {
            Cell::Integer(n) => Cell::Integer(*n),
            Cell::Text(s) => Cell::Text(s.clone()),
            Cell::Other => Cell::Other,
        }
    }
}

impl Cell {
    /// Whether the cell holds the integer `n`.
    pub fn is_integer(&self, n: i64) -> (b: bool)
        ensures
            b == (self@ == CellView::Integer(n as int)),
    {
        match self {
            Cell::Integer(m) => *m == n,
            _ => false,
        }
    }

    /// Whether the cell holds the text `s`.
    pub fn is_text(&self, s: &String) -> (b: bool)
        ensures
            b == (self@ == CellView::Text(s@)),
    {
        match self {
            Cell::Text(t) => *t == *s,
            _ => false,
        }
    }
}

/// A cell of a row, with the name of its column.
#[derive(Debug, PartialEq, Eq)]
pub struct NamedCell {
    /// The name of the column.
    pub column: String,
    /// The value.
    pub value: Cell,
}

/// The value in the column `name`. A row holds no column twice; if one did, the first would
/// count.
pub open spec fn cell_in(cells: Seq<NamedCell>, name: Seq<char>) -> Option<CellView>
    decreases cells.len(),
{
    if cells.len() == 0 {
        None
    } else if cells[0].column@ == name {
        Some(cells[0].value@)
    } else {
        cell_in(cells.drop_first(), name)
    }
}

/// A row that a query returned.
#[derive(Debug, PartialEq, Eq)]
pub struct ResultRow {
    /// The cells of the row.
    pub cells: Vec<NamedCell>,
}

impl ResultRow {
    /// The value in the column `name`, if the row has such a column.
    pub fn cell(&self, name: &str) -> (r: Option<Cell>)
        ensures
            r is Some <==> cell_in(self.cells@, name@) is Some,
            r matches Some(cell) ==> cell_in(self.cells@, name@) == Some(cell@),
    {
        let name_string = name.to_owned();
        assert(self.cells@.skip(0) =~= self.cells@);
        for i in 0..self.cells.len()
            invariant
                name_string@ == name@,
                cell_in(self.cells@, name@) == cell_in(self.cells@.skip(i as int), name@),
        {
            if self.cells[i].column == name_string {
                return Some(self.cells[i].value.clone());
            }
            assert(self.cells@.skip(i as int).drop_first() =~= self.cells@.skip(i + 1));
        }
        None
    }
}

/// What a statement of a batch came to.
#[derive(Debug, PartialEq, Eq)]
pub enum QueryOutcome {
    /// The statement failed, with this message.
    Error(String),
    /// The statement returned these rows.
    Success(Vec<ResultRow>),
}

/// A row of the table `t`.
#[derive(Debug, PartialEq, Eq)]
pub struct Row {
    /// The column `id`.
    pub id: Cell,
    /// The column `name`.
    pub name: Cell,
}

/// What a [`Row`] is, as a mathematical value.
pub struct RowView {
    /// The column `id`.
    pub id: CellView,
    /// The column `name`.
    pub name: CellView,
}

impl View for Row {
    type V = RowView;

    open spec fn view(&self) -> RowView {
        RowView { id: self.id@, name: self.name@ }
    }
}

/// The rows of `rows`, as mathematical values.
pub open spec fn row_views(rows: Seq<Row>) -> Seq<RowView> {
    rows.map_values(|r: Row| r@)
}

/// Why no rows of `t` could be read.
#[derive(Debug, PartialEq, Eq)]
pub enum ReadError {
    /// The batch had no statement.
    NoResult,
    /// The statement failed, with this message.
    Query(String),
    /// This row lacks the column `id` or the column `name`; it is the first such row.
    MissingColumn { row: usize },
}

/// What a [`ReadError`] is, as a mathematical value.
pub enum ReadErrorView {
    /// The batch had no statement.
    NoResult,
    /// The statement failed.
    Query(Seq<char>),
    /// A row lacks a column.
    MissingColumn { row: int },
}

impl View for ReadError {
    type V = ReadErrorView;

    open spec fn view(&self) -> ReadErrorView {
        match self {
            ReadError::NoResult => ReadErrorView::NoResult,
            ReadError::Query(message) => ReadErrorView::Query(message@),
            ReadError::MissingColumn { row } => ReadErrorView::MissingColumn { row: *row as int },
        }
    }
}

/// The `id` and the `name` of a row, if it has both.
pub open spec fn id_and_name(row: ResultRow) -> Option<RowView> {
    match (cell_in(row.cells@, "id"@), cell_in(row.cells@, "name"@)) {
        (Some(id), Some(name)) => Some(RowView { id, name }),
        _ => None,
    }
}

/// The rows of `t` that `rows` are, or the number of the first row that is none.
pub open spec fn read_prefix(rows: Seq<ResultRow>) -> Result<Seq<RowView>, int>
    decreases rows.len(),
{
    if rows.len() == 0 {
        Ok(Seq::empty())
    } else {
        match read_prefix(rows.drop_last()) {
            Err(row) => Err(row),
            Ok(read) => match id_and_name(rows.last()) {
                Some(row) => Ok(read.push(row)),
                None => Err(rows.len() - 1),
            },
        }
    }
}

/// The rows of `t` that the first statement of a batch returned.
pub open spec fn read_first(results: Seq<QueryOutcome>) -> Result<Seq<RowView>, ReadErrorView> {
    if results.len() == 0 {
        Err(ReadErrorView::NoResult)
    } else {
        match results[0] {
            QueryOutcome::Error(message) => Err(ReadErrorView::Query(message@)),
            QueryOutcome::Success(rows) => match read_prefix(rows@) {
                Ok(read) => Ok(read),
                Err(row) => Err(ReadErrorView::MissingColumn { row }),
            },
        }
    }
}

/// Once a row cannot be read, no longer series of rows can.
proof fn lemma_read_prefix_fails(rows: Seq<ResultRow>, n: int)
    requires
        0 <= n <= rows.len(),
        read_prefix(rows.take(n)) is Err,
    ensures
        read_prefix(rows) == read_prefix(rows.take(n)),
    decreases rows.len(),
{
    if n == rows.len() {
        assert(rows.take(n) =~= rows);
    } else {
        assert(rows.drop_last().take(n) =~= rows.take(n));
        lemma_read_prefix_fails(rows.drop_last(), n);
    }
}

/// Whether `r` is what reading the rows of `t` out of `results` comes to.
pub open spec fn is_reading(
    results: Seq<QueryOutcome>,
    r: Result<Vec<Row>, ReadError>,
) -> bool {
    match r {
        Ok(rows) => read_first(results) == Ok::<Seq<RowView>, ReadErrorView>(row_views(rows@)),
        Err(e) => read_first(results) == Err::<Seq<RowView>, ReadErrorView>(e@),
    }
}

/// Reads the rows of `t` out of the first result of a batch.
pub fn read_rows(results: &Vec<QueryOutcome>) -> (r: Result<Vec<Row>, ReadError>)
    ensures
        is_reading(results@, r),
{
    if results.len() == 0 {
        return Err(ReadError::NoResult);
    }
    match &results[0] {
        QueryOutcome::Error(message) => Err(ReadError::Query(message.clone())),
        QueryOutcome::Success(rows) => {
            let mut read: Vec<Row> = Vec::new();
            assert(row_views(read@) =~= Seq::<RowView>::empty());
            for i in 0..rows.len()
                invariant
                    results.len() > 0,
                    results[0] == QueryOutcome::Success(*rows),
                    read_prefix(rows@.take(i as int)) == Ok::<Seq<RowView>, int>(row_views(read@)),
            {
                assert(rows@.take(i + 1).drop_last() =~= rows@.take(i as int));
                match (rows[i].cell("id"), rows[i].cell("name")) {
                    (Some(id), Some(name)) => {
                        let ghost before = read@;
                        read.push(Row { id, name });
                        assert(row_views(read@) =~= row_views(before).push(read@.last()@));
                    },
                    _ => {
                        proof {
                            lemma_read_prefix_fails(rows@, i + 1);
                        }
                        return Err(ReadError::MissingColumn { row: i });
                    },
                }
            }
            assert(rows@.take(rows.len() as int) =~= rows@);
            Ok(read)
        },
    }
}

/// A row that a check expects in `t`.
#[derive(Debug, PartialEq, Eq)]
pub struct ExpectedRow {
    /// The column `id`.
    pub id: i64,
    /// The column `name`.
    pub name: String,
}

impl View for ExpectedRow {
    type V = RowView;

    open spec fn view(&self) -> RowView {
        RowView { id: CellView::Integer(self.id as int), name: CellView::Text(self.name@) }
    }
}

/// The expected rows, as mathematical values.
pub open spec fn expected_views(rows: Seq<ExpectedRow>) -> Seq<RowView> {
    rows.map_values(|r: ExpectedRow| r@)
}

/// Whether `row` is the row that was expected.
pub fn row_matches(row: &Row, expected: &ExpectedRow) -> (b: bool)
    ensures
        b == (row@ == expected@),
{
    row.id.is_integer(expected.id) && row.name.is_text(&expected.name)
}

/// Whether the table holds exactly the rows that were expected, in their order.
pub fn rows_match(rows: &Vec<Row>, expected: &Vec<ExpectedRow>) -> (b: bool)
    ensures
        b == (row_views(rows@) == expected_views(expected@)),
{
    if rows.len() != expected.len() {
        assert(row_views(rows@).len() != expected_views(expected@).len());
        return false;
    }
    for i in 0..rows.len()
        invariant
            rows.len() == expected.len(),
            forall|j: int| 0 <= j < i ==> #[trigger] rows[j]@ == expected[j]@,
    {
        if !row_matches(&rows[i], &expected[i]) {
            assert(row_views(rows@)[i as int] != expected_views(expected@)[i as int]);
            return false;
        }
    }
    assert(row_views(rows@) =~= expected_views(expected@));
    true
}

/// Whether two cells hold the same value.
pub open spec fn same_value(a: Cell, b: Cell) -> bool {
    match (a, b) {
        (Cell::Integer(m), Cell::Integer(n)) => m == n,
        (Cell::Text(s), Cell::Text(t)) => s@ == t@,
        (Cell::Other, Cell::Other) => true,
        _ => false,
    }
}

/// Whether a row has a column with the name `name`.
pub open spec fn has_column(row: ResultRow, name: Seq<char>) -> bool {
    exists|j: int| 0 <= j < row.cells@.len() && (#[trigger] row.cells@[j]).column@ == name
}

/// Whether `cell` is the value in the first column of a row with the name `name`.
pub open spec fn column_holds(row: ResultRow, name: Seq<char>, cell: Cell) -> bool {
    exists|j: int|
        {
            &&& 0 <= j < row.cells@.len()
            &&& (#[trigger] row.cells@[j]).column@ == name
            &&& same_value(row.cells@[j].value, cell)
            &&& forall|k: int| 0 <= k < j ==> (#[trigger] row.cells@[k]).column@ != name
        }
}

/// Looking for a column finds the first one with the name, if there is one.
proof fn lemma_cell_in(cells: Seq<NamedCell>, name: Seq<char>)
    ensures
        match cell_in(cells, name) {
            None => forall|j: int| 0 <= j < cells.len() ==> (#[trigger] cells[j]).column@ != name,
            Some(value) => exists|j: int|
                {
                    &&& 0 <= j < cells.len()
                    &&& (#[trigger] cells[j]).column@ == name
                    &&& cells[j].value@ == value
                    &&& forall|k: int| 0 <= k < j ==> (#[trigger] cells[k]).column@ != name
                },
        },
    decreases cells.len(),
{
    if cells.len() > 0 && cells[0].column@ != name {
        let rest = cells.drop_first();
        lemma_cell_in(rest, name);
        match cell_in(rest, name) {
            None => {
                assert forall|j: int| 0 <= j < cells.len() implies (#[trigger] cells[j]).column@
                    != name by {
                    if j > 0 {
                        assert(rest[j - 1] == cells[j]);
                    }
                }
            },
            Some(value) => {
                let j = choose|j: int|
                    {
                        &&& 0 <= j < rest.len()
                        &&& (#[trigger] rest[j]).column@ == name
                        &&& rest[j].value@ == value
                        &&& forall|k: int| 0 <= k < j ==> (#[trigger] rest[k]).column@ != name
                    };
                assert(cells[j + 1] == rest[j]);
                assert forall|k: int| 0 <= k < j + 1 implies (#[trigger] cells[k]).column@
                    != name by {
                    if k > 0 {
                        assert(rest[k - 1] == cells[k]);
                    }
                }
            },
        }
    } else if cells.len() > 0 {
        assert(cells[0].column@ == name);
    }
}

/// A row can be read if it has both columns, and what is read is what they hold.
proof fn lemma_id_and_name(row: ResultRow)
    ensures
        id_and_name(row) is Some <==> has_column(row, "id"@) && has_column(row, "name"@),
        forall|read: Row|
            id_and_name(row) == Some(#[trigger] read@) ==> column_holds(row, "id"@, read.id)
                && column_holds(row, "name"@, read.name),
{
    lemma_cell_in(row.cells@, "id"@);
    lemma_cell_in(row.cells@, "name"@);
    assert forall|read: Row| id_and_name(row) == Some(#[trigger] read@) implies column_holds(
        row,
        "id"@,
        read.id,
    ) && column_holds(row, "name"@, read.name) by {
        let cells = row.cells@;
        let i = choose|j: int|
            {
                &&& 0 <= j < cells.len()
                &&& (#[trigger] cells[j]).column@ == "id"@
                &&& cells[j].value@ == read.id@
                &&& forall|k: int| 0 <= k < j ==> (#[trigger] cells[k]).column@ != "id"@
            };
        let n = choose|j: int|
            {
                &&& 0 <= j < cells.len()
                &&& (#[trigger] cells[j]).column@ == "name"@
                &&& cells[j].value@ == read.name@
                &&& forall|k: int| 0 <= k < j ==> (#[trigger] cells[k]).column@ != "name"@
            };
        assert(same_value(row.cells@[i].value, read.id));
        assert(same_value(row.cells@[n].value, read.name));
    }
}

/// A series of rows is read row by row, up to the first one that cannot be.
proof fn lemma_read_prefix(rows: Seq<ResultRow>)
    ensures
        match read_prefix(rows) {
            Ok(read) => {
                &&& read.len() == rows.len()
                &&& forall|i: int|
                    0 <= i < rows.len() ==> id_and_name(#[trigger] rows[i]) == Some(read[i])
            },
            Err(row) => {
                &&& 0 <= row < rows.len()
                &&& id_and_name(rows[row]) is None
                &&& forall|i: int| 0 <= i < row ==> id_and_name(#[trigger] rows[i]) is Some
            },
        },
    decreases rows.len(),
{
    if rows.len() > 0 {
        let earlier = rows.drop_last();
        lemma_read_prefix(earlier);
        assert(forall|i: int| 0 <= i < earlier.len() ==> #[trigger] rows[i] == earlier[i]);
    }
}

/// Reading takes every row that the first statement returned, in order, and of each row the
/// columns `id` and `name`: it succeeds if and only if that statement returned rows that all have
/// both columns. Otherwise the error says what is wrong: that there was no statement, the message
/// with which it failed, or the first row that lacks a column.
pub proof fn law_every_row_is_read(results: Seq<QueryOutcome>, r: Result<Vec<Row>, ReadError>)
    requires
        is_reading(results, r),
    ensures
        r == Err::<Vec<Row>, ReadError>(ReadError::NoResult) <==> results.len() == 0,
        results.len() > 0 ==> match results[0] {
            QueryOutcome::Error(message) => r matches Err(ReadError::Query(m)) && m@ == message@,
            QueryOutcome::Success(returned) => match r {
                Ok(rows) => {
                    &&& rows@.len() == returned@.len()
                    &&& forall|i: int|
                        #![trigger rows@[i]]
                        #![trigger returned@[i]]
                        0 <= i < returned@.len() ==> {
                            &&& column_holds(returned@[i], "id"@, rows@[i].id)
                            &&& column_holds(returned@[i], "name"@, rows@[i].name)
                        }
                },
                Err(ReadError::MissingColumn { row }) => {
                    &&& row < returned@.len()
                    &&& !(has_column(returned@[row as int], "id"@) && has_column(
                        returned@[row as int],
                        "name"@,
                    ))
                    &&& forall|i: int|
                        #![trigger returned@[i]]
                        0 <= i < row ==> has_column(returned@[i], "id"@) && has_column(
                            returned@[i],
                            "name"@,
                        )
                },
                Err(_) => false,
            },
        },
{
    if results.len() > 0 {
        if let QueryOutcome::Success(returned) = results[0] {
            lemma_read_prefix(returned@);
            match r {
                Ok(rows) => {
                    let read = row_views(rows@);
                    assert(read.len() == rows@.len());
                    assert forall|i: int|
                        #![trigger rows@[i]]
                        #![trigger returned@[i]]
                        0 <= i < returned@.len() implies {
                        &&& column_holds(returned@[i], "id"@, rows@[i].id)
                        &&& column_holds(returned@[i], "name"@, rows@[i].name)
                    } by {
                        lemma_id_and_name(returned@[i]);
                        assert(read[i] == rows@[i]@);
                        assert(id_and_name(returned@[i]) == Some(rows@[i]@));
                    }
                },
                Err(e) => {
                    if let ReadError::MissingColumn { row } = e {
                        lemma_id_and_name(returned@[row as int]);
                        assert forall|i: int|
                            #![trigger returned@[i]]
                            0 <= i < row implies has_column(returned@[i], "id"@) && has_column(
                            returned@[i],
                            "name"@,
                        ) by {
                            lemma_id_and_name(returned@[i]);
                        }
                    }
                },
            }
        }
    }
}

/// Rows that all have the columns `id` and `name` can be read.
pub proof fn law_whole_rows_can_be_read(results: Seq<QueryOutcome>, r: Result<Vec<Row>, ReadError>)
    requires
        is_reading(results, r),
        results.len() > 0,
        results[0] is Success,
        forall|i: int|
            #![trigger results[0]->Success_0@[i]]
            0 <= i < results[0]->Success_0@.len() ==> has_column(
                results[0]->Success_0@[i],
                "id"@,
            ) && has_column(results[0]->Success_0@[i], "name"@),
    ensures
        r is Ok,
{
    law_every_row_is_read(results, r);
}

/// The rows of a table match those that were expected if there are as many, and each holds the
/// expected id and the expected name, at its place.
pub proof fn law_rows_match_one_by_one(rows: Seq<Row>, expected: Seq<ExpectedRow>)
    ensures
        row_views(rows) == expected_views(expected) <==> {
            &&& rows.len() == expected.len()
            &&& forall|i: int|
                #![trigger rows[i]]
                #![trigger expected[i]]
                0 <= i < rows.len() ==> {
                    &&& rows[i].id matches Cell::Integer(id) && id == expected[i].id
                    &&& rows[i].name matches Cell::Text(name) && name@ == expected[i].name@
                }
        },
{
    let a = row_views(rows);
    let b = expected_views(expected);
    if a == b {
        assert(rows.len() == a.len() && expected.len() == b.len());
        assert forall|i: int|
            #![trigger rows[i]]
            #![trigger expected[i]]
            0 <= i < rows.len() implies {
            &&& rows[i].id matches Cell::Integer(id) && id == expected[i].id
            &&& rows[i].name matches Cell::Text(name) && name@ == expected[i].name@
        } by {
            assert(a[i] == rows[i]@);
            assert(b[i] == expected[i]@);
        }
    }
    if rows.len() == expected.len() && (forall|i: int|
        #![trigger rows[i]]
        #![trigger expected[i]]
        0 <= i < rows.len() ==> {
            &&& rows[i].id matches Cell::Integer(id) && id == expected[i].id
            &&& rows[i].name matches Cell::Text(name) && name@ == expected[i].name@
        }) {
        assert forall|i: int| 0 <= i < a.len() implies a[i] == b[i] by {
            assert(a[i] == rows[i]@);
            assert(b[i] == expected[i]@);
        }
        assert(a =~= b);
    }
}

/// A column is found if the row has one with the name, and then its value is that of the first.
pub proof fn law_column_is_found_by_its_name(row: ResultRow, name: Seq<char>, cell: Cell)
    ensures
        cell_in(row.cells@, name) is Some <==> has_column(row, name),
        cell_in(row.cells@, name) == Some(cell@) <==> column_holds(row, name, cell),
{
    let cells = row.cells@;
    lemma_cell_in(cells, name);
    if column_holds(row, name, cell) {
        let j = choose|j: int|
            {
                &&& 0 <= j < row.cells@.len()
                &&& (#[trigger] row.cells@[j]).column@ == name
                &&& same_value(row.cells@[j].value, cell)
                &&& forall|k: int| 0 <= k < j ==> (#[trigger] row.cells@[k]).column@ != name
            };
        assert(cells[j].column@ == name);
        let value = cell_in(cells, name)->0;
        let i = choose|i: int|
            {
                &&& 0 <= i < cells.len()
                &&& (#[trigger] cells[i]).column@ == name
                &&& cells[i].value@ == value
                &&& forall|k: int| 0 <= k < i ==> (#[trigger] cells[k]).column@ != name
            };
        assert(i == j);
    }
    if cell_in(cells, name) == Some(cell@) {
        let i = choose|i: int|
            {
                &&& 0 <= i < cells.len()
                &&& (#[trigger] cells[i]).column@ == name
                &&& cells[i].value@ == cell@
                &&& forall|k: int| 0 <= k < i ==> (#[trigger] cells[k]).column@ != name
            };
        assert(same_value(row.cells@[i].value, cell));
    }
}

} // verus!
