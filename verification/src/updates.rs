//! The update workload: the statements that fill the table `t`, and the check that a table is
//! one that they filled.
use vstd::prelude::*;
use vstd::string::StringExecFns;

use crate::outside::texts;
use crate::rows::{row_matches, row_views, Cell, CellView, ExpectedRow, Row, RowView};
use crate::text::{
    decimal, decimal_text, integer, integer_text, is_numeral, is_signed_numeral,
    law_decimal_is_the_numeral, law_integer_is_the_numeral, lemma_integer_injective,
    lemma_text_before, text_before, value_of,
};

verus! {

/// The name that the update with number `n` writes.
pub open spec fn label(n: int, update: Seq<char>) -> Seq<char> {
    integer(n) + "-"@ + update
}

/// The statement that sets the name of the row `id`, whether or not the row is there yet.
pub open spec fn upsert(id: nat, name: Seq<char>) -> Seq<char> {
    "INSERT INTO t(id, name) VALUES("@ + decimal(id) + ", '"@ + name
        + "') ON CONFLICT (id) DO UPDATE SET name = '"@ + name + "';"@
}

/// The statement with number `i` of a workload over `row_count` rows.
pub open spec fn update_statement(i: nat, row_count: nat, update: Seq<char>) -> Seq<char> {
    upsert(i % row_count, label(i as int, update))
}

/// Whether `stmts` are the statements of a workload.
pub open spec fn are_statements(
    stmts: Seq<String>,
    row_count: nat,
    ops_count: nat,
    update: Seq<char>,
) -> bool {
    &&& stmts.len() == ops_count
    &&& forall|i: int|
        0 <= i < ops_count ==> #[trigger] stmts[i]@ == update_statement(
            i as nat,
            row_count,
            update,
        )
}

/// Renders the name that the update with number `n` writes.
fn label_text(n: i64, update: &str) -> (s: String)
    ensures
        s@ == label(n as int, update@),
{
    let mut s = integer_text(n);
    s.append("-");
    s.append(update);
    s
}

/// Renders the statement that sets the name of the row `id`.
fn upsert_text(id: u64, name: &str) -> (s: String)
    ensures
        s@ == upsert(id as nat, name@),
{
    let digits = decimal_text(id);
    let mut s = "INSERT INTO t(id, name) VALUES(".to_owned();
    s.append(digits.as_str());
    s.append(", '");
    s.append(name);
    s.append("') ON CONFLICT (id) DO UPDATE SET name = '");
    s.append(name);
    s.append("';");
    s
}

/// The statements of a workload: `ops_count` updates that go round the rows `0..row_count`.
pub fn update_statements(row_count: usize, ops_count: usize, update: &str) -> (stmts: Vec<String>)
    requires
        ops_count == 0 || row_count > 0,
    ensures
        are_statements(stmts@, row_count as nat, ops_count as nat, update@),
{
    let mut stmts: Vec<String> = Vec::new();
    for i in 0..ops_count
        invariant
            ops_count == 0 || row_count > 0,
            stmts.len() == i,
            forall|j: int|
                0 <= j < i ==> #[trigger] stmts[j]@ == update_statement(
                    j as nat,
                    row_count as nat,
                    update@,
                ),
    {
        let number = decimal_text(i as u64);
        let mut name = number;
        name.append("-");
        name.append(update);
        let id: usize = i % row_count;
        stmts.push(upsert_text(id as u64, name.as_str()));
    }
    stmts
}

/// The number of the update that the check expects in the row `0`: it takes the last ten updates
/// for those that the rows show.
pub open spec fn first_shown(ops_count: usize) -> int {
    (if ops_count < 10 {
        0usize
    } else {
        (ops_count - 10) as usize
    } as i64) as int
}

/// The number of the update that the check expects in the row `0`.
pub fn first_shown_update(ops_count: usize) -> (n: i64)
    ensures
        n == first_shown(ops_count),
{
    let shown: usize = if ops_count < 10 {
        0
    } else {
        ops_count - 10
    };
    shown as i64
}

/// The check looks for the last ten updates, or for all if there are fewer.
pub proof fn law_last_ten_updates_are_shown(ops_count: usize)
    requires
        ops_count <= i64::MAX,
    ensures
        ops_count <= 10 ==> first_shown(ops_count) == 0,
        ops_count >= 10 ==> first_shown(ops_count) + 10 == ops_count,
{
}

/// The row that shows the update with number `n` in the row `id`.
pub open spec fn shown_row(id: int, n: int, update: Seq<char>) -> RowView {
    RowView { id: CellView::Integer(id), name: CellView::Text(label(n, update)) }
}

/// Whether `rows` are `row_count` rows that show updates in order, from the one with number
/// `first` on.
pub open spec fn shows_updates(
    rows: Seq<RowView>,
    row_count: int,
    first: int,
    update: Seq<char>,
) -> bool {
    &&& rows.len() == row_count
    &&& forall|i: int| 0 <= i < rows.len() ==> #[trigger] rows[i] == shown_row(i, first + i, update)
}

/// How a table differs from what a workload leaves.
#[derive(Debug, Clone, Copy, PartialEq, Eq, Structural)]
pub enum UpdateMismatch {
    /// The table has this many rows instead of the number that was expected.
    RowCount { found: usize },
    /// This row is not the one that was expected; all before it are.
    Row { index: usize },
}

/// Whether `r` is what the check of `rows` comes to.
pub open spec fn is_verdict(
    rows: Seq<Row>,
    row_count: usize,
    ops_count: usize,
    update: Seq<char>,
    r: Result<(), UpdateMismatch>,
) -> bool {
    match r {
        Ok(()) => shows_updates(row_views(rows), row_count as int, first_shown(ops_count), update),
        Err(UpdateMismatch::RowCount { found }) => {
            &&& found == rows.len()
            &&& found != row_count
        },
        Err(UpdateMismatch::Row { index }) => {
            &&& rows.len() == row_count
            &&& index < rows.len()
            &&& rows[index as int]@ != shown_row(
                index as int,
                first_shown(ops_count) + index,
                update,
            )
            &&& forall|i: int|
                0 <= i < index ==> #[trigger] rows[i]@ == shown_row(
                    i,
                    first_shown(ops_count) + i,
                    update,
                )
        },
    }
}

/// Checks that `rows` are what a workload of `ops_count` updates over `row_count` rows leaves.
pub fn check_updates(
    rows: &Vec<Row>,
    row_count: usize,
    ops_count: usize,
    update: &str,
) -> (r: Result<(), UpdateMismatch>)
    requires
        rows.len() == row_count ==> {
            &&& row_count <= i64::MAX
            &&& first_shown(ops_count) + row_count <= i64::MAX + 1
        },
    ensures
        is_verdict(rows@, row_count, ops_count, update@, r),
{
    if rows.len() != row_count {
        return Err(UpdateMismatch::RowCount { found: rows.len() });
    }
    let base: i64 = first_shown_update(ops_count);
    for i in 0..rows.len()
        invariant
            rows.len() == row_count,
            base == first_shown(ops_count),
            first_shown(ops_count) + row_count <= i64::MAX + 1,
            row_count <= i64::MAX,
            forall|j: int|
                0 <= j < i ==> #[trigger] rows[j]@ == shown_row(
                    j,
                    first_shown(ops_count) + j,
                    update@,
                ),
    {
        let id: i64 = i as i64;
        let expected = ExpectedRow { id, name: label_text(base + id, update) };
        if !row_matches(&rows[i], &expected) {
            return Err(UpdateMismatch::Row { index: i });
        }
    }
    Ok(())
}

/// Whether `update` is read back from an SQL text in single quotes as it was written: it does not
/// end the text, nor the statement.
pub open spec fn is_literal(update: Seq<char>) -> bool {
    &&& !update.contains('\'')
    &&& !update.contains('\0')
}

/// The table after the first `ops` updates of a workload, each of which sets the name of its row.
/// It is what an engine makes of the statements where the text of the updates is literal.
pub open spec fn table_after(
    before: Map<int, Seq<char>>,
    ops: nat,
    row_count: nat,
    update: Seq<char>,
) -> Map<int, Seq<char>>
    decreases ops,
{
    if ops == 0 {
        before
    } else {
        table_after(before, (ops - 1) as nat, row_count, update).insert(
            (ops - 1) % row_count as int,
            label(ops - 1, update),
        )
    }
}

/// Whether `rows` are the rows of `table`, ordered by their id.
pub open spec fn lists(rows: Seq<RowView>, table: Map<int, Seq<char>>) -> bool {
    &&& forall|i: int|
        0 <= i < rows.len() ==> {
            &&& #[trigger] rows[i].id is Integer
            &&& table.contains_key(rows[i].id->Integer_0)
            &&& rows[i].name == CellView::Text(table[rows[i].id->Integer_0])
        }
    &&& forall|i: int, j: int|
        0 <= i < j < rows.len() ==> (#[trigger] rows[i]).id->Integer_0 < (
        #[trigger] rows[j]).id->Integer_0
    &&& forall|k: int| #[trigger] table.contains_key(k) ==> listed(rows, k)
}

/// Whether some row has the id `k`.
pub open spec fn listed(rows: Seq<RowView>, k: int) -> bool {
    exists|i: int| 0 <= i < rows.len() && #[trigger] rows[i].id == CellView::Integer(k)
}

/// Whether all ids of `table` are among the rows of a workload.
pub open spec fn within(table: Map<int, Seq<char>>, row_count: nat) -> bool {
    forall|k: int| #[trigger] table.contains_key(k) ==> 0 <= k < row_count
}

/// The number of the last update of the row `r`; it is negative if there is none.
spec fn last_update(ops: nat, row_count: nat, r: int) -> int {
    ops - 1 - (ops - 1 - r) % row_count as int
}

proof fn lemma_last_update_step(ops: nat, row_count: nat, r: int)
    requires
        ops > 0,
        0 <= r < row_count,
    ensures
        r == (ops - 1) % row_count as int ==> last_update(ops, row_count, r) == ops - 1,
        r != (ops - 1) % row_count as int ==> last_update(ops, row_count, r) == last_update(
            (ops - 1) as nat,
            row_count,
            r,
        ),
{
    let m = row_count as int;
    let x = ops - 1 - r;
    let q = x / m;
    vstd::arithmetic::div_mod::lemma_fundamental_div_mod(x, m);
    vstd::arithmetic::div_mod::lemma_mod_bound(x, m);
    if r == (ops - 1) % m {
        vstd::arithmetic::div_mod::lemma_fundamental_div_mod(ops - 1, m);
        let k = (ops - 1) / m;
        assert(x == m * k);
        assert(m * k == k * m) by (nonlinear_arith);
        vstd::arithmetic::div_mod::lemma_mod_multiples_basic(k, m);
    } else {
        if x % m == 0 {
            assert(ops - 1 == m * q + r);
            vstd::arithmetic::div_mod::lemma_fundamental_div_mod_converse(ops - 1, m, q, r);
            assert(false);
        }
        assert(x - 1 == q * m + (x % m - 1)) by {
            assert(m * q == q * m) by (nonlinear_arith);
        }
        vstd::arithmetic::div_mod::lemma_fundamental_div_mod_converse(x - 1, m, q, x % m - 1);
    }
}

/// Every row holds what its last update wrote, or what it held before if it had none.
proof fn lemma_table_after(
    before: Map<int, Seq<char>>,
    ops: nat,
    row_count: nat,
    update: Seq<char>,
)
    requires
        row_count > 0,
        within(before, row_count),
    ensures
        within(table_after(before, ops, row_count, update), row_count),
        forall|r: int|
            0 <= r < row_count && #[trigger] last_update(ops, row_count, r) >= 0 ==> {
                &&& table_after(before, ops, row_count, update).contains_key(r)
                &&& table_after(before, ops, row_count, update)[r] == label(
                    last_update(ops, row_count, r),
                    update,
                )
            },
        forall|r: int|
            0 <= r < row_count && #[trigger] last_update(ops, row_count, r) < 0 ==> (
            table_after(before, ops, row_count, update).contains_key(r) <==> before.contains_key(
                r,
            )),
    decreases ops,
{
    let m = row_count as int;
    let table = table_after(before, ops, row_count, update);
    if ops == 0 {
        assert forall|r: int| 0 <= r < row_count implies #[trigger] last_update(ops, row_count, r)
            < 0 by {
            vstd::arithmetic::div_mod::lemma_mod_bound(ops - 1 - r, m);
        }
    } else {
        let prev = (ops - 1) as nat;
        lemma_table_after(before, prev, row_count, update);
        vstd::arithmetic::div_mod::lemma_mod_bound(ops - 1, m);
        assert forall|r: int|
            0 <= r < row_count && #[trigger] last_update(ops, row_count, r) >= 0 implies {
            &&& table.contains_key(r)
            &&& table[r] == label(last_update(ops, row_count, r), update)
        } by {
            lemma_last_update_step(ops, row_count, r);
        }
        assert forall|r: int|
            0 <= r < row_count && #[trigger] last_update(ops, row_count, r) < 0 implies (
        table.contains_key(r) <==> before.contains_key(r)) by {
            lemma_last_update_step(ops, row_count, r);
            assert(last_update(prev, row_count, r) < 0);
        }
    }
}

/// If a table holds the rows `0..n`, its listing has the row `i` at place `i`.
proof fn lemma_listing(rows: Seq<RowView>, table: Map<int, Seq<char>>, n: int)
    requires
        lists(rows, table),
        0 <= n,
        forall|k: int| #[trigger] table.contains_key(k) <==> 0 <= k < n,
    ensures
        rows.len() == n,
        forall|i: int|
            0 <= i < n ==> #[trigger] rows[i] == (RowView {
                id: CellView::Integer(i),
                name: CellView::Text(table[i]),
            }),
{
    assert forall|i: int| 0 <= i < rows.len() implies (#[trigger] rows[i]).id->Integer_0 == i by {
        lemma_listing_place(rows, table, n, i);
    }
    if rows.len() > n {
        assert(rows[n].id->Integer_0 == n);
        assert(rows[n].id is Integer);
    }
    if rows.len() < n {
        assert(table.contains_key(rows.len() as int));
        assert(listed(rows, rows.len() as int));
    }
}

proof fn lemma_listing_place(rows: Seq<RowView>, table: Map<int, Seq<char>>, n: int, i: int)
    requires
        lists(rows, table),
        0 <= n,
        forall|k: int| #[trigger] table.contains_key(k) <==> 0 <= k < n,
        0 <= i < rows.len(),
    ensures
        rows[i].id->Integer_0 == i,
    decreases i,
{
    assert(rows[i].id is Integer);
    if i > 0 {
        lemma_listing_place(rows, table, n, i - 1);
        assert(rows[i - 1].id->Integer_0 < rows[i].id->Integer_0);
    }
    if rows[i].id->Integer_0 > i {
        assert(table.contains_key(i));
        assert(listed(rows, i));
        let j = choose|j: int| 0 <= j < rows.len() && #[trigger] rows[j].id == CellView::Integer(i);
        if j > i {
            assert(rows[i].id->Integer_0 < rows[j].id->Integer_0);
        } else if j < i {
            lemma_listing_place(rows, table, n, j);
        }
    }
}

/// The workloads of which the check expects what they leave: whole rounds over ten rows, or one
/// round over fewer, if only over none.
pub open spec fn checkable(row_count: nat, ops_count: nat) -> bool {
    if ops_count < 10 {
        row_count == ops_count
    } else {
        row_count == 10 && ops_count % 10 == 0
    }
}

/// What a workload writes is what the check accepts: after a workload in whole rounds over ten
/// rows, or in one round over fewer, the listing of the table passes the check, whatever the rows
/// held before.
pub proof fn law_updates_are_read_back(
    before: Map<int, Seq<char>>,
    row_count: usize,
    ops_count: usize,
    update: Seq<char>,
    rows: Seq<RowView>,
)
    requires
        is_literal(update),
        checkable(row_count as nat, ops_count as nat),
        ops_count <= i64::MAX,
        within(before, row_count as nat),
        lists(rows, table_after(before, ops_count as nat, row_count as nat, update)),
    ensures
        shows_updates(rows, row_count as int, first_shown(ops_count), update),
{
    let ops = ops_count as nat;
    let n = row_count as nat;
    let table = table_after(before, ops, n, update);
    if n > 0 {
        lemma_table_after(before, ops, n, update);
    }
    assert forall|r: int| 0 <= r < n implies #[trigger] last_update(ops, n, r) == first_shown(
        ops_count,
    ) + r by {
        if ops < 10 {
            vstd::arithmetic::div_mod::lemma_small_mod((ops - 1 - r) as nat, n);
        } else {
            assert(n == 10nat);
            assert((ops - 1 - r) % 10 == 9 - r);
        }
    }
    assert forall|k: int| #[trigger] table.contains_key(k) <==> 0 <= k < n by {
        if 0 <= k < n {
            assert(last_update(ops, n, k) >= 0);
        }
    }
    lemma_listing(rows, table, n as int);
    assert forall|i: int| 0 <= i < rows.len() implies #[trigger] rows[i] == shown_row(
        i,
        first_shown(ops_count) + i,
        update,
    ) by {
        assert(last_update(ops, n, i) >= 0);
    }
}

/// On a table that was empty before, the check accepts no other workloads.
pub proof fn law_check_accepts_whole_rounds_only(
    row_count: usize,
    ops_count: usize,
    update: Seq<char>,
    rows: Seq<RowView>,
)
    requires
        is_literal(update),
        row_count > 0 || ops_count == 0,
        ops_count <= i64::MAX,
        lists(
            rows,
            table_after(Map::empty(), ops_count as nat, row_count as nat, update),
        ),
    ensures
        shows_updates(rows, row_count as int, first_shown(ops_count), update) <==> checkable(
            row_count as nat,
            ops_count as nat,
        ),
{
    let ops = ops_count as nat;
    let n = row_count as nat;
    let before = Map::<int, Seq<char>>::empty();
    let table = table_after(before, ops, n, update);
    let first = first_shown(ops_count);
    if checkable(n, ops) {
        law_updates_are_read_back(before, row_count, ops_count, update, rows);
    }
    if row_count > 0 && shows_updates(rows, row_count as int, first, update) {
        lemma_table_after(before, ops, n, update);
        assert forall|r: int| 0 <= r < n implies #[trigger] last_update(ops, n, r) == first + r by {
            assert(rows[r] == shown_row(r, first + r, update));
            assert(rows[r].id is Integer);
            assert(table.contains_key(r));
            assert(label(last_update(ops, n, r), update) == label(first + r, update));
            lemma_label_injective(last_update(ops, n, r), first + r, update);
        }
        let m = n as int;
        assert(last_update(ops, n, 0) == first);
        assert(last_update(ops, n, m - 1) == first + m - 1);
        vstd::arithmetic::div_mod::lemma_mod_bound(ops - 1, m);
        assert((ops - m) % m == 0);
        assert(first == ops - m);
        if ops >= 10 {
            assert(m == 10);
        }
    }
}

/// Names of different updates differ.
proof fn lemma_label_injective(a: int, b: int, update: Seq<char>)
    requires
        label(a, update) == label(b, update),
    ensures
        a == b,
{
    let tail = "-"@ + update;
    assert(label(a, update) =~= integer(a) + tail);
    assert(label(b, update) =~= integer(b) + tail);
    assert(integer(a).len() == integer(b).len());
    assert(integer(a) =~= (integer(a) + tail).take(integer(a).len() as int));
    assert(integer(b) =~= (integer(b) + tail).take(integer(b).len() as int));
    lemma_integer_injective(a, b);
}

/// Whether `name` is the number `n`, a hyphen, and `update`.
pub open spec fn is_name_of(name: Seq<char>, n: int, update: Seq<char>) -> bool {
    exists|digits: Seq<char>| #[trigger]
        is_signed_numeral(digits, n) && name == digits + "-"@ + update
}

proof fn lemma_name_of(n: int, update: Seq<char>)
    ensures
        forall|name: Seq<char>| #[trigger] is_name_of(name, n, update) <==> name == label(n, update),
{
    law_integer_is_the_numeral(n);
    assert(is_signed_numeral(integer(n), n));
}

/// Whether `row` has the id `id`, and the name that the update with number `n` writes.
pub open spec fn is_row_of(row: Row, id: int, n: int, update: Seq<char>) -> bool {
    &&& row.id matches Cell::Integer(k) && k == id
    &&& row.name matches Cell::Text(name) && is_name_of(name@, n, update)
}

/// The check compares every row with the update that it has to show: it accepts if and only if
/// there are as many rows as were expected, and each has its place for its id, and the name of the
/// update that many places behind the first of the last ten. What it reports is the number of rows
/// if that is wrong, and else the first row that is.
pub proof fn law_check_compares_every_row(
    rows: Seq<Row>,
    row_count: usize,
    ops_count: usize,
    update: Seq<char>,
    r: Result<(), UpdateMismatch>,
)
    requires
        is_verdict(rows, row_count, ops_count, update, r),
        ops_count <= i64::MAX,
    ensures
        ({
            let first: int = if ops_count < 10 {
                0
            } else {
                ops_count - 10
            };
            &&& r is Ok <==> rows.len() == row_count && (forall|i: int|
                0 <= i < rows.len() ==> is_row_of(#[trigger] rows[i], i, first + i, update))
            &&& r matches Err(UpdateMismatch::RowCount { found }) ==> found == rows.len() && found
                != row_count
            &&& rows.len() != row_count ==> (r matches Err(UpdateMismatch::RowCount { .. }))
            &&& r matches Err(UpdateMismatch::Row { index }) ==> {
                &&& index < rows.len()
                &&& !is_row_of(rows[index as int], index as int, first + index, update)
                &&& forall|i: int|
                    0 <= i < index ==> is_row_of(#[trigger] rows[i], i, first + i, update)
            }
        }),
{
    let first: int = if ops_count < 10 {
        0
    } else {
        ops_count - 10
    };
    assert(first_shown(ops_count) == first);
    assert forall|i: int| 0 <= i < rows.len() implies (#[trigger] rows[i]@ == shown_row(
        i,
        first + i,
        update,
    ) <==> is_row_of(rows[i], i, first + i, update)) by {
        lemma_name_of(first + i, update);
    }
    let views = row_views(rows);
    assert(views.len() == rows.len());
    assert(forall|i: int| 0 <= i < rows.len() ==> #[trigger] views[i] == rows[i]@);
    if let Ok(()) = r {
        assert forall|i: int| 0 <= i < rows.len() implies is_row_of(
            #[trigger] rows[i],
            i,
            first + i,
            update,
        ) by {
            assert(views[i] == rows[i]@);
        }
    }
    if let Err(UpdateMismatch::Row { index }) = r {
        assert(rows[index as int]@ != shown_row(index as int, first + index, update));
        assert(!is_row_of(rows[index as int], index as int, first + index, update));
        assert forall|i: int| 0 <= i < index implies is_row_of(
            #[trigger] rows[i],
            i,
            first + i,
            update,
        ) by {
            assert(rows[i]@ == shown_row(i, first + i, update));
        }
    }
}

/// The statement that the workload is made of: it sets the name of the row `id` to `name`, whether
/// or not the row is there yet.
pub open spec fn is_upsert(stmt: Seq<char>, id: int, name: Seq<char>) -> bool {
    exists|digits: Seq<char>|
        {
            &&& #[trigger] is_numeral(digits, id)
            &&& stmt == "INSERT INTO t(id, name) VALUES("@ + digits + ", '"@ + name
                + "') ON CONFLICT (id) DO UPDATE SET name = '"@ + name + "';"@
        }
}

/// Whether `stmt` sets the row `id` to the name that the update with number `n` writes.
pub open spec fn updates_row(stmt: Seq<char>, id: int, n: int, update: Seq<char>) -> bool {
    exists|name: Seq<char>| #[trigger] is_upsert(stmt, id, name) && is_name_of(name, n, update)
}

/// A workload goes round its rows: there is a statement for every update, and the one with number
/// `i` sets the row whose id is the remainder of `i` by the number of rows.
pub proof fn law_statements_go_round_the_rows(
    stmts: Seq<String>,
    row_count: nat,
    ops_count: nat,
    update: Seq<char>,
)
    requires
        are_statements(stmts, row_count, ops_count, update),
        row_count > 0,
    ensures
        stmts.len() == ops_count,
        forall|i: int|
            0 <= i < ops_count ==> updates_row(
                #[trigger] stmts[i]@,
                i % row_count as int,
                i,
                update,
            ),
{
    assert forall|i: int| 0 <= i < ops_count implies updates_row(
        #[trigger] stmts[i]@,
        i % row_count as int,
        i,
        update,
    ) by {
        lemma_statement(i as nat, row_count, update);
    }
}

proof fn lemma_statement(i: nat, row_count: nat, update: Seq<char>)
    requires
        row_count > 0,
    ensures
        is_upsert(
            update_statement(i, row_count, update),
            i as int % row_count as int,
            label(i as int, update),
        ),
        is_name_of(label(i as int, update), i as int, update),
{
    lemma_name_of(i as int, update);
    law_decimal_is_the_numeral(i % row_count);
    assert(is_numeral(decimal(i % row_count), i as int % row_count as int));
}

/// What stands in a statement behind the opening words of an upsert.
pub open spec fn values_in(stmt: Seq<char>) -> Seq<char> {
    stmt.skip("INSERT INTO t(id, name) VALUES("@.len() as int)
}

/// The id that is read out of a statement: the digits up to the comma.
pub open spec fn id_in(stmt: Seq<char>) -> int {
    value_of(text_before(values_in(stmt), ','))
}

/// The name that is read out of a statement: what stands in the quotes behind the comma.
pub open spec fn name_in(stmt: Seq<char>) -> Seq<char> {
    text_before(values_in(stmt).skip(text_before(values_in(stmt), ',').len() as int + 3), '\'')
}

/// The table after a statement: an upsert enters the id and the name that are read out of it, and
/// anything else is no statement of a workload and changes nothing.
pub open spec fn after_statement(table: Map<int, Seq<char>>, stmt: Seq<char>) -> Map<
    int,
    Seq<char>,
> {
    if is_upsert(stmt, id_in(stmt), name_in(stmt)) {
        table.insert(id_in(stmt), name_in(stmt))
    } else {
        table
    }
}

/// The table after a series of statements.
pub open spec fn after_statements(table: Map<int, Seq<char>>, stmts: Seq<Seq<char>>) -> Map<
    int,
    Seq<char>,
>
    decreases stmts.len(),
{
    if stmts.len() == 0 {
        table
    } else {
        after_statement(after_statements(table, stmts.drop_last()), stmts.last())
    }
}

/// What an upsert was made of is read out of it, if the name does not end its quotes.
pub proof fn law_upsert_is_read_back(stmt: Seq<char>, id: int, name: Seq<char>)
    requires
        is_upsert(stmt, id, name),
        !name.contains('\''),
    ensures
        id_in(stmt) == id,
        name_in(stmt) == name,
{
    reveal_strlit(", '");
    reveal_strlit("') ON CONFLICT (id) DO UPDATE SET name = '");
    let opening = "INSERT INTO t(id, name) VALUES("@;
    let closing = "') ON CONFLICT (id) DO UPDATE SET name = '"@ + name + "';"@;
    let digits = choose|digits: Seq<char>|
        {
            &&& #[trigger] is_numeral(digits, id)
            &&& stmt == opening + digits + ", '"@ + name
                + "') ON CONFLICT (id) DO UPDATE SET name = '"@ + name + "';"@
        };
    let rest = ", '"@ + name + closing;
    assert(values_in(stmt) =~= digits + rest);
    if digits.contains(',') {
        let i = choose|i: int| 0 <= i < digits.len() && digits[i] == ',';
        assert('0' <= digits[i] <= '9');
    }
    assert(rest[0] == ',');
    lemma_text_before(digits, rest, ',');
    assert((digits + rest).skip(digits.len() as int + 3) =~= name + closing);
    assert(closing[0] == '\'');
    lemma_text_before(name, closing, '\'');
}

/// The name of an update has an apostrophe only if the text of the updates has.
proof fn lemma_label_is_literal(n: int, update: Seq<char>)
    requires
        is_literal(update),
    ensures
        !label(n, update).contains('\''),
{
    reveal_strlit("-");
    law_integer_is_the_numeral(n);
    let s = label(n, update);
    let digits = integer(n);
    if s.contains('\'') {
        let i = choose|i: int| 0 <= i < s.len() && s[i] == '\'';
        if i < digits.len() {
            assert(s[i] == digits[i]);
            if n < 0 {
                if i > 0 {
                    assert(digits.skip(1)[i - 1] == digits[i]);
                    assert('0' <= digits.skip(1)[i - 1] <= '9');
                }
            } else {
                assert('0' <= digits[i] <= '9');
            }
        } else if i == digits.len() {
            assert(s[i] == '-');
        } else {
            assert(s[i] == update[i - digits.len() - 1]);
        }
    }
}

/// The statements do what the table of the workload assumes: reading id and name out of each of the
/// first `n`, and entering them, gives the table after `n` updates.
pub proof fn law_statements_make_the_table(
    before: Map<int, Seq<char>>,
    stmts: Seq<String>,
    row_count: nat,
    ops_count: nat,
    update: Seq<char>,
    n: nat,
)
    requires
        are_statements(stmts, row_count, ops_count, update),
        is_literal(update),
        row_count > 0 || ops_count == 0,
        n <= ops_count,
    ensures
        after_statements(before, texts(stmts).take(n as int)) == table_after(
            before,
            n,
            row_count,
            update,
        ),
    decreases n,
{
    let upto = texts(stmts).take(n as int);
    if n > 0 {
        law_statements_make_the_table(
            before,
            stmts,
            row_count,
            ops_count,
            update,
            (n - 1) as nat,
        );
        assert(upto.drop_last() =~= texts(stmts).take(n - 1));
        let stmt = upto.last();
        assert(stmt == stmts[n - 1]@);
        lemma_statement((n - 1) as nat, row_count, update);
        lemma_label_is_literal(n - 1, update);
        law_upsert_is_read_back(stmt, (n - 1) % row_count as int, label(n - 1, update));
    }
}

/// Numbers that are closer than `m` have different remainders.
proof fn lemma_remainders_differ(a: int, b: int, m: int)
    requires
        a < b < a + m,
    ensures
        a % m != b % m,
{
    vstd::arithmetic::div_mod::lemma_fundamental_div_mod(a, m);
    vstd::arithmetic::div_mod::lemma_fundamental_div_mod(b, m);
    if a % m == b % m {
        let q = b / m - a / m;
        assert(m * (b / m) - m * (a / m) == m * q) by (nonlinear_arith)
            requires
                q == b / m - a / m,
        ;
        assert(q <= 0 || q >= 1);
        assert(m * q <= 0 || m * q >= m) by (nonlinear_arith)
            requires
                m > 0,
                q <= 0 || q >= 1,
        ;
    }
}

/// What the statements of a workload leave in a table: every row shows the last update that it had,
/// which is one of the last `row_count`; a row that no statement set is as it was.
pub proof fn law_rows_show_their_last_update(
    before: Map<int, Seq<char>>,
    stmts: Seq<String>,
    row_count: nat,
    ops_count: nat,
    update: Seq<char>,
)
    requires
        are_statements(stmts, row_count, ops_count, update),
        is_literal(update),
        row_count > 0,
    ensures
        ({
            let table = after_statements(before, texts(stmts));
            &&& forall|i: int|
                0 <= i < ops_count < i + row_count + 1 ==> {
                    &&& table.contains_key(#[trigger] (i % row_count as int))
                    &&& is_name_of(table[i % row_count as int], i, update)
                }
            &&& forall|k: int|
                !(0 <= k < row_count && k < ops_count) ==> {
                    &&& #[trigger] table.contains_key(k) <==> before.contains_key(k)
                    &&& before.contains_key(k) ==> table[k] == before[k]
                }
        }),
{
    law_statements_make_the_table(before, stmts, row_count, ops_count, update, ops_count);
    assert(texts(stmts).take(ops_count as int) =~= texts(stmts));
    lemma_last_updates_stay(before, ops_count, row_count, update);
}

proof fn lemma_last_updates_stay(
    before: Map<int, Seq<char>>,
    ops: nat,
    row_count: nat,
    update: Seq<char>,
)
    requires
        row_count > 0,
    ensures
        forall|i: int|
            0 <= i < ops < i + row_count + 1 ==> {
                &&& table_after(before, ops, row_count, update).contains_key(
                    #[trigger] (i % row_count as int),
                )
                &&& is_name_of(
                    table_after(before, ops, row_count, update)[i % row_count as int],
                    i,
                    update,
                )
            },
        forall|k: int|
            !(0 <= k < row_count && k < ops) ==> {
                &&& #[trigger] table_after(before, ops, row_count, update).contains_key(k)
                    <==> before.contains_key(k)
                &&& before.contains_key(k) ==> table_after(before, ops, row_count, update)[k]
                    == before[k]
            },
    decreases ops,
{
    if ops > 0 {
        let prev = (ops - 1) as nat;
        let m = row_count as int;
        lemma_last_updates_stay(before, prev, row_count, update);
        lemma_name_of(ops - 1, update);
        assert forall|i: int| 0 <= i < ops < i + row_count + 1 implies {
            &&& table_after(before, ops, row_count, update).contains_key(#[trigger] (i % m))
            &&& is_name_of(table_after(before, ops, row_count, update)[i % m], i, update)
        } by {
            if i < ops - 1 {
                lemma_remainders_differ(i, ops - 1, m);
            }
        }
        vstd::arithmetic::div_mod::lemma_mod_bound(ops - 1, m);
        if ops - 1 < m {
            vstd::arithmetic::div_mod::lemma_small_mod(prev, row_count);
        }
        let table = table_after(before, ops, row_count, update);
        let earlier = table_after(before, prev, row_count, update);
        assert forall|k: int| !(0 <= k < row_count && k < ops) implies {
            &&& #[trigger] table.contains_key(k) <==> before.contains_key(k)
            &&& before.contains_key(k) ==> table[k] == before[k]
        } by {
            assert(earlier.contains_key(k) <==> before.contains_key(k));
            assert(k != (ops - 1) % m);
        }
    }
}

/// A restored table passes the check if and only if it is the table that the workload left: of a
/// workload in whole rounds over ten rows, or in one round over fewer, the rows that are accepted
/// are those, in order, that the statements leave. A table that differs in any row is refused.
pub proof fn law_accepted_rows_are_what_the_statements_leave(
    before: Map<int, Seq<char>>,
    stmts: Seq<String>,
    row_count: usize,
    ops_count: usize,
    update: Seq<char>,
    left: Seq<Row>,
    rows: Seq<Row>,
    r: Result<(), UpdateMismatch>,
)
    requires
        are_statements(stmts, row_count as nat, ops_count as nat, update),
        is_literal(update),
        checkable(row_count as nat, ops_count as nat),
        ops_count <= i64::MAX,
        within(before, row_count as nat),
        lists(row_views(left), after_statements(before, texts(stmts))),
        is_verdict(rows, row_count, ops_count, update, r),
    ensures
        r is Ok <==> row_views(rows) == row_views(left),
{
    law_statements_make_the_table(
        before,
        stmts,
        row_count as nat,
        ops_count as nat,
        update,
        ops_count as nat,
    );
    assert(texts(stmts).take(ops_count as int) =~= texts(stmts));
    law_updates_are_read_back(before, row_count, ops_count, update, row_views(left));
    let a = row_views(rows);
    let b = row_views(left);
    assert(a.len() == rows.len());
    if r is Ok {
        assert(a =~= b);
    }
    if a == b {
        assert(rows.len() == row_count);
        if let Err(UpdateMismatch::Row { index }) = r {
            assert(a[index as int] == rows[index as int]@);
        }
    }
}

} // verus!
