//! What each operation of the database does with what it is given: the rows that
//! it writes and removes, the rows that it asks for, and what it makes of an
//! answer.
//!
//! A law here speaks of a call: its arguments, and any result that the operation
//! may return for them.
use vstd::prelude::*;
use crate::laws::rows::lemma_filter_same;
use crate::sql::{is_text, AssignmentView, ConditionView, Order, QueryView, StatementView};
use crate::tables::{
    arranged, less, limited, meets, present, projections, row_of, upserted, Matching, Row, Tables,
};
use crate::value::{Cell, Column, Table};

pub mod accounts;
pub mod servers;
pub mod notes;
pub mod pages;
pub mod chats;
pub mod evictions;
pub mod engine;
pub mod answers;
pub mod opening;

verus! {

/// Whether a cell holds an optional text: null where there is none.
pub open spec fn holds_text(cell: Cell, text: Option<String>) -> bool {
    match text {
        Some(s) => cell == Cell::Text(s@),
        None => cell == Cell::Null,
    }
}

/// Any row.
pub open spec fn any() -> spec_fn(Row) -> bool {
    |row: Row| true
}

/// The rows with a text in a column.
pub open spec fn with(column: Column, text: Seq<char>) -> spec_fn(Row) -> bool {
    |row: Row| row[column] == Cell::Text(text)
}

/// The rows with a text in one column and another in a second.
pub open spec fn with_both(
    column: Column,
    text: Seq<char>,
    second: Column,
    other: Seq<char>,
) -> spec_fn(Row) -> bool {
    |row: Row| row[column] == Cell::Text(text) && row[second] == Cell::Text(other)
}

/// Whether an answer gives some columns of the rows that are wanted: all of them,
/// or the first of them in the order where there is a limit.
pub open spec fn gives(
    answer: Seq<Seq<Cell>>,
    rows: Seq<Row>,
    wanted: spec_fn(Row) -> bool,
    columns: Seq<Column>,
    order: Order,
    limit: Option<int>,
) -> bool {
    exists|s: Seq<Row>|
        {
            &&& #[trigger] arranged(rows.filter(wanted), order, s)
            &&& answer == projections(s.take(limited(limit, s.len()) as int), columns)
        }
}

/// Whether an answer counts the rows that are wanted.
pub open spec fn counts(
    answer: Seq<Seq<Cell>>,
    rows: Seq<Row>,
    wanted: spec_fn(Row) -> bool,
) -> bool {
    answer == seq![seq![Cell::Integer(rows.filter(wanted).len() as int)]]
}

/// Whether an answer gives the smallest and the largest of a column of the rows
/// that are wanted, where it is not null, and two nulls where there is none.
pub open spec fn ends(
    answer: Seq<Seq<Cell>>,
    rows: Seq<Row>,
    wanted: spec_fn(Row) -> bool,
    column: Column,
) -> bool {
    let held = present(rows.filter(wanted), column);
    if held.len() == 0 {
        answer == seq![seq![Cell::Null, Cell::Null]]
    } else {
        exists|i: int, j: int|
            {
                &&& 0 <= i < held.len()
                &&& 0 <= j < held.len()
                &&& answer == seq![
                    seq![(#[trigger] held[i])[column], (#[trigger] held[j])[column]],
                ]
                &&& forall|k: int|
                    0 <= k < held.len() ==> !less(
                        (#[trigger] held[k])[column],
                        held[i][column],
                    ) && !less(held[j][column], held[k][column])
            }
    }
}

/// Whether a table loses some rows, which are counted, and nothing else changes.
pub open spec fn removes(
    table: Table,
    gone: spec_fn(Row) -> bool,
    before: Tables,
    after: Tables,
    changed: nat,
) -> bool {
    &&& after == before.insert(table, before[table].filter(|row: Row| !gone(row)))
    &&& changed == before[table].filter(gone).len()
}

/// Whether a column of some rows of a table is set, and the rows are counted,
/// and nothing else changes.
pub open spec fn sets(
    table: Table,
    which: spec_fn(Row) -> bool,
    column: Column,
    cell: Cell,
    before: Tables,
    after: Tables,
    changed: nat,
) -> bool {
    &&& after == before.insert(table, after[table])
    &&& after[table].len() == before[table].len()
    &&& forall|i: int|
        0 <= i < before[table].len() ==> #[trigger] after[table][i] == if which(before[table][i]) {
            before[table][i].insert(column, cell)
        } else {
            before[table][i]
        }
    &&& changed == before[table].filter(which).len()
}

/// Whether a row is put into a table, and nothing else changes: where the table
/// has a row with the same `key`, that row takes over the columns `update`, and
/// otherwise the row comes last.
pub open spec fn puts(
    table: Table,
    new: Row,
    key: Seq<Column>,
    update: Seq<Column>,
    before: Tables,
    after: Tables,
) -> bool {
    after == before.insert(table, upserted(before[table], new, key, update))
}

/// Whether a row has these columns and no others.
pub open spec fn has_columns(row: Row, columns: Seq<Column>) -> bool {
    forall|c: Column| #[trigger] row.dom().contains(c) <==> columns.contains(c)
}

pub(crate) proof fn lemma_gives(
    query: QueryView,
    wanted: spec_fn(Row) -> bool,
    tables: Tables,
    answer: Seq<Seq<Cell>>,
    m: Matching,
)
    requires
        query is Select,
        query.answered(tables, answer, m),
        forall|row: Row| #[trigger] meets(row, query->Select_filter, m) <==> wanted(row),
    ensures
        gives(
            answer,
            tables[query->Select_table],
            wanted,
            query->Select_columns,
            query->Select_order,
            query->Select_limit,
        ),
{
    let filter = query->Select_filter;
    lemma_filter_same(
        tables[query->Select_table],
        |row: Row| meets(row, filter, m),
        wanted,
    );
}

pub(crate) proof fn lemma_ends(
    query: QueryView,
    wanted: spec_fn(Row) -> bool,
    tables: Tables,
    answer: Seq<Seq<Cell>>,
    m: Matching,
)
    requires
        query is Range,
        query.answered(tables, answer, m),
        forall|row: Row| #[trigger] meets(row, query->Range_filter, m) <==> wanted(row),
    ensures
        ends(answer, tables[query->Range_table], wanted, query->Range_column),
{
    let filter = query->Range_filter;
    lemma_filter_same(
        tables[query->Range_table],
        |row: Row| meets(row, filter, m),
        wanted,
    );
}

pub(crate) proof fn lemma_counts(
    table: Table,
    filter: Seq<ConditionView>,
    wanted: spec_fn(Row) -> bool,
    tables: Tables,
    answer: Seq<Seq<Cell>>,
    m: Matching,
)
    requires
        (QueryView::Count { table, filter }).answered(tables, answer, m),
        forall|row: Row| #[trigger] meets(row, filter, m) <==> wanted(row),
    ensures
        counts(answer, tables[table], wanted),
{
    lemma_filter_same(tables[table], |row: Row| meets(row, filter, m), wanted);
}

pub(crate) proof fn lemma_removes(
    table: Table,
    filter: Seq<ConditionView>,
    gone: spec_fn(Row) -> bool,
    before: Tables,
    after: Tables,
    changed: nat,
    m: Matching,
)
    requires
        (StatementView::Delete { table, filter }).step(before, after, changed, m),
        forall|row: Row| #[trigger] meets(row, filter, m) <==> gone(row),
    ensures
        removes(table, gone, before, after, changed),
{
    lemma_filter_same(before[table], |row: Row| meets(row, filter, m), gone);
    lemma_filter_same(
        before[table],
        |row: Row| !meets(row, filter, m),
        |row: Row| !gone(row),
    );
}

pub(crate) proof fn lemma_sets(
    table: Table,
    change: AssignmentView,
    filter: Seq<ConditionView>,
    which: spec_fn(Row) -> bool,
    before: Tables,
    after: Tables,
    changed: nat,
    m: Matching,
)
    requires
        (StatementView::Update { table, change, filter }).step(before, after, changed, m),
        forall|row: Row| #[trigger] meets(row, filter, m) <==> which(row),
    ensures
        sets(table, which, change.column, change.value, before, after, changed),
{
    lemma_filter_same(before[table], |row: Row| meets(row, filter, m), which);
}

pub(crate) proof fn lemma_with(
    filter: Seq<ConditionView>,
    column: Column,
    text: Seq<char>,
    m: Matching,
)
    requires
        filter == seq![is_text(column, text)],
    ensures
        forall|row: Row| #[trigger] meets(row, filter, m) <==> with(column, text)(row),
{
    assert forall|row: Row| #[trigger] meets(row, filter, m) <==> with(column, text)(row) by {
        lemma_meets_one(row, is_text(column, text), m);
    }
}

pub(crate) proof fn lemma_with_both(
    filter: Seq<ConditionView>,
    column: Column,
    text: Seq<char>,
    second: Column,
    other: Seq<char>,
    m: Matching,
)
    requires
        filter == seq![is_text(column, text), is_text(second, other)],
    ensures
        forall|row: Row| #[trigger]
            meets(row, filter, m) <==> with_both(column, text, second, other)(row),
{
    assert forall|row: Row| #[trigger]
        meets(row, filter, m) <==> with_both(column, text, second, other)(row) by {
        lemma_meets_two(row, is_text(column, text), is_text(second, other), m);
    }
}

pub(crate) proof fn lemma_meets_two(row: Row, a: ConditionView, b: ConditionView, m: Matching)
    ensures
        meets(row, seq![a, b], m) <==> a.holds(row, m) && b.holds(row, m),
{
    let filter = seq![a, b];
    if meets(row, filter, m) {
        assert(filter[0].holds(row, m));
        assert(filter[1].holds(row, m));
    }
}

pub(crate) proof fn lemma_meets_three(
    row: Row,
    a: ConditionView,
    b: ConditionView,
    c: ConditionView,
    m: Matching,
)
    ensures
        meets(row, seq![a, b, c], m) <==> a.holds(row, m) && b.holds(row, m) && c.holds(row, m),
{
    let filter = seq![a, b, c];
    if meets(row, filter, m) {
        assert(filter[0].holds(row, m));
        assert(filter[1].holds(row, m));
        assert(filter[2].holds(row, m));
    }
}

pub(crate) proof fn lemma_meets_one(row: Row, a: ConditionView, m: Matching)
    ensures
        meets(row, seq![a], m) <==> a.holds(row, m),
{
    let filter = seq![a];
    if meets(row, filter, m) {
        assert(filter[0].holds(row, m));
    }
}

/// A row has the columns that values are assigned to.
pub(crate) proof fn lemma_row_columns(values: Seq<AssignmentView>, columns: Seq<Column>)
    requires
        columns == values.map_values(|a: AssignmentView| a.column),
    ensures
        has_columns(row_of(values), columns),
    decreases values.len(),
{
    if values.len() > 0 {
        let rest = values.drop_last();
        let names = rest.map_values(|a: AssignmentView| a.column);
        lemma_row_columns(rest, names);
        assert forall|c: Column| #[trigger]
            row_of(values).dom().contains(c) <==> columns.contains(c) by {
            assert(row_of(rest).dom().contains(c) <==> names.contains(c));
            if names.contains(c) {
                let i = choose|i: int| 0 <= i < names.len() && names[i] == c;
                assert(columns[i] == c);
            }
            if c == values.last().column {
                assert(columns[columns.len() - 1] == c);
            }
            if columns.contains(c) && c != values.last().column {
                let i = choose|i: int| 0 <= i < columns.len() && columns[i] == c;
                assert(names[i] == c);
            }
        }
    }
}

} // verus!
