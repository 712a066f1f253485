//! What statements and queries mean: tables as sequences of rows, statements as
//! steps from tables to tables, queries as what their answers have to be.
//!
//! The database engine may choose where SQL leaves something open: the order of
//! rows that a query does not order, and which of two equally new rows counts
//! as the newer. The meaning here leaves the same things open.
use vstd::prelude::*;
use crate::error::DatabaseErrorView;
use crate::sql::{AssignmentView, ConditionView, Order, QueryView, StatementView, Test};
use crate::value::{Cell, Column, Table};

verus! {

/// The columns of one row.
pub type Row = Map<Column, Cell>;

/// The rows of every table, each in the order in which they were first written.
pub type Tables = Map<Table, Seq<Row>>;

/// How the engine finds text: by a pattern with wildcards, and by a phrase.
/// What is said of statements and queries holds whatever these are.
pub struct Matching {
    pub like: spec_fn(Cell, Cell) -> bool,
    pub phrase: spec_fn(Cell, Cell) -> bool,
}

/// Whether `a` comes before `b` by the code points of their characters.
pub open spec fn text_less(a: Seq<char>, b: Seq<char>) -> bool
    decreases b.len(),
{
    if b.len() == 0 {
        false
    } else if a.len() == 0 {
        true
    } else {
        a[0] < b[0] || (a[0] == b[0] && text_less(a.drop_first(), b.drop_first()))
    }
}

/// Whether `a` comes before `b`: integers by size, texts by their characters.
/// No column holds both, so that nothing is said of one and the other.
pub open spec fn less(a: Cell, b: Cell) -> bool {
    match (a, b) {
        (Cell::Integer(i), Cell::Integer(j)) => i < j,
        (Cell::Text(s), Cell::Text(t)) => text_less(s, t),
        _ => false,
    }
}

/// Whether the two cells hold the same value. Null is the same as nothing.
pub open spec fn same(a: Cell, b: Cell) -> bool {
    a == b && (a is Integer || a is Text)
}

impl ConditionView {
    /// Whether `row` meets the condition.
    pub open spec fn holds(self, row: Row, m: Matching) -> bool {
        let cell = row[self.column];
        match self.test {
            Test::Equal => same(cell, self.value),
            Test::Less => less(cell, self.value),
            Test::AtMost => less(cell, self.value) || same(cell, self.value),
            Test::Greater => less(self.value, cell),
            Test::AtLeast => less(self.value, cell) || same(cell, self.value),
            Test::Like => (m.like)(cell, self.value),
            Test::Match => (m.phrase)(cell, self.value),
        }
    }
}

/// Whether `row` meets every condition of `filter`.
pub open spec fn meets(row: Row, filter: Seq<ConditionView>, m: Matching) -> bool {
    forall|i: int| 0 <= i < filter.len() ==> (#[trigger] filter[i]).holds(row, m)
}

/// The rows that meet `filter`.
pub open spec fn selected(rows: Seq<Row>, filter: Seq<ConditionView>, m: Matching) -> Seq<Row> {
    rows.filter(|row: Row| meets(row, filter, m))
}

/// The rows that do not meet `filter`.
pub open spec fn unselected(rows: Seq<Row>, filter: Seq<ConditionView>, m: Matching) -> Seq<Row> {
    rows.filter(|row: Row| !meets(row, filter, m))
}

/// The row that `values` make.
pub open spec fn row_of(values: Seq<AssignmentView>) -> Row
    decreases values.len(),
{
    if values.len() == 0 {
        Map::empty()
    } else {
        row_of(values.drop_last()).insert(values.last().column, values.last().value)
    }
}

/// Whether two rows hold the same in every column of `key`.
pub open spec fn agree(a: Row, b: Row, key: Seq<Column>) -> bool {
    forall|i: int| 0 <= i < key.len() ==> a[#[trigger] key[i]] == b[key[i]]
}

/// `row` with the given columns as they are in `new`.
pub open spec fn overwritten(row: Row, new: Row, columns: Seq<Column>) -> Row
    decreases columns.len(),
{
    if columns.len() == 0 {
        row
    } else {
        overwritten(row, new, columns.drop_last()).insert(columns.last(), new[columns.last()])
    }
}

/// Whether a row of `rows` has the key of `new`.
pub open spec fn has_key(rows: Seq<Row>, new: Row, key: Seq<Column>) -> bool {
    exists|i: int| 0 <= i < rows.len() && agree(#[trigger] rows[i], new, key)
}

/// `rows` after `new` was written by its key.
pub open spec fn upserted(
    rows: Seq<Row>,
    new: Row,
    key: Seq<Column>,
    update: Seq<Column>,
) -> Seq<Row> {
    if has_key(rows, new, key) {
        rows.map_values(
            |row: Row|
                if agree(row, new, key) {
                    overwritten(row, new, update)
                } else {
                    row
                },
        )
    } else {
        rows.push(new)
    }
}

/// `rows` after `column` was written in those that meet `filter`.
pub open spec fn updated(
    rows: Seq<Row>,
    change: AssignmentView,
    filter: Seq<ConditionView>,
    m: Matching,
) -> Seq<Row> {
    rows.map_values(
        |row: Row|
            if meets(row, filter, m) {
                row.insert(change.column, change.value)
            } else {
                row
            },
    )
}

/// Whether the `column` of a row holds `cell`.
pub open spec fn in_group(column: Column, cell: Cell) -> spec_fn(Row) -> bool {
    |row: Row| row[column] == cell
}

/// The rows whose `column` holds `cell`.
pub open spec fn group_of(rows: Seq<Row>, column: Column, cell: Cell) -> Seq<Row> {
    rows.filter(in_group(column, cell))
}

/// Whether `rn` numbers the rows of each group from one on, newer rows first.
pub open spec fn numbering(
    rows: Seq<Row>,
    group: Column,
    newest_by: Column,
    rn: Seq<int>,
) -> bool {
    &&& rn.len() == rows.len()
    &&& forall|i: int|
        0 <= i < rows.len() ==> 1 <= #[trigger] rn[i] <= group_of(
            rows,
            group,
            rows[i][group],
        ).len()
    &&& forall|i: int, j: int|
        0 <= i < rows.len() && 0 <= j < rows.len() && i != j && rows[i][group] == rows[j][group]
            ==> #[trigger] rn[i] != #[trigger] rn[j]
    &&& forall|i: int, j: int|
        0 <= i < rows.len() && 0 <= j < rows.len() && rows[i][group] == rows[j][group] && less(
            rows[j][newest_by],
            rows[i][newest_by],
        ) ==> #[trigger] rn[i] < #[trigger] rn[j]
}

/// The rows whose number is at most `keep`.
pub open spec fn within(rows: Seq<Row>, rn: Seq<int>, keep: int) -> Seq<Row>
    decreases rows.len(),
{
    if rows.len() == 0 {
        Seq::empty()
    } else {
        let head = within(rows.drop_last(), rn.drop_last(), keep);
        if rn.last() <= keep {
            head.push(rows.last())
        } else {
            head
        }
    }
}

/// Whether `s` holds the rows of `rows` in the given order.
pub open spec fn arranged(rows: Seq<Row>, order: Order, s: Seq<Row>) -> bool {
    match order {
        Order::Unordered => s.to_multiset() == rows.to_multiset(),
        Order::Written => s == rows,
        Order::Ascending(c) => {
            &&& s.to_multiset() == rows.to_multiset()
            &&& forall|i: int, j: int|
                0 <= i < j < s.len() ==> !less((#[trigger] s[j])[c], (#[trigger] s[i])[c])
        },
        Order::Descending(c) => {
            &&& s.to_multiset() == rows.to_multiset()
            &&& forall|i: int, j: int|
                0 <= i < j < s.len() ==> !less((#[trigger] s[i])[c], (#[trigger] s[j])[c])
        },
    }
}

/// How many of `len` rows a limit lets through. A negative limit is none.
pub open spec fn limited(limit: Option<int>, len: nat) -> nat {
    match limit {
        Some(n) => if 0 <= n < len {
            n as nat
        } else {
            len
        },
        None => len,
    }
}

/// The given columns of a row.
pub open spec fn projected(row: Row, columns: Seq<Column>) -> Seq<Cell> {
    columns.map_values(|c: Column| row[c])
}

/// The given columns of each row.
pub open spec fn projections(rows: Seq<Row>, columns: Seq<Column>) -> Seq<Seq<Cell>> {
    rows.map_values(|row: Row| projected(row, columns))
}

/// The rows whose `column` is not null.
pub open spec fn present(rows: Seq<Row>, column: Column) -> Seq<Row> {
    rows.filter(|row: Row| row[column] != Cell::Null)
}

/// The sizes, in bytes, of the pages that hold each table. How rows lie on
/// pages is the engine's affair.
pub type Pages = Map<Table, Seq<nat>>;

/// The bytes of some pages together.
pub open spec fn total_size(sizes: Seq<nat>) -> nat
    decreases sizes.len(),
{
    if sizes.len() == 0 {
        0
    } else {
        total_size(sizes.drop_last()) + sizes.last()
    }
}

/// Whether `answer` is that to the query for the size of `table`, where it lies
/// on `pages`.
pub open spec fn size_answered(table: Table, pages: Pages, answer: Seq<Seq<Cell>>) -> bool {
    answer == seq![seq![Cell::Integer(total_size(pages[table]) as int)]]
}

impl StatementView {
    /// The table whose rows the statement changes.
    pub open spec fn table(self) -> Table {
        match self {
            StatementView::Upsert { table, .. } => table,
            StatementView::Update { table, .. } => table,
            StatementView::Delete { table, .. } => table,
            StatementView::DeleteBeyond { table, .. } => table,
        }
    }

    /// Whether the statement, when it succeeds, can turn the rows `before` of
    /// its table into `after` and report `changed` rows.
    pub open spec fn changes(
        self,
        before: Seq<Row>,
        after: Seq<Row>,
        changed: nat,
        m: Matching,
    ) -> bool {
        match self {
            StatementView::Upsert { values, key, update, .. } => {
                &&& after == upserted(before, row_of(values), key, update)
                &&& changed == 1
            },
            StatementView::Update { change, filter, .. } => {
                &&& after == updated(before, change, filter, m)
                &&& changed == selected(before, filter, m).len()
            },
            StatementView::Delete { filter, .. } => {
                &&& after == unselected(before, filter, m)
                &&& changed == selected(before, filter, m).len()
            },
            StatementView::DeleteBeyond { group, newest_by, keep, .. } => exists|rn: Seq<int>|
                {
                    &&& #[trigger] numbering(before, group, newest_by, rn)
                    &&& after == within(before, rn, keep)
                    &&& changed == before.len() - after.len()
                },
        }
    }

    /// Whether the statement, when it succeeds, can turn the tables `before`
    /// into `after` and report `changed` rows.
    pub open spec fn step(self, before: Tables, after: Tables, changed: nat, m: Matching) -> bool {
        &&& after == before.insert(self.table(), after[self.table()])
        &&& self.changes(before[self.table()], after[self.table()], changed, m)
    }
}

/// Whether `batch`, run in order with every statement succeeding, can turn
/// `before` into `after` and report `changed` rows for each statement.
pub open spec fn runs(
    batch: Seq<StatementView>,
    before: Tables,
    after: Tables,
    changed: Seq<nat>,
    m: Matching,
) -> bool
    decreases batch.len(),
{
    &&& changed.len() == batch.len()
    &&& if batch.len() == 0 {
        before == after
    } else {
        exists|middle: Tables|
            {
                &&& runs(batch.drop_last(), before, middle, changed.drop_last(), m)
                &&& #[trigger] batch.last().step(middle, after, changed.last(), m)
            }
    }
}

/// Whether `batch`, run as one transaction that ended in `outcome`, can have
/// turned `before` into `after`. Where it succeeded all of it ran, and where it
/// failed the tables are as they were.
pub open spec fn transacted(
    batch: Seq<StatementView>,
    outcome: Result<Seq<nat>, DatabaseErrorView>,
    before: Tables,
    after: Tables,
    m: Matching,
) -> bool {
    match outcome {
        Ok(changed) => runs(batch, before, after, changed, m),
        Err(_) => after == before,
    }
}

impl QueryView {
    /// Whether `answer`, row by row, can be the engine's answer on `tables`.
    pub open spec fn answered(
        self,
        tables: Tables,
        answer: Seq<Seq<Cell>>,
        m: Matching,
    ) -> bool {
        match self {
            QueryView::Select { table, columns, filter, order, limit } => exists|s: Seq<Row>|
                {
                    &&& #[trigger] arranged(selected(tables[table], filter, m), order, s)
                    &&& answer == projections(s.take(limited(limit, s.len()) as int), columns)
                },
            QueryView::Count { table, filter } => answer == seq![
                seq![Cell::Integer(selected(tables[table], filter, m).len() as int)],
            ],
            QueryView::Range { table, column, filter } => {
                let rows = present(selected(tables[table], filter, m), column);
                if rows.len() == 0 {
                    answer == seq![seq![Cell::Null, Cell::Null]]
                } else {
                    exists|i: int, j: int|
                        {
                            &&& 0 <= i < rows.len()
                            &&& 0 <= j < rows.len()
                            &&& answer == seq![
                                seq![(#[trigger] rows[i])[column], (#[trigger] rows[j])[column]],
                            ]
                            &&& forall|k: int|
                                0 <= k < rows.len() ==> !less(
                                    (#[trigger] rows[k])[column],
                                    rows[i][column],
                                ) && !less(rows[j][column], rows[k][column])
                        }
                }
            },
            QueryView::LatestPerGroup { table, column, filter, group, newest_by, limit } => {
                let rows = selected(tables[table], filter, m);
                exists|rn: Seq<int>, s: Seq<Row>|
                    {
                        &&& #[trigger] numbering(rows, group, newest_by, rn)
                        &&& #[trigger] arranged(
                            within(rows, rn, 1),
                            Order::Descending(newest_by),
                            s,
                        )
                        &&& answer == projections(
                            s.take(limited(Some(limit), s.len()) as int),
                            seq![column],
                        )
                    }
            },
            QueryView::Size { table } => exists|pages: Pages| #[trigger]
                size_answered(table, pages, answer),
        }
    }
}

/// The columns by which a table has at most one row.
pub open spec fn key_of(table: Table) -> Seq<Column> {
    match table {
        Table::Accounts => seq![Column::Host, Column::UserId],
        Table::ServerDetections => seq![Column::Host],
        Table::Notes => seq![Column::NoteId, Column::AccountId],
        Table::Summaries => seq![Column::Url],
        Table::Messages => seq![Column::MessageId, Column::AccountId],
    }
}

/// Whether no two rows agree on `key`.
pub open spec fn distinct(rows: Seq<Row>, key: Seq<Column>) -> bool {
    forall|i: int, j: int|
        0 <= i < j < rows.len() ==> !agree(#[trigger] rows[i], #[trigger] rows[j], key)
}

/// Whether every table has at most one row for each key.
pub open spec fn keyed(tables: Tables) -> bool {
    forall|table: Table| distinct(#[trigger] tables[table], key_of(table))
}

} // verus!
