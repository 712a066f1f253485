//! SQL as the engine reads it, and that each statement and query is sent as SQL
//! that means what it is meant to.
//!
//! A `Command` or a `Question` is SQL taken apart: `text` is how it is written,
//! and `does` or `gives` is what the engine does with it, for any values of the
//! placeholders.
use vstd::prelude::*;
use crate::laws::rows::{lemma_filter_same, lemma_overwritten, lemma_row_of};
use crate::laws::texts::{a_query_sends_its_values, a_statement_sends_its_values};
use crate::sql::{AssignmentView, ConditionView, Order, QueryView, SqlView, StatementView, Test};
use crate::tables::{
    agree, arranged, has_key, less, limited, meets, numbering, overwritten, present, projections,
    row_of, same, selected, size_answered, unselected, updated, upserted, within, Matching, Pages,
    Row, Tables,
};
use crate::text::decimal;
use crate::value::{Cell, Column, Table};

verus! {

/// Texts in a row, with `by` between one and the next.
pub open spec fn joined(parts: Seq<Seq<char>>, by: Seq<char>) -> Seq<char>
    decreases parts.len(),
{
    if parts.len() == 0 {
        Seq::empty()
    } else if parts.len() == 1 {
        parts[0]
    } else {
        joined(parts.drop_last(), by) + by + parts.last()
    }
}

/// The placeholder of a number.
pub open spec fn placeholder(place: nat) -> Seq<char> {
    "?"@ + decimal(place)
}

/// The value that stands in for the placeholder of a number. Placeholders are
/// numbered from one.
pub open spec fn value_at(params: Seq<Cell>, place: nat) -> Cell {
    params[place - 1]
}

/// The names of some columns.
pub open spec fn column_names(columns: Seq<Column>) -> Seq<Seq<char>> {
    columns.map_values(|c: Column| c.spec_name())
}

// ---- conditions ----

/// How SQL compares two values.
pub enum Comparison {
    Equal,
    Less,
    LessOrEqual,
    Greater,
    GreaterOrEqual,
    Like,
}

impl Comparison {
    /// The sign of the comparison.
    pub open spec fn sign(self) -> Seq<char> {
        match self {
            Comparison::Equal => " = "@,
            Comparison::Less => " < "@,
            Comparison::LessOrEqual => " <= "@,
            Comparison::Greater => " > "@,
            Comparison::GreaterOrEqual => " >= "@,
            Comparison::Like => " LIKE "@,
        }
    }

    /// Whether `a`, compared with `b`, is true.
    pub open spec fn compares(self, a: Cell, b: Cell, m: Matching) -> bool {
        match self {
            Comparison::Equal => same(a, b),
            Comparison::Less => less(a, b),
            Comparison::LessOrEqual => less(a, b) || same(a, b),
            Comparison::Greater => less(b, a),
            Comparison::GreaterOrEqual => less(b, a) || same(a, b),
            Comparison::Like => (m.like)(a, b),
        }
    }
}

/// A condition on a row, without parentheses.
pub enum Expression {
    /// A column compared with a placeholder.
    Compared { column: Column, comparison: Comparison, place: nat },
    /// That the full-text index of notes finds the row by a placeholder.
    Found { place: nat },
    And(Box<Expression>, Box<Expression>),
    Or(Box<Expression>, Box<Expression>),
}

impl Expression {
    /// How the condition is written.
    pub open spec fn text(self) -> Seq<char>
        decreases self,
    {
        match self {
            Expression::Compared { column, comparison, place } => column.spec_name()
                + comparison.sign() + placeholder(place),
            Expression::Found { place } =>
                "rowid IN (SELECT rowid FROM notes_fts WHERE notes_fts MATCH "@ + placeholder(place)
                + ")"@,
            Expression::And(a, b) => a.text() + " AND "@ + b.text(),
            Expression::Or(a, b) => a.text() + " OR "@ + b.text(),
        }
    }

    /// Whether this is how its text is read: AND binds tighter than OR, and each
    /// of them goes from left to right.
    pub open spec fn well_read(self) -> bool
        decreases self,
    {
        match self {
            Expression::And(a, b) => a.well_read() && b.well_read() && !(*a is Or) && !(*b is Or)
                && !(*b is And),
            Expression::Or(a, b) => a.well_read() && b.well_read() && !(*b is Or),
            _ => true,
        }
    }

    /// Whether the condition is true of a row.
    pub open spec fn holds(self, row: Row, params: Seq<Cell>, m: Matching) -> bool
        decreases self,
    {
        match self {
            Expression::Compared { column, comparison, place } => comparison.compares(
                row[column],
                value_at(params, place),
                m,
            ),
            Expression::Found { place } => (m.phrase)(row[Column::Text], value_at(params, place)),
            Expression::And(a, b) => a.holds(row, params, m) && b.holds(row, params, m),
            Expression::Or(a, b) => a.holds(row, params, m) || b.holds(row, params, m),
        }
    }
}

/// How a WHERE clause is written. Where there is no condition there is none.
pub open spec fn clause(condition: Option<Expression>) -> Seq<char> {
    match condition {
        Some(e) => " WHERE "@ + e.text(),
        None => Seq::empty(),
    }
}

/// Whether a WHERE clause takes a row. Where there is no condition every row is
/// taken.
pub open spec fn takes(
    condition: Option<Expression>,
    row: Row,
    params: Seq<Cell>,
    m: Matching,
) -> bool {
    match condition {
        Some(e) => e.holds(row, params, m),
        None => true,
    }
}

/// The rows that a WHERE clause takes.
pub open spec fn taken(
    rows: Seq<Row>,
    condition: Option<Expression>,
    params: Seq<Cell>,
    m: Matching,
) -> Seq<Row> {
    rows.filter(|row: Row| takes(condition, row, params, m))
}

/// Whether a condition is read as it stands.
pub open spec fn clause_well_read(condition: Option<Expression>) -> bool {
    match condition {
        Some(e) => e.well_read(),
        None => true,
    }
}

// ---- statements ----

/// What a column is set to.
pub enum Source {
    /// A column of the row that was to be added.
    Added(Column),
    /// A column of the row that is there.
    There(Column),
    /// A placeholder.
    Given(nat),
}

/// A column and what it is set to.
pub struct Setting {
    pub column: Column,
    pub source: Source,
}

impl Setting {
    /// How the setting is written.
    pub open spec fn text(self) -> Seq<char> {
        self.column.spec_name() + match self.source {
            Source::Added(c) => " = excluded."@ + c.spec_name(),
            Source::There(c) => " = "@ + c.spec_name(),
            Source::Given(place) => " = "@ + placeholder(place),
        }
    }

    /// What the column is set to, where `there` is the row that is there and
    /// `added` the one that was to be added.
    pub open spec fn value(self, there: Row, added: Row, params: Seq<Cell>) -> Cell {
        match self.source {
            Source::Added(c) => added[c],
            Source::There(c) => there[c],
            Source::Given(place) => value_at(params, place),
        }
    }
}

/// How settings are written.
pub open spec fn setting_texts(settings: Seq<Setting>) -> Seq<Seq<char>> {
    settings.map_values(|s: Setting| s.text())
}

/// Whether `new` is `there` with its columns set.
pub open spec fn is_set(
    new: Row,
    there: Row,
    added: Row,
    settings: Seq<Setting>,
    params: Seq<Cell>,
) -> bool {
    &&& forall|c: Column| #[trigger]
        new.dom().contains(c) <==> there.dom().contains(c) || exists|i: int|
            0 <= i < settings.len() && (#[trigger] settings[i]).column == c
    &&& forall|i: int|
        0 <= i < settings.len() ==> new[(#[trigger] settings[i]).column] == settings[i].value(
            there,
            added,
            params,
        )
    &&& forall|c: Column|
        (forall|i: int| 0 <= i < settings.len() ==> (#[trigger] settings[i]).column != c)
            ==> #[trigger] new[c] == there[c]
}

/// The row that an INSERT is to add.
pub open spec fn row_to_add(columns: Seq<Column>, places: Seq<nat>, params: Seq<Cell>) -> Row {
    Map::new(
        |c: Column| columns.contains(c),
        |c: Column| value_at(params, places[columns.index_of(c)]),
    )
}

/// Whether two rows hold the same in every one of some columns.
pub open spec fn conflicting(a: Row, b: Row, columns: Seq<Column>) -> bool {
    forall|c: Column| #[trigger] columns.contains(c) ==> a[c] == b[c]
}

/// SQL that changes rows, taken apart.
pub enum Command {
    /// `INSERT .. VALUES .. ON CONFLICT .. DO UPDATE SET ..`
    Insert {
        table: Table,
        columns: Seq<Column>,
        places: Seq<nat>,
        conflict: Seq<Column>,
        settings: Seq<Setting>,
    },
    /// `UPDATE .. SET .. WHERE ..`
    Update { table: Table, settings: Seq<Setting>, condition: Option<Expression> },
    /// `DELETE FROM .. WHERE ..`
    Delete { table: Table, condition: Option<Expression> },
    /// `DELETE FROM ..` for the rows whose number within their group, newest
    /// first, is greater than a placeholder.
    DeleteNumbered { table: Table, group: Column, newest_by: Column, place: nat },
}

/// How rows are numbered within their group, newest first.
pub open spec fn numbered(
    table: Table,
    group: Column,
    newest_by: Column,
    condition: Option<Expression>,
) -> Seq<char> {
    " WHERE rowid IN (SELECT rowid FROM (SELECT rowid, "@ + "ROW_NUMBER() OVER (PARTITION BY "@
        + group.spec_name() + " ORDER BY "@ + newest_by.spec_name() + " DESC) AS rn FROM "@
        + table.spec_name() + clause(condition) + ")"@
}

impl Command {
    /// How the command is written.
    pub open spec fn text(self) -> Seq<char> {
        match self {
            Command::Insert { table, columns, places, conflict, settings } => "INSERT INTO "@
                + table.spec_name() + " ("@ + joined(column_names(columns), ", "@) + ") VALUES ("@
                + joined(places.map_values(|p: nat| placeholder(p)), ", "@) + ") ON CONFLICT("@
                + joined(column_names(conflict), ", "@) + ") DO UPDATE SET "@ + joined(
                setting_texts(settings),
                ", "@,
            ),
            Command::Update { table, settings, condition } => "UPDATE "@ + table.spec_name()
                + " SET "@ + joined(setting_texts(settings), ", "@) + clause(condition),
            Command::Delete { table, condition } => "DELETE FROM "@ + table.spec_name() + clause(
                condition,
            ),
            Command::DeleteNumbered { table, group, newest_by, place } => "DELETE FROM "@
                + table.spec_name() + numbered(table, group, newest_by, None) + " WHERE rn > "@
                + placeholder(place) + ")"@,
        }
    }

    /// Whether this is how its text is read.
    pub open spec fn well_read(self) -> bool {
        match self {
            Command::Insert { columns, places, conflict, settings, .. } => {
                &&& columns.len() > 0
                &&& columns.no_duplicates()
                &&& places.len() == columns.len()
                &&& conflict.len() > 0
                &&& settings.len() > 0
            },
            Command::Update { settings, condition, .. } => settings.len() > 0 && clause_well_read(
                condition,
            ),
            Command::Delete { condition, .. } => clause_well_read(condition),
            Command::DeleteNumbered { .. } => true,
        }
    }

    /// The table that the command changes.
    pub open spec fn table(self) -> Table {
        match self {
            Command::Insert { table, .. } => table,
            Command::Update { table, .. } => table,
            Command::Delete { table, .. } => table,
            Command::DeleteNumbered { table, .. } => table,
        }
    }

    /// Whether the command can turn the rows `before` of its table into `after`
    /// and report `changed` rows.
    pub open spec fn changes(
        self,
        params: Seq<Cell>,
        before: Seq<Row>,
        after: Seq<Row>,
        changed: nat,
        m: Matching,
    ) -> bool {
        match self {
            Command::Insert { columns, places, conflict, settings, .. } => {
                let new = row_to_add(columns, places, params);
                &&& changed == 1
                &&& if exists|i: int|
                    0 <= i < before.len() && conflicting(#[trigger] before[i], new, conflict) {
                    &&& after.len() == before.len()
                    &&& forall|i: int|
                        0 <= i < before.len() ==> if conflicting(
                            #[trigger] before[i],
                            new,
                            conflict,
                        ) {
                            is_set(after[i], before[i], new, settings, params)
                        } else {
                            after[i] == before[i]
                        }
                } else {
                    after == before.push(new)
                }
            },
            Command::Update { settings, condition, .. } => {
                &&& changed == taken(before, condition, params, m).len()
                &&& after.len() == before.len()
                &&& forall|i: int|
                    0 <= i < before.len() ==> if takes(
                        condition,
                        #[trigger] before[i],
                        params,
                        m,
                    ) {
                        is_set(after[i], before[i], Map::empty(), settings, params)
                    } else {
                        after[i] == before[i]
                    }
            },
            Command::Delete { condition, .. } => {
                &&& changed == taken(before, condition, params, m).len()
                &&& after == before.filter(|row: Row| !takes(condition, row, params, m))
            },
            Command::DeleteNumbered { group, newest_by, place, .. } => exists|rn: Seq<int>|
                {
                    &&& #[trigger] numbering(before, group, newest_by, rn)
                    &&& after == within(before, rn, value_at(params, place)->Integer_0)
                    &&& changed == before.len() - after.len()
                },
        }
    }

    /// Whether the command can turn the tables `before` into `after` and report
    /// `changed` rows.
    pub open spec fn does(
        self,
        params: Seq<Cell>,
        before: Tables,
        after: Tables,
        changed: nat,
        m: Matching,
    ) -> bool {
        &&& after == before.insert(self.table(), after[self.table()])
        &&& self.changes(params, before[self.table()], after[self.table()], changed, m)
    }
}

// ---- queries ----

/// SQL that asks for rows, taken apart.
pub enum Question {
    /// `SELECT columns FROM .. WHERE .. ORDER BY .. LIMIT ..`
    Rows {
        table: Table,
        columns: Seq<Column>,
        condition: Option<Expression>,
        order: Order,
        limit: Option<nat>,
    },
    /// `SELECT COUNT(*) FROM .. WHERE ..`
    Count { table: Table, condition: Option<Expression> },
    /// `SELECT MIN(column), MAX(column) FROM .. WHERE ..`
    Ends { table: Table, column: Column, condition: Option<Expression> },
    /// `SELECT column FROM ..` for the rows that are first in their group, newest
    /// first.
    Newest {
        table: Table,
        column: Column,
        condition: Option<Expression>,
        group: Column,
        newest_by: Column,
        limit: nat,
    },
    /// The bytes of the pages of a table.
    Bytes { place: nat },
}

/// How an ORDER BY clause is written.
pub open spec fn order_clause(order: Order) -> Seq<char> {
    match order {
        Order::Unordered => Seq::empty(),
        Order::Written => " ORDER BY rowid"@,
        Order::Ascending(c) => " ORDER BY "@ + c.spec_name() + " ASC"@,
        Order::Descending(c) => " ORDER BY "@ + c.spec_name() + " DESC"@,
    }
}

impl Question {
    /// How the question is written.
    pub open spec fn text(self) -> Seq<char> {
        match self {
            Question::Rows { table, columns, condition, order, limit } => "SELECT "@ + joined(
                column_names(columns),
                ", "@,
            ) + " FROM "@ + table.spec_name() + clause(condition) + order_clause(order)
                + match limit {
                Some(place) => " LIMIT "@ + placeholder(place),
                None => Seq::empty(),
            },
            Question::Count { table, condition } => "SELECT COUNT(*) FROM "@ + table.spec_name()
                + clause(condition),
            Question::Ends { table, column, condition } => "SELECT MIN("@ + column.spec_name()
                + "), MAX("@ + column.spec_name() + ") FROM "@ + table.spec_name() + clause(
                condition,
            ),
            Question::Newest { table, column, condition, group, newest_by, limit } => "SELECT "@
                + column.spec_name() + " FROM "@ + table.spec_name() + numbered(
                table,
                group,
                newest_by,
                condition,
            ) + " WHERE rn = 1)"@ + " ORDER BY "@ + newest_by.spec_name() + " DESC"@ + " LIMIT "@
                + placeholder(limit),
            Question::Bytes { place } =>
                "SELECT COALESCE(SUM(pgsize), 0) FROM dbstat WHERE name = "@ + placeholder(place),
        }
    }

    /// Whether this is how its text is read.
    pub open spec fn well_read(self) -> bool {
        match self {
            Question::Rows { columns, condition, .. } => columns.len() > 0 && clause_well_read(
                condition,
            ),
            Question::Count { condition, .. } => clause_well_read(condition),
            Question::Ends { condition, .. } => clause_well_read(condition),
            Question::Newest { condition, .. } => clause_well_read(condition),
            Question::Bytes { .. } => true,
        }
    }

    /// Whether `answer`, row by row, can be the engine's answer on `tables`.
    pub open spec fn gives(
        self,
        params: Seq<Cell>,
        tables: Tables,
        answer: Seq<Seq<Cell>>,
        m: Matching,
    ) -> bool {
        match self {
            Question::Rows { table, columns, condition, order, limit } => exists|s: Seq<Row>|
                {
                    &&& #[trigger] arranged(taken(tables[table], condition, params, m), order, s)
                    &&& answer == projections(
                        s.take(
                            limited(
                                match limit {
                                    Some(place) => Some(value_at(params, place)->Integer_0),
                                    None => None,
                                },
                                s.len(),
                            ) as int,
                        ),
                        columns,
                    )
                },
            Question::Count { table, condition } => answer == seq![
                seq![Cell::Integer(taken(tables[table], condition, params, m).len() as int)],
            ],
            Question::Ends { table, column, condition } => {
                let rows = present(taken(tables[table], condition, params, m), column);
                if rows.len() == 0 {
                    answer == seq![seq![Cell::Null, Cell::Null]]
                } else {
                    exists|i: int, j: int|
                        {
                            &&& 0 <= i < rows.len()
                            &&& 0 <= j < rows.len()
                            &&& answer == seq![
                                seq![(#[trigger] rows[i])[column], (#[trigger] rows[j])[column]],
                            ]
                            &&& forall|k: int|
                                0 <= k < rows.len() ==> !less(
                                    (#[trigger] rows[k])[column],
                                    rows[i][column],
                                ) && !less(rows[j][column], rows[k][column])
                        }
                }
            },
            Question::Newest { table, column, condition, group, newest_by, limit } => {
                let rows = taken(tables[table], condition, params, m);
                exists|rn: Seq<int>, s: Seq<Row>|
                    {
                        &&& #[trigger] numbering(rows, group, newest_by, rn)
                        &&& #[trigger] arranged(
                            within(rows, rn, 1),
                            Order::Descending(newest_by),
                            s,
                        )
                        &&& answer == projections(
                            s.take(
                                limited(
                                    Some(value_at(params, limit)->Integer_0),
                                    s.len(),
                                ) as int,
                            ),
                            seq![column],
                        )
                    }
            },
            Question::Bytes { place } => exists|table: Table, pages: Pages|
                {
                    &&& value_at(params, place) == Cell::Text(table.spec_name())
                    &&& #[trigger] size_answered(table, pages, answer)
                },
        }
    }
}

// ---- what is sent, read ----

/// The comparison that a test asks for.
spec fn comparison_of(test: Test) -> Comparison {
    match test {
        Test::Equal => Comparison::Equal,
        Test::Less => Comparison::Less,
        Test::AtMost => Comparison::LessOrEqual,
        Test::Greater => Comparison::Greater,
        Test::AtLeast => Comparison::GreaterOrEqual,
        Test::Like => Comparison::Like,
        Test::Match => Comparison::Like,
    }
}

spec fn term_of(c: ConditionView, place: nat) -> Expression {
    if c.test == Test::Match {
        Expression::Found { place }
    } else {
        Expression::Compared { column: c.column, comparison: comparison_of(c.test), place }
    }
}

spec fn conjunction(filter: Seq<ConditionView>, first: nat) -> Expression
    decreases filter.len(),
{
    if filter.len() <= 1 {
        term_of(filter[0], first)
    } else {
        Expression::And(
            Box::new(conjunction(filter.drop_last(), first)),
            Box::new(term_of(filter.last(), (first + filter.len() - 1) as nat)),
        )
    }
}

spec fn condition_of(filter: Seq<ConditionView>, first: nat) -> Option<Expression> {
    if filter.len() == 0 {
        None
    } else {
        Some(conjunction(filter, first))
    }
}

/// Whether the engine can be asked for the conditions: it finds notes by their
/// text alone.
pub open spec fn askable(filter: Seq<ConditionView>) -> bool {
    forall|i: int|
        0 <= i < filter.len() && (#[trigger] filter[i]).test == Test::Match ==> filter[i].column
            == Column::Text
}

proof fn lemma_joined(parts: Seq<Seq<char>>, last: Seq<char>, by: Seq<char>)
    ensures
        joined(parts.push(last), by) == if parts.len() == 0 {
            last
        } else {
            joined(parts, by) + by + last
        },
{
    assert(parts.push(last).drop_last() =~= parts);
}

proof fn lemma_together(a: Seq<char>, b: Seq<char>, c: Seq<char>)
    ensures
        a + b + c == a + (b + c),
{
    assert(a + b + c =~= a + (b + c));
}

proof fn lemma_behind(a: Seq<char>)
    ensures
        a + Seq::<char>::empty() == a,
        Seq::<char>::empty() + a == a,
{
    assert(a + Seq::<char>::empty() =~= a);
    assert(Seq::<char>::empty() + a =~= a);
}

proof fn lemma_match_sign()
    ensures
        "rowid IN (SELECT rowid FROM notes_fts WHERE notes_fts MATCH "@
            == "rowid IN (SELECT rowid FROM notes_fts WHERE notes_fts"@ + " MATCH "@,
{
    reveal_strlit("rowid IN (SELECT rowid FROM notes_fts WHERE notes_fts");
    reveal_strlit(" MATCH ");
    reveal_strlit("rowid IN (SELECT rowid FROM notes_fts WHERE notes_fts MATCH ");
    assert("rowid IN (SELECT rowid FROM notes_fts WHERE notes_fts MATCH "@
        =~= "rowid IN (SELECT rowid FROM notes_fts WHERE notes_fts"@ + " MATCH "@);
}

proof fn lemma_term(s: SqlView, c: ConditionView)
    ensures
        s.condition(c).text == s.text + term_of(c, s.params.len() + 1).text(),
        s.condition(c).params == s.params.push(c.value),
{
    let place = s.params.len() + 1;
    let mark = "?"@;
    let number = decimal(place);
    if c.test == Test::Match {
        let a = "rowid IN (SELECT rowid FROM notes_fts WHERE notes_fts"@;
        let b = " MATCH "@;
        lemma_match_sign();
        lemma_together(s.text, a, b);
        lemma_together(s.text + (a + b), mark, number);
        lemma_together(s.text, a + b, mark + number);
        lemma_together(s.text, a + b + (mark + number), ")"@);
    } else {
        let name = c.column.spec_name();
        let sign = c.test.spec_operator();
        assert(comparison_of(c.test).sign() == sign);
        lemma_together(s.text, name, sign);
        lemma_together(s.text + (name + sign), mark, number);
        lemma_together(s.text, name + sign, mark + number);
    }
}

proof fn lemma_conditions_read(s: SqlView, filter: Seq<ConditionView>)
    ensures
        s.conditions(filter).text == s.text + clause(condition_of(filter, s.params.len() + 1)),
        s.conditions(filter).params == s.params + filter.map_values(|c: ConditionView| c.value),
    decreases filter.len(),
{
    let f = |c: ConditionView| c.value;
    if filter.len() == 0 {
        lemma_behind(s.text);
    } else {
        let rest = filter.drop_last();
        let first = s.params.len() + 1;
        lemma_conditions_read(s, rest);
        let head = s.conditions(rest);
        let last = filter.last();
        let place = (first + filter.len() - 1) as nat;
        let term = term_of(last, place).text();
        if filter.len() > 1 {
            let before = conjunction(rest, first).text();
            lemma_term(head.lit(" AND "@), last);
            lemma_together(s.text, " WHERE "@ + before, " AND "@);
            lemma_together(s.text, " WHERE "@ + before + " AND "@, term);
            lemma_together(" WHERE "@, before, " AND "@);
            lemma_together(" WHERE "@, before + " AND "@, term);
            assert(conjunction(filter, first).text() == before + " AND "@ + term);
        } else {
            lemma_behind(s.text);
            lemma_term(head.lit(" WHERE "@), last);
            lemma_together(s.text, " WHERE "@, term);
        }
        assert(rest.map_values(f).push(f(last)) =~= filter.map_values(f));
    }
    assert(s.conditions(filter).params =~= s.params + filter.map_values(f));
}

proof fn lemma_conjunction(
    filter: Seq<ConditionView>,
    first: nat,
    params: Seq<Cell>,
    row: Row,
    m: Matching,
)
    requires
        filter.len() > 0,
        first > 0,
        askable(filter),
        forall|i: int|
            0 <= i < filter.len() ==> params[first - 1 + i] == (#[trigger] filter[i]).value,
    ensures
        conjunction(filter, first).well_read(),
        !(conjunction(filter, first) is Or),
        conjunction(filter, first).holds(row, params, m) <==> meets(row, filter, m),
    decreases filter.len(),
{
    let n = filter.len() as int;
    assert(params[first - 1 + (n - 1)] == filter[n - 1].value);
    assert(filter.last().test == Test::Match ==> filter[n - 1].column == Column::Text);
    let last = term_of(filter.last(), (first + n - 1) as nat);
    assert(last.holds(row, params, m) <==> filter[n - 1].holds(row, m));
    assert(last.well_read() && !(last is And) && !(last is Or));
    if n > 1 {
        let rest = filter.drop_last();
        assert forall|i: int| 0 <= i < rest.len() implies params[first - 1 + i] == (
        #[trigger] rest[i]).value by {
            assert(params[first - 1 + i] == filter[i].value);
        }
        assert(askable(rest)) by {
            assert forall|i: int| 0 <= i < rest.len() && (#[trigger] rest[i]).test
                == Test::Match implies rest[i].column == Column::Text by {
                assert(filter[i].test == Test::Match);
            }
        }
        lemma_conjunction(rest, first, params, row, m);
        if meets(row, rest, m) && filter[n - 1].holds(row, m) {
            assert forall|i: int| 0 <= i < n implies (#[trigger] filter[i]).holds(row, m) by {
                if i < n - 1 {
                    assert(rest[i].holds(row, m));
                }
            }
        }
        if meets(row, filter, m) {
            assert forall|i: int| 0 <= i < rest.len() implies (#[trigger] rest[i]).holds(
                row,
                m,
            ) by {
                assert(filter[i].holds(row, m));
            }
        }
    } else {
        assert(filter.last() == filter[0]);
        if meets(row, filter, m) {
            assert(filter[0].holds(row, m));
        }
    }
}

/// Whether the values of `filter` stand in for the placeholders from `first` on.
spec fn given(filter: Seq<ConditionView>, first: nat, params: Seq<Cell>) -> bool {
    &&& first > 0
    &&& askable(filter)
    &&& forall|i: int|
        0 <= i < filter.len() ==> params[first - 1 + i] == (#[trigger] filter[i]).value
}

proof fn lemma_takes(
    filter: Seq<ConditionView>,
    first: nat,
    params: Seq<Cell>,
    m: Matching,
)
    requires
        given(filter, first, params),
    ensures
        clause_well_read(condition_of(filter, first)),
        forall|row: Row| #[trigger]
            takes(condition_of(filter, first), row, params, m) <==> meets(row, filter, m),
{
    assert forall|row: Row| #[trigger]
        takes(condition_of(filter, first), row, params, m) <==> meets(row, filter, m) by {
        if filter.len() > 0 {
            lemma_conjunction(filter, first, params, row, m);
        }
    }
    if filter.len() > 0 {
        lemma_conjunction(filter, first, params, Map::empty(), m);
    }
}

proof fn lemma_taken(
    rows: Seq<Row>,
    filter: Seq<ConditionView>,
    first: nat,
    params: Seq<Cell>,
    m: Matching,
)
    requires
        given(filter, first, params),
    ensures
        clause_well_read(condition_of(filter, first)),
        taken(rows, condition_of(filter, first), params, m) == selected(rows, filter, m),
        rows.filter(|row: Row| !takes(condition_of(filter, first), row, params, m)) == unselected(
            rows,
            filter,
            m,
        ),
{
    let condition = condition_of(filter, first);
    lemma_takes(filter, first, params, m);
    lemma_filter_same(
        rows,
        |row: Row| takes(condition, row, params, m),
        |row: Row| meets(row, filter, m),
    );
    lemma_filter_same(
        rows,
        |row: Row| !takes(condition, row, params, m),
        |row: Row| !meets(row, filter, m),
    );
}

proof fn lemma_names_read(s: SqlView, columns: Seq<Column>)
    ensures
        s.names(columns).text == s.text + joined(column_names(columns), ", "@),
        s.names(columns).params == s.params,
    decreases columns.len(),
{
    if columns.len() == 0 {
        lemma_behind(s.text);
    } else {
        let rest = columns.drop_last();
        let last = columns.last().spec_name();
        lemma_names_read(s, rest);
        lemma_joined(column_names(rest), last, ", "@);
        assert(column_names(rest).push(last) =~= column_names(columns));
        if columns.len() > 1 {
            let before = joined(column_names(rest), ", "@);
            lemma_together(s.text, before, ", "@);
            lemma_together(s.text, before + ", "@, last);
        } else {
            lemma_behind(s.text);
        }
    }
}

/// The columns that values are assigned to.
pub open spec fn columns_of(values: Seq<AssignmentView>) -> Seq<Column> {
    values.map_values(|a: AssignmentView| a.column)
}

proof fn lemma_assigned_names_read(s: SqlView, values: Seq<AssignmentView>)
    ensures
        s.assigned_names(values).text == s.text + joined(column_names(columns_of(values)), ", "@),
        s.assigned_names(values).params == s.params,
    decreases values.len(),
{
    let names = column_names(columns_of(values));
    if values.len() == 0 {
        lemma_behind(s.text);
    } else {
        let rest = values.drop_last();
        let before = column_names(columns_of(rest));
        let last = values.last().column.spec_name();
        lemma_assigned_names_read(s, rest);
        lemma_joined(before, last, ", "@);
        assert(before.push(last) =~= names);
        if values.len() > 1 {
            lemma_together(s.text, joined(before, ", "@), ", "@);
            lemma_together(s.text, joined(before, ", "@) + ", "@, last);
        } else {
            lemma_behind(s.text);
        }
    }
}

/// The first `n` placeholders.
spec fn places(n: nat) -> Seq<nat> {
    Seq::new(n, |i: int| (i + 1) as nat)
}

proof fn lemma_assigned_values_read(s: SqlView, values: Seq<AssignmentView>)
    requires
        s.params.len() == 0,
    ensures
        s.assigned_values(values).text == s.text + joined(
            places(values.len()).map_values(|p: nat| placeholder(p)),
            ", "@,
        ),
        s.assigned_values(values).params == values.map_values(|a: AssignmentView| a.value),
    decreases values.len(),
{
    let f = |p: nat| placeholder(p);
    let all = places(values.len()).map_values(f);
    if values.len() == 0 {
        lemma_behind(s.text);
    } else {
        let rest = values.drop_last();
        let before = places(rest.len()).map_values(f);
        let last = placeholder(values.len());
        lemma_assigned_values_read(s, rest);
        lemma_joined(before, last, ", "@);
        assert(before.push(last) =~= all);
        if values.len() > 1 {
            lemma_together(s.text, joined(before, ", "@), ", "@);
            lemma_together(
                s.text + (joined(before, ", "@) + ", "@),
                "?"@,
                decimal(values.len()),
            );
            lemma_together(s.text, joined(before, ", "@) + ", "@, last);
        } else {
            lemma_behind(s.text);
            lemma_together(s.text, "?"@, decimal(values.len()));
        }
    }
    assert(s.assigned_values(values).params =~= values.map_values(|a: AssignmentView| a.value));
}

/// The settings that take each of some columns from the row that was to be added.
spec fn taken_over(columns: Seq<Column>) -> Seq<Setting> {
    columns.map_values(|c: Column| Setting { column: c, source: Source::Added(c) })
}

proof fn lemma_excluded_read(s: SqlView, columns: Seq<Column>)
    ensures
        s.excluded(columns).text == s.text + joined(setting_texts(taken_over(columns)), ", "@),
        s.excluded(columns).params == s.params,
    decreases columns.len(),
{
    let all = setting_texts(taken_over(columns));
    if columns.len() == 0 {
        lemma_behind(s.text);
    } else {
        let rest = columns.drop_last();
        let before = setting_texts(taken_over(rest));
        let name = columns.last().spec_name();
        let last = name + (" = excluded."@ + name);
        lemma_excluded_read(s, rest);
        lemma_joined(before, last, ", "@);
        assert(before.push(last) =~= all);
        if columns.len() > 1 {
            let list = joined(before, ", "@) + ", "@;
            lemma_together(s.text, joined(before, ", "@), ", "@);
            lemma_together(s.text + list + name, " = excluded."@, name);
            lemma_together(s.text + list, name, " = excluded."@ + name);
            lemma_together(s.text, list, last);
        } else {
            lemma_behind(s.text);
            lemma_together(s.text + name, " = excluded."@, name);
            lemma_together(s.text, name, " = excluded."@ + name);
        }
    }
}

/// Whether a statement can be sent: it writes something, no column twice, and
/// asks for what the engine can be asked for.
pub open spec fn sendable(statement: StatementView) -> bool {
    match statement {
        StatementView::Upsert { values, key, update, .. } => {
            &&& values.len() > 0
            &&& columns_of(values).no_duplicates()
            &&& key.len() > 0
            &&& update.len() > 0
        },
        StatementView::Update { filter, .. } => askable(filter),
        StatementView::Delete { filter, .. } => askable(filter),
        StatementView::DeleteBeyond { .. } => true,
    }
}

/// The command that a statement is sent as.
spec fn command_of(statement: StatementView) -> Command {
    match statement {
        StatementView::Upsert { table, values, key, update } => Command::Insert {
            table,
            columns: columns_of(values),
            places: places(values.len()),
            conflict: key,
            settings: taken_over(update),
        },
        StatementView::Update { table, change, filter } => Command::Update {
            table,
            settings: seq![Setting { column: change.column, source: Source::Given(1) }],
            condition: condition_of(filter, 2),
        },
        StatementView::Delete { table, filter } => Command::Delete {
            table,
            condition: condition_of(filter, 1),
        },
        StatementView::DeleteBeyond { table, group, newest_by, .. } => Command::DeleteNumbered {
            table,
            group,
            newest_by,
            place: 1,
        },
    }
}

proof fn lemma_numbered_read(
    s: SqlView,
    table: Table,
    filter: Seq<ConditionView>,
    group: Column,
    newest_by: Column,
)
    ensures
        s.numbered_rows(table, filter, group, newest_by).text == s.text + numbered(
            table,
            group,
            newest_by,
            condition_of(filter, s.params.len() + 1),
        ),
        s.numbered_rows(table, filter, group, newest_by).params == s.params + filter.map_values(
            |c: ConditionView| c.value,
        ),
{
    let a = " WHERE rowid IN (SELECT rowid FROM (SELECT rowid, "@;
    let b = "ROW_NUMBER() OVER (PARTITION BY "@;
    let head = s.lit(a).lit(b).lit(group.spec_name()).lit(" ORDER BY "@).lit(
        newest_by.spec_name(),
    ).lit(" DESC) AS rn FROM "@).lit(table.spec_name());
    lemma_conditions_read(head, filter);
    let c = a + b;
    let d = c + group.spec_name();
    let e = d + " ORDER BY "@;
    let f = e + newest_by.spec_name();
    let g = f + " DESC) AS rn FROM "@;
    let inner = g + table.spec_name();
    lemma_together(s.text, a, b);
    lemma_together(s.text, c, group.spec_name());
    lemma_together(s.text, d, " ORDER BY "@);
    lemma_together(s.text, e, newest_by.spec_name());
    lemma_together(s.text, f, " DESC) AS rn FROM "@);
    lemma_together(s.text, g, table.spec_name());
    assert(head.text == s.text + inner);
    let condition = condition_of(filter, s.params.len() + 1);
    lemma_together(s.text, inner, clause(condition));
    lemma_together(s.text, inner + clause(condition), ")"@);
}

proof fn lemma_statement_text(statement: StatementView)
    ensures
        command_of(statement).text() == statement.sql().text,
{
    let s = SqlView::empty();
    match statement {
        StatementView::Upsert { table, values, key, update } => {
            let a = s.lit("INSERT INTO "@);
            lemma_behind("INSERT INTO "@);
            let b = a.lit(table.spec_name()).lit(" ("@);
            lemma_assigned_names_read(b, values);
            let c = b.assigned_names(values).lit(") VALUES ("@);
            lemma_assigned_values_read(c, values);
            let d = c.assigned_values(values).lit(") ON CONFLICT("@);
            lemma_names_read(d, key);
            let e = d.names(key).lit(") DO UPDATE SET "@);
            lemma_excluded_read(e, update);
        },
        StatementView::Update { table, change, filter } => {
            let a = s.lit("UPDATE "@);
            lemma_behind("UPDATE "@);
            let b = a.lit(table.spec_name()).lit(" SET "@);
            let c = b.lit(change.column.spec_name()).lit(" = "@).param(change.value);
            lemma_conditions_read(c, filter);
            let setting = Setting { column: change.column, source: Source::Given(1) };
            assert(setting_texts(seq![setting]) =~= seq![setting.text()]);
            let name = change.column.spec_name();
            lemma_together(b.text + name + " = "@, "?"@, decimal(1));
            lemma_together(b.text + name, " = "@, placeholder(1));
            lemma_together(b.text, name, " = "@ + placeholder(1));
            assert(c.text == b.text + setting.text());
        },
        StatementView::Delete { table, filter } => {
            let a = s.lit("DELETE FROM "@);
            lemma_behind("DELETE FROM "@);
            lemma_conditions_read(a.lit(table.spec_name()), filter);
        },
        StatementView::DeleteBeyond { table, group, newest_by, keep } => {
            let a = s.lit("DELETE FROM "@);
            lemma_behind("DELETE FROM "@);
            let b = a.lit(table.spec_name());
            lemma_numbered_read(b, table, Seq::empty(), group, newest_by);
            let c = b.numbered_rows(table, Seq::empty(), group, newest_by).lit(" WHERE rn > "@);
            assert(c.params.len() == 0);
            lemma_together(c.text, "?"@, decimal(1));
        },
    }
}

proof fn lemma_row_to_add(values: Seq<AssignmentView>, params: Seq<Cell>)
    requires
        columns_of(values).no_duplicates(),
        params == values.map_values(|a: AssignmentView| a.value),
    ensures
        row_to_add(columns_of(values), places(values.len()), params) == row_of(values),
{
    let columns = columns_of(values);
    let new = row_to_add(columns, places(values.len()), params);
    assert forall|i: int, j: int| 0 <= i < j < values.len() implies (
    #[trigger] values[i]).column != (#[trigger] values[j]).column by {
        assert(columns[i] != columns[j]);
    }
    lemma_row_of(values);
    lemma_row_domain(values);
    assert forall|c: Column| #[trigger] columns.contains(c) implies new[c] == row_of(values)[c] by {
        let i = columns.index_of(c);
        assert(columns[i] == c);
        assert(values[i].column == c);
        assert(params[i] == values[i].value);
    }
    assert(new =~= row_of(values));
}

proof fn lemma_row_domain(values: Seq<AssignmentView>)
    ensures
        forall|c: Column| #[trigger]
            row_of(values).dom().contains(c) <==> columns_of(values).contains(c),
    decreases values.len(),
{
    let columns = columns_of(values);
    if values.len() > 0 {
        let rest = values.drop_last();
        lemma_row_domain(rest);
        assert(columns_of(rest).push(values.last().column) =~= columns);
        assert forall|c: Column| #[trigger]
            row_of(values).dom().contains(c) <==> columns.contains(c) by {
            assert(row_of(rest).dom().contains(c) <==> columns_of(rest).contains(c));
            if columns_of(rest).contains(c) {
                let i = choose|i: int| 0 <= i < columns_of(rest).len() && columns_of(rest)[i] == c;
                assert(columns[i] == c);
            }
            if c == values.last().column {
                assert(columns[columns.len() - 1] == c);
            }
            if columns.contains(c) && c != values.last().column {
                let i = choose|i: int| 0 <= i < columns.len() && columns[i] == c;
                assert(columns_of(rest)[i] == c);
            }
        }
    }
}

proof fn lemma_overwritten_domain(row: Row, new: Row, columns: Seq<Column>)
    ensures
        forall|c: Column| #[trigger]
            overwritten(row, new, columns).dom().contains(c) <==> row.dom().contains(c)
                || columns.contains(c),
    decreases columns.len(),
{
    if columns.len() > 0 {
        let rest = columns.drop_last();
        lemma_overwritten_domain(row, new, rest);
        assert forall|c: Column| #[trigger]
            overwritten(row, new, columns).dom().contains(c) <==> row.dom().contains(c)
                || columns.contains(c) by {
            assert(overwritten(row, new, rest).dom().contains(c) <==> row.dom().contains(c)
                || rest.contains(c));
            if rest.contains(c) {
                let i = choose|i: int| 0 <= i < rest.len() && rest[i] == c;
                assert(columns[i] == c);
            }
            if c == columns.last() {
                assert(columns[columns.len() - 1] == c);
            }
            if columns.contains(c) && c != columns.last() {
                let i = choose|i: int| 0 <= i < columns.len() && columns[i] == c;
                assert(rest[i] == c);
            }
        }
    }
}

/// Setting columns is overwriting them, and nothing else is.
proof fn lemma_set(row: Row, new: Row, columns: Seq<Column>, set: Row, params: Seq<Cell>)
    ensures
        is_set(set, row, new, taken_over(columns), params) <==> set == overwritten(
            row,
            new,
            columns,
        ),
{
    let settings = taken_over(columns);
    let wanted = overwritten(row, new, columns);
    lemma_overwritten_domain(row, new, columns);
    assert forall|c: Column| #![trigger wanted[c]]
        wanted[c] == if columns.contains(c) {
            new[c]
        } else {
            row[c]
        } by {
        lemma_overwritten(row, new, columns, c);
    }
    assert forall|c: Column| #[trigger] columns.contains(c) <==> exists|i: int|
        0 <= i < settings.len() && (#[trigger] settings[i]).column == c by {
        if columns.contains(c) {
            let i = choose|i: int| 0 <= i < columns.len() && columns[i] == c;
            assert(settings[i].column == c);
        }
        if exists|i: int| 0 <= i < settings.len() && (#[trigger] settings[i]).column == c {
            let i = choose|i: int| 0 <= i < settings.len() && (#[trigger] settings[i]).column == c;
            assert(columns[i] == c);
        }
    }
    if is_set(set, row, new, settings, params) {
        assert forall|c: Column| #![trigger set[c]] set[c] == wanted[c] by {
            if columns.contains(c) {
                let i = choose|i: int|
                    0 <= i < settings.len() && (#[trigger] settings[i]).column == c;
                assert(set[settings[i].column] == settings[i].value(row, new, params));
            }
        }
        assert forall|c: Column| #[trigger] set.dom().contains(c) <==> wanted.dom().contains(c) by {
            assert(columns.contains(c) <==> exists|i: int|
                0 <= i < settings.len() && (#[trigger] settings[i]).column == c);
        }
        assert(set =~= wanted);
    }
    if set == wanted {
        assert forall|i: int| 0 <= i < settings.len() implies set[(
        #[trigger] settings[i]).column] == settings[i].value(row, new, params) by {
            assert(columns[i] == settings[i].column);
            assert(columns.contains(columns[i]));
        }
        assert forall|c: Column|
            (forall|i: int| 0 <= i < settings.len() ==> (#[trigger] settings[i]).column != c)
                implies #[trigger] set[c] == row[c] by {
            assert(!columns.contains(c));
        }
        assert forall|c: Column| #[trigger]
            set.dom().contains(c) <==> row.dom().contains(c) || exists|i: int|
                0 <= i < settings.len() && (#[trigger] settings[i]).column == c by {
            assert(columns.contains(c) <==> exists|i: int|
                0 <= i < settings.len() && (#[trigger] settings[i]).column == c);
        }
    }
}

proof fn lemma_conflicting(a: Row, b: Row, columns: Seq<Column>)
    ensures
        conflicting(a, b, columns) <==> agree(a, b, columns),
{
    if conflicting(a, b, columns) {
        assert forall|i: int| 0 <= i < columns.len() implies a[#[trigger] columns[i]]
            == b[columns[i]] by {
            assert(columns.contains(columns[i]));
        }
    }
    if agree(a, b, columns) {
        assert forall|c: Column| #[trigger] columns.contains(c) implies a[c] == b[c] by {
            let i = choose|i: int| 0 <= i < columns.len() && columns[i] == c;
            assert(a[columns[i]] == b[columns[i]]);
        }
    }
}

proof fn lemma_insert_read(
    table: Table,
    values: Seq<AssignmentView>,
    key: Seq<Column>,
    update: Seq<Column>,
    params: Seq<Cell>,
    before: Seq<Row>,
    after: Seq<Row>,
    changed: nat,
    m: Matching,
)
    requires
        columns_of(values).no_duplicates(),
        params == values.map_values(|a: AssignmentView| a.value),
    ensures
        (Command::Insert {
            table,
            columns: columns_of(values),
            places: places(values.len()),
            conflict: key,
            settings: taken_over(update),
        }).changes(params, before, after, changed, m) <==> (after == upserted(
            before,
            row_of(values),
            key,
            update,
        ) && changed == 1),
{
    let new = row_of(values);
    lemma_row_to_add(values, params);
    assert forall|row: Row| #[trigger] conflicting(row, new, key) <==> agree(row, new, key) by {
        lemma_conflicting(row, new, key);
    }
    assert forall|row: Row, set: Row| #[trigger]
        is_set(set, row, new, taken_over(update), params) <==> set == overwritten(
            row,
            new,
            update,
        ) by {
        lemma_set(row, new, update, set, params);
    }
    if has_key(before, new, key) {
        let i = choose|i: int| 0 <= i < before.len() && agree(#[trigger] before[i], new, key);
        assert(conflicting(before[i], new, key));
        let wanted = upserted(before, new, key, update);
        if after.len() == before.len() && (forall|i: int|
            0 <= i < before.len() ==> if conflicting(#[trigger] before[i], new, key) {
                is_set(after[i], before[i], new, taken_over(update), params)
            } else {
                after[i] == before[i]
            }) {
            assert forall|i: int| 0 <= i < after.len() implies after[i] == wanted[i] by {
                assert(conflicting(before[i], new, key) <==> agree(before[i], new, key));
            }
            assert(after =~= wanted);
        }
        if after == wanted {
            assert forall|i: int| 0 <= i < before.len() implies if conflicting(
                #[trigger] before[i],
                new,
                key,
            ) {
                is_set(after[i], before[i], new, taken_over(update), params)
            } else {
                after[i] == before[i]
            } by {
                assert(conflicting(before[i], new, key) <==> agree(before[i], new, key));
            }
        }
    } else {
        assert forall|i: int| 0 <= i < before.len() implies !conflicting(
            #[trigger] before[i],
            new,
            key,
        ) by {
            assert(!agree(before[i], new, key));
        }
    }
}

proof fn lemma_update_read(
    table: Table,
    change: AssignmentView,
    filter: Seq<ConditionView>,
    params: Seq<Cell>,
    before: Seq<Row>,
    after: Seq<Row>,
    changed: nat,
    m: Matching,
)
    requires
        params[0] == change.value,
        given(filter, 2, params),
    ensures
        (Command::Update {
            table,
            settings: seq![Setting { column: change.column, source: Source::Given(1) }],
            condition: condition_of(filter, 2),
        }).changes(params, before, after, changed, m) <==> (after == updated(
            before,
            change,
            filter,
            m,
        ) && changed == selected(before, filter, m).len()),
{
    let condition = condition_of(filter, 2);
    let settings = seq![Setting { column: change.column, source: Source::Given(1) }];
    let none = Map::<Column, Cell>::empty();
    lemma_takes(filter, 2, params, m);
    lemma_taken(before, filter, 2, params, m);
    assert forall|row: Row, set: Row| #[trigger]
        is_set(set, row, none, settings, params) <==> set == row.insert(
            change.column,
            change.value,
        ) by {
        let wanted = row.insert(change.column, change.value);
        assert(settings[0].column == change.column);
        assert(settings[0].value(row, none, params) == change.value);
        if is_set(set, row, none, settings, params) {
            assert(set[settings[0].column] == settings[0].value(row, none, params));
            assert forall|c: Column| #![trigger set[c]] c != change.column implies set[c]
                == row[c] by {
                assert(forall|i: int|
                    0 <= i < settings.len() ==> (#[trigger] settings[i]).column != c);
            }
            assert forall|c: Column| #[trigger] set.dom().contains(c) <==> wanted.dom().contains(
                c,
            ) by {
                if c == change.column {
                    assert(settings[0].column == c);
                }
            }
            assert(set =~= wanted);
        }
        if set == wanted {
            assert forall|c: Column| #[trigger]
                set.dom().contains(c) <==> row.dom().contains(c) || exists|i: int|
                    0 <= i < settings.len() && (#[trigger] settings[i]).column == c by {
                if c == change.column {
                    assert(settings[0].column == c);
                }
            }
            assert forall|c: Column|
                (forall|i: int| 0 <= i < settings.len() ==> (#[trigger] settings[i]).column != c)
                    implies #[trigger] set[c] == row[c] by {
                assert(settings[0].column != c);
            }
        }
    }
    let wanted = updated(before, change, filter, m);
    if (Command::Update { table, settings, condition }).changes(params, before, after, changed, m) {
        assert forall|i: int| 0 <= i < after.len() implies after[i] == wanted[i] by {
            assert(takes(condition, before[i], params, m) <==> meets(before[i], filter, m));
        }
        assert(after =~= wanted);
    }
    if after == wanted {
        assert forall|i: int| 0 <= i < before.len() implies if takes(
            condition,
            #[trigger] before[i],
            params,
            m,
        ) {
            is_set(after[i], before[i], none, settings, params)
        } else {
            after[i] == before[i]
        } by {
            assert(takes(condition, before[i], params, m) <==> meets(before[i], filter, m));
        }
    }
}

/// Each statement is sent as SQL that the engine reads as doing just what the
/// statement is to do, whatever the tables hold.
pub proof fn a_statement_does_what_its_text_says(statement: StatementView) -> (command: Command)
    requires
        sendable(statement),
    ensures
        command.text() == statement.sql().text,
        command.well_read(),
        forall|before: Tables, after: Tables, changed: nat, m: Matching| #[trigger]
            command.does(statement.sql().params, before, after, changed, m) <==> statement.step(
                before,
                after,
                changed,
                m,
            ),
{
    let command = command_of(statement);
    let params = statement.sql().params;
    lemma_statement_text(statement);
    a_statement_sends_its_values(statement);
    assert(command.table() == statement.table());
    match statement {
        StatementView::Upsert { table, values, key, update } => {
            assert(params =~= values.map_values(|a: AssignmentView| a.value));
        },
        StatementView::Update { change, filter, .. } => {
            assert(given(filter, 2, params));
            lemma_takes(filter, 2, params, arbitrary());
        },
        StatementView::Delete { filter, .. } => {
            assert(given(filter, 1, params));
            lemma_takes(filter, 1, params, arbitrary());
        },
        StatementView::DeleteBeyond { .. } => {},
    }
    assert forall|before: Tables, after: Tables, changed: nat, m: Matching| #[trigger]
        command.does(params, before, after, changed, m) <==> statement.step(
            before,
            after,
            changed,
            m,
        ) by {
        let t = statement.table();
        match statement {
            StatementView::Upsert { table, values, key, update } => {
                lemma_insert_read(
                    table,
                    values,
                    key,
                    update,
                    params,
                    before[t],
                    after[t],
                    changed,
                    m,
                );
            },
            StatementView::Update { table, change, filter } => {
                lemma_update_read(
                    table,
                    change,
                    filter,
                    params,
                    before[t],
                    after[t],
                    changed,
                    m,
                );
            },
            StatementView::Delete { filter, .. } => {
                lemma_taken(before[t], filter, 1, params, m);
            },
            StatementView::DeleteBeyond { .. } => {},
        }
    }
    command
}

/// Whether a query can be sent: it asks for some column, and for what the engine
/// can be asked for.
pub open spec fn askable_query(query: QueryView) -> bool {
    match query {
        QueryView::Select { columns, filter, .. } => columns.len() > 0 && askable(filter),
        QueryView::Count { filter, .. } => askable(filter),
        QueryView::Range { filter, .. } => askable(filter),
        QueryView::LatestPerGroup { filter, .. } => askable(filter),
        QueryView::Size { .. } => true,
    }
}

/// The question that a query is sent as.
spec fn question_of(query: QueryView) -> Question {
    match query {
        QueryView::Select { table, columns, filter, order, limit } => Question::Rows {
            table,
            columns,
            condition: condition_of(filter, 1),
            order,
            limit: match limit {
                Some(_) => Some(filter.len() + 1),
                None => None,
            },
        },
        QueryView::Count { table, filter } => Question::Count {
            table,
            condition: condition_of(filter, 1),
        },
        QueryView::Range { table, column, filter } => Question::Ends {
            table,
            column,
            condition: condition_of(filter, 1),
        },
        QueryView::LatestPerGroup { table, column, filter, group, newest_by, .. } =>
            Question::Newest {
            table,
            column,
            condition: condition_of(filter, 1),
            group,
            newest_by,
            limit: filter.len() + 1,
        },
        QueryView::Size { .. } => Question::Bytes { place: 1 },
    }
}

proof fn lemma_select_words()
    ensures
        "SELECT "@ + "COUNT(*) FROM "@ == "SELECT COUNT(*) FROM "@,
        "SELECT "@ + "MIN("@ == "SELECT MIN("@,
        "SELECT "@ + "COALESCE(SUM(pgsize), 0) FROM dbstat WHERE name = "@
            == "SELECT COALESCE(SUM(pgsize), 0) FROM dbstat WHERE name = "@,
{
    reveal_strlit("SELECT ");
    reveal_strlit("COUNT(*) FROM ");
    reveal_strlit("SELECT COUNT(*) FROM ");
    reveal_strlit("MIN(");
    reveal_strlit("SELECT MIN(");
    reveal_strlit("COALESCE(SUM(pgsize), 0) FROM dbstat WHERE name = ");
    reveal_strlit("SELECT COALESCE(SUM(pgsize), 0) FROM dbstat WHERE name = ");
    assert("SELECT "@ + "COUNT(*) FROM "@ =~= "SELECT COUNT(*) FROM "@);
    assert("SELECT "@ + "MIN("@ =~= "SELECT MIN("@);
    assert("SELECT "@ + "COALESCE(SUM(pgsize), 0) FROM dbstat WHERE name = "@
        =~= "SELECT COALESCE(SUM(pgsize), 0) FROM dbstat WHERE name = "@);
}

proof fn lemma_order_read(s: SqlView, order: Order)
    ensures
        s.order(order).text == s.text + order_clause(order),
        s.order(order).params == s.params,
{
    match order {
        Order::Unordered => {
            lemma_behind(s.text);
        },
        Order::Written => {},
        Order::Ascending(c) => {
            lemma_together(s.text, " ORDER BY "@, c.spec_name());
            lemma_together(s.text, " ORDER BY "@ + c.spec_name(), " ASC"@);
        },
        Order::Descending(c) => {
            lemma_together(s.text, " ORDER BY "@, c.spec_name());
            lemma_together(s.text, " ORDER BY "@ + c.spec_name(), " DESC"@);
        },
    }
}

proof fn lemma_query_text(query: QueryView)
    ensures
        question_of(query).text() == query.sql().text,
{
    let s = SqlView::empty().lit("SELECT "@);
    lemma_behind("SELECT "@);
    match query {
        QueryView::Select { table, columns, filter, order, limit } => {
            lemma_names_read(s, columns);
            let a = s.names(columns).lit(" FROM "@).lit(table.spec_name());
            lemma_conditions_read(a, filter);
            let b = a.conditions(filter);
            let c = b.order(order);
            lemma_order_read(b, order);
            match limit {
                Some(n) => {
                    assert(c.params.len() == filter.len());
                    lemma_together(c.text + " LIMIT "@, "?"@, decimal(filter.len() + 1));
                    lemma_together(c.text, " LIMIT "@, placeholder(filter.len() + 1));
                },
                None => {
                    lemma_behind(c.text);
                },
            }
        },
        QueryView::Count { table, filter } => {
            let a = s.lit("COUNT(*) FROM "@);
            lemma_select_words();
            lemma_conditions_read(a.lit(table.spec_name()), filter);
        },
        QueryView::Range { table, column, filter } => {
            let a = s.lit("MIN("@);
            lemma_select_words();
            lemma_conditions_read(
                a.lit(column.spec_name()).lit("), MAX("@).lit(column.spec_name()).lit(
                    ") FROM "@,
                ).lit(table.spec_name()),
                filter,
            );
        },
        QueryView::LatestPerGroup { table, column, filter, group, newest_by, limit } => {
            let a = s.lit(column.spec_name()).lit(" FROM "@).lit(table.spec_name());
            lemma_numbered_read(a, table, filter, group, newest_by);
            let b = a.numbered_rows(table, filter, group, newest_by).lit(" WHERE rn = 1)"@);
            let c = b.order(Order::Descending(newest_by)).lit(" LIMIT "@);
            assert(c.params.len() == filter.len());
            lemma_together(c.text, "?"@, decimal(filter.len() + 1));
        },
        QueryView::Size { table } => {
            let a = s.lit("COALESCE(SUM(pgsize), 0) FROM dbstat WHERE name = "@);
            lemma_select_words();
            lemma_together(a.text, "?"@, decimal(1));
        },
    }
}

/// Each query is sent as SQL that the engine reads as asking for just what the
/// query is to ask for, whatever the tables hold.
pub proof fn a_query_asks_what_its_text_says(query: QueryView) -> (question: Question)
    requires
        askable_query(query),
        !(query is Size),
    ensures
        question.text() == query.sql().text,
        question.well_read(),
        forall|tables: Tables, answer: Seq<Seq<Cell>>, m: Matching| #[trigger]
            question.gives(query.sql().params, tables, answer, m) <==> query.answered(
                tables,
                answer,
                m,
            ),
{
    let question = question_of(query);
    let params = query.sql().params;
    lemma_query_text(query);
    a_query_sends_its_values(query);
    let filter = match query {
        QueryView::Select { filter, .. } => filter,
        QueryView::Count { filter, .. } => filter,
        QueryView::Range { filter, .. } => filter,
        QueryView::LatestPerGroup { filter, .. } => filter,
        QueryView::Size { .. } => Seq::empty(),
    };
    assert(given(filter, 1, params));
    lemma_takes(filter, 1, params, arbitrary());
    assert forall|tables: Tables, answer: Seq<Seq<Cell>>, m: Matching| #[trigger]
        question.gives(params, tables, answer, m) <==> query.answered(tables, answer, m) by {
        match query {
            QueryView::Select { table, .. } => {
                lemma_taken(tables[table], filter, 1, params, m);
            },
            QueryView::Count { table, .. } => {
                lemma_taken(tables[table], filter, 1, params, m);
            },
            QueryView::Range { table, .. } => {
                lemma_taken(tables[table], filter, 1, params, m);
            },
            QueryView::LatestPerGroup { table, .. } => {
                lemma_taken(tables[table], filter, 1, params, m);
            },
            QueryView::Size { .. } => {},
        }
    }
    question
}

/// The query for the bytes of a table is sent as SQL that asks the engine for the
/// pages by the table's name.
pub proof fn the_bytes_of_a_table_are_asked_by_its_name(table: Table) -> (question: Question)
    ensures
        question.text() == (QueryView::Size { table }).sql().text,
        question.well_read(),
        question == (Question::Bytes { place: 1 }),
        (QueryView::Size { table }).sql().params == seq![Cell::Text(table.spec_name())],
{
    lemma_query_text(QueryView::Size { table });
    question_of(QueryView::Size { table })
}

} // verus!
