//! Statements and queries as data, and the SQL text that each is sent as.
use vstd::prelude::*;
use vstd::string::*;
use crate::text::{decimal, push_decimal};
use crate::value::{Cell, Column, Table, Value};

verus! {

/// SQL text with numbered placeholders, and the values for them.
#[derive(Debug, Clone)]
pub struct Sql {
    pub text: String,
    pub params: Vec<Value>,
}

#[verifier::ext_equal]
pub struct SqlView {
    pub text: Seq<char>,
    pub params: Seq<Cell>,
}

impl View for Sql {
    type V = SqlView;

    open spec fn view(&self) -> SqlView {
        SqlView { text: self.text@, params: self.params.deep_view() }
    }
}

impl DeepView for Sql {
    type V = SqlView;

    open spec fn deep_view(&self) -> SqlView {
        self.view()
    }
}

/// How a condition compares a column with its value.
#[derive(Debug, Clone, Copy, PartialEq, Eq, Structural)]
pub enum Test {
    Equal,
    Less,
    AtMost,
    Greater,
    AtLeast,
    /// The column is like the value, a pattern with wildcards.
    Like,
    /// The full-text index of notes finds the row by the value, a phrase.
    Match,
}

impl Test {
    /// The operator in SQL, with a space on either side.
    pub open spec fn spec_operator(self) -> Seq<char> {
        match self {
            Test::Equal => " = "@,
            Test::Less => " < "@,
            Test::AtMost => " <= "@,
            Test::Greater => " > "@,
            Test::AtLeast => " >= "@,
            Test::Like => " LIKE "@,
            Test::Match => " MATCH "@,
        }
    }

    /// The operator in SQL, with a space on either side.
    pub fn operator(self) -> (r: &'static str)
        ensures
            r@ == self.spec_operator(),
    {
        match self {
            Test::Equal => " = ",
            Test::Less => " < ",
            Test::AtMost => " <= ",
            Test::Greater => " > ",
            Test::AtLeast => " >= ",
            Test::Like => " LIKE ",
            Test::Match => " MATCH ",
        }
    }
}

/// A condition on one column of a row.
#[derive(Debug, Clone)]
pub struct Condition {
    pub column: Column,
    pub test: Test,
    pub value: Value,
}

#[verifier::ext_equal]
pub struct ConditionView {
    pub column: Column,
    pub test: Test,
    pub value: Cell,
}

impl View for Condition {
    type V = ConditionView;

    open spec fn view(&self) -> ConditionView {
        ConditionView { column: self.column, test: self.test, value: self.value@ }
    }
}

impl DeepView for Condition {
    type V = ConditionView;

    open spec fn deep_view(&self) -> ConditionView {
        self.view()
    }
}

/// The condition that `column` holds `value`.
pub open spec fn equals(column: Column, value: Cell) -> ConditionView {
    ConditionView { column, test: Test::Equal, value }
}

/// The condition that `column` holds the text `s`.
pub open spec fn is_text(column: Column, s: Seq<char>) -> ConditionView {
    equals(column, Cell::Text(s))
}

impl Condition {
    /// The condition that `column` holds the text `s`.
    pub fn is_text(column: Column, s: &str) -> (r: Condition)
        ensures
            r@ == is_text(column, s@),
    {
        Condition { column, test: Test::Equal, value: Value::text(s) }
    }
}

/// A column and the value written to it.
#[derive(Debug, Clone)]
pub struct Assignment {
    pub column: Column,
    pub value: Value,
}

#[verifier::ext_equal]
pub struct AssignmentView {
    pub column: Column,
    pub value: Cell,
}

impl View for Assignment {
    type V = AssignmentView;

    open spec fn view(&self) -> AssignmentView {
        AssignmentView { column: self.column, value: self.value@ }
    }
}

impl DeepView for Assignment {
    type V = AssignmentView;

    open spec fn deep_view(&self) -> AssignmentView {
        self.view()
    }
}

/// `value` written to `column`.
pub open spec fn assign(column: Column, value: Cell) -> AssignmentView {
    AssignmentView { column, value }
}

impl Assignment {
    /// `value` written to `column`.
    pub fn new(column: Column, value: Value) -> (r: Assignment)
        ensures
            r@ == assign(column, value@),
    {
        Assignment { column, value }
    }
}

/// The order of the rows of an answer.
#[derive(Debug, Clone, Copy, PartialEq, Eq, Structural)]
pub enum Order {
    /// Any order.
    Unordered,
    /// In the order in which the rows were first written.
    Written,
    /// By a column, smallest first.
    Ascending(Column),
    /// By a column, largest first.
    Descending(Column),
}

/// A statement that changes rows.
#[derive(Debug, Clone)]
pub enum Statement {
    /// Adds a row, or, where one with the same `key` columns is there, writes
    /// the `update` columns of that row.
    Upsert { table: Table, values: Vec<Assignment>, key: Vec<Column>, update: Vec<Column> },
    /// Writes one column of the rows that meet `filter`.
    Update { table: Table, change: Assignment, filter: Vec<Condition> },
    /// Removes the rows that meet `filter`.
    Delete { table: Table, filter: Vec<Condition> },
    /// In each group of rows with the same `group` column, removes all but the
    /// `keep` rows with the largest `newest_by` column.
    DeleteBeyond { table: Table, group: Column, newest_by: Column, keep: i64 },
}

#[verifier::ext_equal]
pub enum StatementView {
    Upsert { table: Table, values: Seq<AssignmentView>, key: Seq<Column>, update: Seq<Column> },
    Update { table: Table, change: AssignmentView, filter: Seq<ConditionView> },
    Delete { table: Table, filter: Seq<ConditionView> },
    DeleteBeyond { table: Table, group: Column, newest_by: Column, keep: int },
}

impl View for Statement {
    type V = StatementView;

    open spec fn view(&self) -> StatementView {
        match self {
            Statement::Upsert { table, values, key, update } => StatementView::Upsert {
                table: *table,
                values: values.deep_view(),
                key: key@,
                update: update@,
            },
            Statement::Update { table, change, filter } => StatementView::Update {
                table: *table,
                change: change@,
                filter: filter.deep_view(),
            },
            Statement::Delete { table, filter } => StatementView::Delete {
                table: *table,
                filter: filter.deep_view(),
            },
            Statement::DeleteBeyond { table, group, newest_by, keep } => StatementView::DeleteBeyond {
                table: *table,
                group: *group,
                newest_by: *newest_by,
                keep: *keep as int,
            },
        }
    }
}

impl DeepView for Statement {
    type V = StatementView;

    open spec fn deep_view(&self) -> StatementView {
        self.view()
    }
}

/// A query.
#[derive(Debug, Clone)]
pub enum Query {
    /// The given columns of the rows that meet `filter`. A negative limit is
    /// no limit.
    Select {
        table: Table,
        columns: Vec<Column>,
        filter: Vec<Condition>,
        order: Order,
        limit: Option<i64>,
    },
    /// The number of rows that meet `filter`.
    Count { table: Table, filter: Vec<Condition> },
    /// The smallest and the largest `column` of the rows that meet `filter`.
    Range { table: Table, column: Column, filter: Vec<Condition> },
    /// One column of the newest row of each group of the rows that meet
    /// `filter`, newest first.
    LatestPerGroup {
        table: Table,
        column: Column,
        filter: Vec<Condition>,
        group: Column,
        newest_by: Column,
        limit: i64,
    },
    /// The number of bytes of all pages that hold the table.
    Size { table: Table },
}

#[verifier::ext_equal]
pub enum QueryView {
    Select {
        table: Table,
        columns: Seq<Column>,
        filter: Seq<ConditionView>,
        order: Order,
        limit: Option<int>,
    },
    Count { table: Table, filter: Seq<ConditionView> },
    Range { table: Table, column: Column, filter: Seq<ConditionView> },
    LatestPerGroup {
        table: Table,
        column: Column,
        filter: Seq<ConditionView>,
        group: Column,
        newest_by: Column,
        limit: int,
    },
    Size { table: Table },
}

impl View for Query {
    type V = QueryView;

    open spec fn view(&self) -> QueryView {
        match self {
            Query::Select { table, columns, filter, order, limit } => QueryView::Select {
                table: *table,
                columns: columns@,
                filter: filter.deep_view(),
                order: *order,
                limit: match limit {
                    Some(n) => Some(*n as int),
                    None => None,
                },
            },
            Query::Count { table, filter } => QueryView::Count {
                table: *table,
                filter: filter.deep_view(),
            },
            Query::Range { table, column, filter } => QueryView::Range {
                table: *table,
                column: *column,
                filter: filter.deep_view(),
            },
            Query::LatestPerGroup { table, column, filter, group, newest_by, limit } =>
                QueryView::LatestPerGroup {
                table: *table,
                column: *column,
                filter: filter.deep_view(),
                group: *group,
                newest_by: *newest_by,
                limit: *limit as int,
            },
            Query::Size { table } => QueryView::Size { table: *table },
        }
    }
}

impl DeepView for Query {
    type V = QueryView;

    open spec fn deep_view(&self) -> QueryView {
        self.view()
    }
}

// ---- rendering, as a function of the statement ----

impl SqlView {
    /// No text and no values.
    pub open spec fn empty() -> SqlView {
        SqlView { text: Seq::empty(), params: Seq::empty() }
    }

    /// With `s` behind the text.
    pub open spec fn lit(self, s: Seq<char>) -> SqlView {
        SqlView { text: self.text + s, params: self.params }
    }

    /// With a placeholder for `c` behind the text. Placeholders are numbered
    /// from one, in the order in which they are added.
    pub open spec fn param(self, c: Cell) -> SqlView {
        SqlView {
            text: self.text + "?"@ + decimal(self.params.len() + 1),
            params: self.params.push(c),
        }
    }

    /// With the names of `columns` behind the text, separated by commas.
    pub open spec fn names(self, columns: Seq<Column>) -> SqlView
        decreases columns.len(),
    {
        if columns.len() == 0 {
            self
        } else {
            let head = self.names(columns.drop_last());
            let head = if columns.len() > 1 {
                head.lit(", "@)
            } else {
                head
            };
            head.lit(columns.last().spec_name())
        }
    }

    /// With the names of the columns of `values` behind the text.
    pub open spec fn assigned_names(self, values: Seq<AssignmentView>) -> SqlView
        decreases values.len(),
    {
        if values.len() == 0 {
            self
        } else {
            let head = self.assigned_names(values.drop_last());
            let head = if values.len() > 1 {
                head.lit(", "@)
            } else {
                head
            };
            head.lit(values.last().column.spec_name())
        }
    }

    /// With a placeholder for each of `values` behind the text.
    pub open spec fn assigned_values(self, values: Seq<AssignmentView>) -> SqlView
        decreases values.len(),
    {
        if values.len() == 0 {
            self
        } else {
            let head = self.assigned_values(values.drop_last());
            let head = if values.len() > 1 {
                head.lit(", "@)
            } else {
                head
            };
            head.param(values.last().value)
        }
    }

    /// With the clause that takes each of `columns` from the row that was to
    /// be added.
    pub open spec fn excluded(self, columns: Seq<Column>) -> SqlView
        decreases columns.len(),
    {
        if columns.len() == 0 {
            self
        } else {
            let head = self.excluded(columns.drop_last());
            let head = if columns.len() > 1 {
                head.lit(", "@)
            } else {
                head
            };
            head.lit(columns.last().spec_name()).lit(" = excluded."@).lit(
                columns.last().spec_name(),
            )
        }
    }

    /// With one condition behind the text.
    pub open spec fn condition(self, c: ConditionView) -> SqlView {
        if c.test == Test::Match {
            self.lit("rowid IN (SELECT rowid FROM notes_fts WHERE notes_fts"@).lit(
                c.test.spec_operator(),
            ).param(c.value).lit(")"@)
        } else {
            self.lit(c.column.spec_name()).lit(c.test.spec_operator()).param(c.value)
        }
    }

    /// With the clause that asks for all of `filter`.
    pub open spec fn conditions(self, filter: Seq<ConditionView>) -> SqlView
        decreases filter.len(),
    {
        if filter.len() == 0 {
            self
        } else {
            let head = self.conditions(filter.drop_last());
            let head = if filter.len() > 1 {
                head.lit(" AND "@)
            } else {
                head.lit(" WHERE "@)
            };
            head.condition(filter.last())
        }
    }

    /// With the clause that asks for an order.
    pub open spec fn order(self, order: Order) -> SqlView {
        match order {
            Order::Unordered => self,
            Order::Written => self.lit(" ORDER BY rowid"@),
            Order::Ascending(c) => self.lit(" ORDER BY "@).lit(c.spec_name()).lit(" ASC"@),
            Order::Descending(c) => self.lit(" ORDER BY "@).lit(c.spec_name()).lit(" DESC"@),
        }
    }

    /// With the subquery that numbers rows within their group, newest first.
    pub open spec fn numbered_rows(
        self,
        table: Table,
        filter: Seq<ConditionView>,
        group: Column,
        newest_by: Column,
    ) -> SqlView {
        self.lit(" WHERE rowid IN (SELECT rowid FROM (SELECT rowid, "@).lit(
            "ROW_NUMBER() OVER (PARTITION BY "@,
        ).lit(group.spec_name()).lit(" ORDER BY "@).lit(newest_by.spec_name()).lit(
            " DESC) AS rn FROM "@,
        ).lit(table.spec_name()).conditions(filter).lit(")"@)
    }
}

impl StatementView {
    /// The SQL of the statement.
    pub open spec fn sql(self) -> SqlView {
        let s = SqlView::empty();
        match self {
            StatementView::Upsert { table, values, key, update } => s.lit("INSERT INTO "@).lit(
                table.spec_name(),
            ).lit(" ("@).assigned_names(values).lit(") VALUES ("@).assigned_values(values).lit(
                ") ON CONFLICT("@,
            ).names(key).lit(") DO UPDATE SET "@).excluded(update),
            StatementView::Update { table, change, filter } => s.lit("UPDATE "@).lit(
                table.spec_name(),
            ).lit(" SET "@).lit(change.column.spec_name()).lit(" = "@).param(
                change.value,
            ).conditions(filter),
            StatementView::Delete { table, filter } => s.lit("DELETE FROM "@).lit(
                table.spec_name(),
            ).conditions(filter),
            StatementView::DeleteBeyond { table, group, newest_by, keep } => s.lit(
                "DELETE FROM "@,
            ).lit(table.spec_name()).numbered_rows(
                table,
                Seq::empty(),
                group,
                newest_by,
            ).lit(" WHERE rn > "@).param(Cell::Integer(keep)).lit(")"@),
        }
    }
}

impl QueryView {
    /// The SQL of the query.
    pub open spec fn sql(self) -> SqlView {
        let s = SqlView::empty().lit("SELECT "@);
        match self {
            QueryView::Select { table, columns, filter, order, limit } => {
                let head = s.names(columns).lit(" FROM "@).lit(table.spec_name()).conditions(
                    filter,
                ).order(order);
                match limit {
                    Some(n) => head.lit(" LIMIT "@).param(Cell::Integer(n)),
                    None => head,
                }
            },
            QueryView::Count { table, filter } => s.lit("COUNT(*) FROM "@).lit(
                table.spec_name(),
            ).conditions(filter),
            QueryView::Range { table, column, filter } => s.lit("MIN("@).lit(
                column.spec_name(),
            ).lit("), MAX("@).lit(column.spec_name()).lit(") FROM "@).lit(
                table.spec_name(),
            ).conditions(filter),
            QueryView::LatestPerGroup { table, column, filter, group, newest_by, limit } => s.lit(
                column.spec_name(),
            ).lit(" FROM "@).lit(table.spec_name()).numbered_rows(
                table,
                filter,
                group,
                newest_by,
            ).lit(" WHERE rn = 1)"@).order(Order::Descending(newest_by)).lit(" LIMIT "@).param(
                Cell::Integer(limit),
            ),
            QueryView::Size { table } => s.lit(
                "COALESCE(SUM(pgsize), 0) FROM dbstat WHERE name = "@,
            ).param(Cell::Text(table.spec_name())),
        }
    }
}

// ---- rendering, executed ----

impl Sql {
    /// SQL text without placeholders.
    pub fn plain(text: &str) -> (r: Sql)
        ensures
            r@ == SqlView::empty().lit(text@),
    {
        let mut sql = Sql::new();
        sql.lit(text);
        sql
    }

    /// SQL text with one placeholder behind it, for a text.
    pub fn with_text(text: &str, value: &str) -> (r: Sql)
        ensures
            r@ == SqlView::empty().lit(text@).param(Cell::Text(value@)),
    {
        let mut sql = Sql::new();
        sql.lit(text);
        sql.param(Value::text(value));
        sql
    }

    fn new() -> (r: Sql)
        ensures
            r@ == SqlView::empty(),
    {
        let r = Sql { text: String::new(), params: Vec::new() };
        assert(r@ =~= SqlView::empty());
        r
    }

    fn lit(&mut self, s: &str)
        ensures
            final(self)@ == old(self)@.lit(s@),
    {
        self.text.append(s);
    }

    fn param(&mut self, v: Value)
        ensures
            final(self)@ == old(self)@.param(v@),
    {
        self.params.push(v);
        self.text.append("?");
        push_decimal(&mut self.text, self.params.len());
        assert(self@ =~= old(self)@.param(v@));
    }

    fn names(&mut self, columns: &Vec<Column>)
        ensures
            final(self)@ == old(self)@.names(columns@),
    {
        let mut i: usize = 0;
        while i < columns.len()
            invariant
                i <= columns@.len(),
                self@ == old(self)@.names(columns@.take(i as int)),
            decreases columns@.len() - i,
        {
            assert(columns@.take(i + 1).drop_last() =~= columns@.take(i as int));
            if i > 0 {
                self.lit(", ");
            }
            self.lit(columns[i].name());
            i += 1;
        }
        assert(columns@.take(columns@.len() as int) =~= columns@);
    }

    fn assigned_names(&mut self, values: &Vec<Assignment>)
        ensures
            final(self)@ == old(self)@.assigned_names(values.deep_view()),
    {
        let ghost all = values.deep_view();
        let mut i: usize = 0;
        while i < values.len()
            invariant
                i <= values@.len(),
                all == values.deep_view(),
                self@ == old(self)@.assigned_names(all.take(i as int)),
            decreases values@.len() - i,
        {
            assert(all.take(i + 1).drop_last() =~= all.take(i as int));
            if i > 0 {
                self.lit(", ");
            }
            self.lit(values[i].column.name());
            i += 1;
        }
        assert(all.take(all.len() as int) =~= all);
    }

    fn assigned_values(&mut self, values: &Vec<Assignment>)
        ensures
            final(self)@ == old(self)@.assigned_values(values.deep_view()),
    {
        let ghost all = values.deep_view();
        let mut i: usize = 0;
        while i < values.len()
            invariant
                i <= values@.len(),
                all == values.deep_view(),
                self@ == old(self)@.assigned_values(all.take(i as int)),
            decreases values@.len() - i,
        {
            assert(all.take(i + 1).drop_last() =~= all.take(i as int));
            if i > 0 {
                self.lit(", ");
            }
            self.param(values[i].value.copied());
            i += 1;
        }
        assert(all.take(all.len() as int) =~= all);
    }

    fn excluded(&mut self, columns: &Vec<Column>)
        ensures
            final(self)@ == old(self)@.excluded(columns@),
    {
        let mut i: usize = 0;
        while i < columns.len()
            invariant
                i <= columns@.len(),
                self@ == old(self)@.excluded(columns@.take(i as int)),
            decreases columns@.len() - i,
        {
            assert(columns@.take(i + 1).drop_last() =~= columns@.take(i as int));
            if i > 0 {
                self.lit(", ");
            }
            self.lit(columns[i].name());
            self.lit(" = excluded.");
            self.lit(columns[i].name());
            i += 1;
        }
        assert(columns@.take(columns@.len() as int) =~= columns@);
    }

    fn condition(&mut self, c: &Condition)
        ensures
            final(self)@ == old(self)@.condition(c@),
    {
        if c.test == Test::Match {
            self.lit("rowid IN (SELECT rowid FROM notes_fts WHERE notes_fts");
            self.lit(c.test.operator());
            self.param(c.value.copied());
            self.lit(")");
        } else {
            self.lit(c.column.name());
            self.lit(c.test.operator());
            self.param(c.value.copied());
        }
    }

    fn conditions(&mut self, filter: &Vec<Condition>)
        ensures
            final(self)@ == old(self)@.conditions(filter.deep_view()),
    {
        let ghost all = filter.deep_view();
        let mut i: usize = 0;
        while i < filter.len()
            invariant
                i <= filter@.len(),
                all == filter.deep_view(),
                self@ == old(self)@.conditions(all.take(i as int)),
            decreases filter@.len() - i,
        {
            assert(all.take(i + 1).drop_last() =~= all.take(i as int));
            if i > 0 {
                self.lit(" AND ");
            } else {
                self.lit(" WHERE ");
            }
            self.condition(&filter[i]);
            i += 1;
        }
        assert(all.take(all.len() as int) =~= all);
    }

    fn order(&mut self, order: Order)
        ensures
            final(self)@ == old(self)@.order(order),
    {
        match order {
            Order::Unordered => {},
            Order::Written => {
                self.lit(" ORDER BY rowid");
            },
            Order::Ascending(c) => {
                self.lit(" ORDER BY ");
                self.lit(c.name());
                self.lit(" ASC");
            },
            Order::Descending(c) => {
                self.lit(" ORDER BY ");
                self.lit(c.name());
                self.lit(" DESC");
            },
        }
    }

    fn numbered_rows(
        &mut self,
        table: Table,
        filter: &Vec<Condition>,
        group: Column,
        newest_by: Column,
    )
        ensures
            final(self)@ == old(self)@.numbered_rows(table, filter.deep_view(), group, newest_by),
    {
        self.lit(" WHERE rowid IN (SELECT rowid FROM (SELECT rowid, ");
        self.lit("ROW_NUMBER() OVER (PARTITION BY ");
        self.lit(group.name());
        self.lit(" ORDER BY ");
        self.lit(newest_by.name());
        self.lit(" DESC) AS rn FROM ");
        self.lit(table.name());
        self.conditions(filter);
        self.lit(")");
    }
}

impl Statement {
    /// The SQL of the statement.
    pub fn sql(&self) -> (r: Sql)
        ensures
            r@ == self@.sql(),
    {
        let mut s = Sql::new();
        match self {
            Statement::Upsert { table, values, key, update } => {
                s.lit("INSERT INTO ");
                s.lit(table.name());
                s.lit(" (");
                s.assigned_names(values);
                s.lit(") VALUES (");
                s.assigned_values(values);
                s.lit(") ON CONFLICT(");
                s.names(key);
                s.lit(") DO UPDATE SET ");
                s.excluded(update);
            },
            Statement::Update { table, change, filter } => {
                s.lit("UPDATE ");
                s.lit(table.name());
                s.lit(" SET ");
                s.lit(change.column.name());
                s.lit(" = ");
                s.param(change.value.copied());
                s.conditions(filter);
            },
            Statement::Delete { table, filter } => {
                s.lit("DELETE FROM ");
                s.lit(table.name());
                s.conditions(filter);
            },
            Statement::DeleteBeyond { table, group, newest_by, keep } => {
                let none: Vec<Condition> = Vec::new();
                assert(none.deep_view() =~= Seq::<ConditionView>::empty());
                s.lit("DELETE FROM ");
                s.lit(table.name());
                s.numbered_rows(*table, &none, *group, *newest_by);
                s.lit(" WHERE rn > ");
                s.param(Value::Integer(*keep));
                s.lit(")");
            },
        }
        s
    }
}

impl Query {
    /// The SQL of the query.
    pub fn sql(&self) -> (r: Sql)
        ensures
            r@ == self@.sql(),
    {
        let mut s = Sql::new();
        s.lit("SELECT ");
        match self {
            Query::Select { table, columns, filter, order, limit } => {
                s.names(columns);
                s.lit(" FROM ");
                s.lit(table.name());
                s.conditions(filter);
                s.order(*order);
                if let Some(n) = limit {
                    s.lit(" LIMIT ");
                    s.param(Value::Integer(*n));
                }
            },
            Query::Count { table, filter } => {
                s.lit("COUNT(*) FROM ");
                s.lit(table.name());
                s.conditions(filter);
            },
            Query::Range { table, column, filter } => {
                s.lit("MIN(");
                s.lit(column.name());
                s.lit("), MAX(");
                s.lit(column.name());
                s.lit(") FROM ");
                s.lit(table.name());
                s.conditions(filter);
            },
            Query::LatestPerGroup { table, column, filter, group, newest_by, limit } => {
                s.lit(column.name());
                s.lit(" FROM ");
                s.lit(table.name());
                s.numbered_rows(*table, filter, *group, *newest_by);
                s.lit(" WHERE rn = 1)");
                s.order(Order::Descending(*newest_by));
                s.lit(" LIMIT ");
                s.param(Value::Integer(*limit));
            },
            Query::Size { table } => {
                s.lit("COALESCE(SUM(pgsize), 0) FROM dbstat WHERE name = ");
                s.param(Value::text(table.name()));
            },
        }
        s
    }
}

} // verus!
