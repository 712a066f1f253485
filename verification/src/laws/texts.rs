//! Values go to the engine beside the SQL text, never inside it.
use vstd::prelude::*;
use crate::sql::{AssignmentView, ConditionView, QueryView, SqlView, StatementView};
use crate::value::{Cell, Column, Table};

verus! {

/// The values of some conditions.
pub open spec fn condition_values(filter: Seq<ConditionView>) -> Seq<Cell> {
    filter.map_values(|c: ConditionView| c.value)
}

/// The values of some assignments.
pub open spec fn assigned(values: Seq<AssignmentView>) -> Seq<Cell> {
    values.map_values(|a: AssignmentView| a.value)
}

/// The values of a statement, in the order of its placeholders.
pub open spec fn statement_values(statement: StatementView) -> Seq<Cell> {
    match statement {
        StatementView::Upsert { values, .. } => assigned(values),
        StatementView::Update { change, filter, .. } => seq![change.value] + condition_values(
            filter,
        ),
        StatementView::Delete { filter, .. } => condition_values(filter),
        StatementView::DeleteBeyond { keep, .. } => seq![Cell::Integer(keep)],
    }
}

/// The values of a query, in the order of its placeholders.
pub open spec fn query_values(query: QueryView) -> Seq<Cell> {
    match query {
        QueryView::Select { filter, limit, .. } => condition_values(filter) + match limit {
            Some(n) => seq![Cell::Integer(n)],
            None => Seq::empty(),
        },
        QueryView::Count { filter, .. } => condition_values(filter),
        QueryView::Range { filter, .. } => condition_values(filter),
        QueryView::LatestPerGroup { filter, limit, .. } => condition_values(filter).push(
            Cell::Integer(limit),
        ),
        QueryView::Size { table } => seq![Cell::Text(table.spec_name())],
    }
}

/// Whether two lists of conditions test the same columns in the same way.
pub open spec fn same_tests(a: Seq<ConditionView>, b: Seq<ConditionView>) -> bool {
    &&& a.len() == b.len()
    &&& forall|i: int|
        0 <= i < a.len() ==> (#[trigger] a[i]).column == b[i].column && a[i].test == b[i].test
}

/// Whether two lists of assignments go to the same columns.
pub open spec fn same_columns(a: Seq<AssignmentView>, b: Seq<AssignmentView>) -> bool {
    &&& a.len() == b.len()
    &&& forall|i: int| 0 <= i < a.len() ==> (#[trigger] a[i]).column == b[i].column
}

/// Whether two statements differ in their values at most.
pub open spec fn same_statement(a: StatementView, b: StatementView) -> bool {
    match (a, b) {
        (
            StatementView::Upsert { table, values, key, update },
            StatementView::Upsert { table: t, values: v, key: k, update: u },
        ) => table == t && same_columns(values, v) && key == k && update == u,
        (
            StatementView::Update { table, change, filter },
            StatementView::Update { table: t, change: c, filter: f },
        ) => table == t && change.column == c.column && same_tests(filter, f),
        (
            StatementView::Delete { table, filter },
            StatementView::Delete { table: t, filter: f },
        ) => table == t && same_tests(filter, f),
        (
            StatementView::DeleteBeyond { table, group, newest_by, .. },
            StatementView::DeleteBeyond { table: t, group: g, newest_by: n, .. },
        ) => table == t && group == g && newest_by == n,
        _ => false,
    }
}

/// Whether two queries differ in their values at most.
pub open spec fn same_query(a: QueryView, b: QueryView) -> bool {
    match (a, b) {
        (
            QueryView::Select { table, columns, filter, order, limit },
            QueryView::Select { table: t, columns: c, filter: f, order: o, limit: l },
        ) => table == t && columns == c && same_tests(filter, f) && order == o && (limit is Some
            <==> l is Some),
        (QueryView::Count { table, filter }, QueryView::Count { table: t, filter: f }) => table == t
            && same_tests(filter, f),
        (
            QueryView::Range { table, column, filter },
            QueryView::Range { table: t, column: c, filter: f },
        ) => table == t && column == c && same_tests(filter, f),
        (
            QueryView::LatestPerGroup { table, column, filter, group, newest_by, .. },
            QueryView::LatestPerGroup {
                table: t,
                column: c,
                filter: f,
                group: g,
                newest_by: n,
                ..
            },
        ) => table == t && column == c && same_tests(filter, f) && group == g && newest_by == n,
        (QueryView::Size { table }, QueryView::Size { table: t }) => table == t,
        _ => false,
    }
}

/// Whether two texts are the same and have as many placeholders.
spec fn alike(a: SqlView, b: SqlView) -> bool {
    a.text == b.text && a.params.len() == b.params.len()
}

proof fn lemma_conditions(s: SqlView, filter: Seq<ConditionView>)
    ensures
        s.conditions(filter).params == s.params + condition_values(filter),
    decreases filter.len(),
{
    if filter.len() > 0 {
        lemma_conditions(s, filter.drop_last());
    }
    assert(s.conditions(filter).params =~= s.params + condition_values(filter));
}

proof fn lemma_conditions_alike(
    s: SqlView,
    t: SqlView,
    a: Seq<ConditionView>,
    b: Seq<ConditionView>,
)
    requires
        alike(s, t),
        same_tests(a, b),
    ensures
        alike(s.conditions(a), t.conditions(b)),
    decreases a.len(),
{
    if a.len() > 0 {
        assert forall|i: int| 0 <= i < a.drop_last().len() implies (
        #[trigger] a.drop_last()[i]).column == b.drop_last()[i].column && a.drop_last()[i].test
            == b.drop_last()[i].test by {
            assert(a[i].column == b[i].column);
        }
        lemma_conditions_alike(s, t, a.drop_last(), b.drop_last());
        assert(a[a.len() - 1].column == b[b.len() - 1].column);
    }
}

proof fn lemma_names(s: SqlView, columns: Seq<Column>)
    ensures
        s.names(columns).params == s.params,
        s.excluded(columns).params == s.params,
    decreases columns.len(),
{
    if columns.len() > 0 {
        lemma_names(s, columns.drop_last());
    }
}

proof fn lemma_names_alike(s: SqlView, t: SqlView, columns: Seq<Column>)
    requires
        alike(s, t),
    ensures
        alike(s.names(columns), t.names(columns)),
        alike(s.excluded(columns), t.excluded(columns)),
    decreases columns.len(),
{
    if columns.len() > 0 {
        lemma_names_alike(s, t, columns.drop_last());
    }
}

proof fn lemma_assigned_names(s: SqlView, a: Seq<AssignmentView>)
    ensures
        s.assigned_names(a).params == s.params,
    decreases a.len(),
{
    if a.len() > 0 {
        lemma_assigned_names(s, a.drop_last());
    }
}

proof fn lemma_assigned_values(s: SqlView, a: Seq<AssignmentView>)
    ensures
        s.assigned_values(a).params == s.params + assigned(a),
    decreases a.len(),
{
    if a.len() > 0 {
        lemma_assigned_values(s, a.drop_last());
    }
    assert(s.assigned_values(a).params =~= s.params + assigned(a));
}

proof fn lemma_assigned_alike(
    s: SqlView,
    t: SqlView,
    a: Seq<AssignmentView>,
    b: Seq<AssignmentView>,
)
    requires
        alike(s, t),
        same_columns(a, b),
    ensures
        alike(s.assigned_names(a), t.assigned_names(b)),
        alike(s.assigned_values(a), t.assigned_values(b)),
    decreases a.len(),
{
    if a.len() > 0 {
        assert forall|i: int| 0 <= i < a.drop_last().len() implies (
        #[trigger] a.drop_last()[i]).column == b.drop_last()[i].column by {
            assert(a[i].column == b[i].column);
        }
        lemma_assigned_alike(s, t, a.drop_last(), b.drop_last());
        assert(a[a.len() - 1].column == b[b.len() - 1].column);
    }
}

/// The values of a statement are sent in the order of its placeholders, each of
/// them once.
pub proof fn a_statement_sends_its_values(statement: StatementView)
    ensures
        statement.sql().params == statement_values(statement),
{
    let s = SqlView::empty();
    match statement {
        StatementView::Upsert { table, values, key, update } => {
            let a = s.lit("INSERT INTO "@).lit(table.spec_name()).lit(" ("@);
            lemma_assigned_names(a, values);
            let b = a.assigned_names(values).lit(") VALUES ("@);
            lemma_assigned_values(b, values);
            let c = b.assigned_values(values).lit(") ON CONFLICT("@);
            lemma_names(c, key);
            let d = c.names(key).lit(") DO UPDATE SET "@);
            lemma_names(d, update);
        },
        StatementView::Update { table, change, filter } => {
            let a = s.lit("UPDATE "@).lit(table.spec_name()).lit(" SET "@).lit(
                change.column.spec_name(),
            ).lit(" = "@).param(change.value);
            lemma_conditions(a, filter);
        },
        StatementView::Delete { table, filter } => {
            lemma_conditions(s.lit("DELETE FROM "@).lit(table.spec_name()), filter);
        },
        StatementView::DeleteBeyond { .. } => {},
    }
    assert(statement.sql().params =~= statement_values(statement));
}

/// The text of a statement does not depend on its values: none of them is part
/// of it.
pub proof fn values_stay_out_of_statements(a: StatementView, b: StatementView)
    requires
        same_statement(a, b),
    ensures
        a.sql().text == b.sql().text,
{
    let s = SqlView::empty();
    match (a, b) {
        (
            StatementView::Upsert { table, values, key, update },
            StatementView::Upsert { values: v, .. },
        ) => {
            let a1 = s.lit("INSERT INTO "@).lit(table.spec_name()).lit(" ("@);
            lemma_assigned_alike(a1, a1, values, v);
            let a2 = a1.assigned_names(values).lit(") VALUES ("@);
            let b2 = a1.assigned_names(v).lit(") VALUES ("@);
            lemma_assigned_alike(a2, b2, values, v);
            let a3 = a2.assigned_values(values).lit(") ON CONFLICT("@);
            let b3 = b2.assigned_values(v).lit(") ON CONFLICT("@);
            lemma_names_alike(a3, b3, key);
            let a4 = a3.names(key).lit(") DO UPDATE SET "@);
            let b4 = b3.names(key).lit(") DO UPDATE SET "@);
            lemma_names_alike(a4, b4, update);
        },
        (
            StatementView::Update { table, change, filter },
            StatementView::Update { change: c, filter: f, .. },
        ) => {
            let head = s.lit("UPDATE "@).lit(table.spec_name()).lit(" SET "@).lit(
                change.column.spec_name(),
            ).lit(" = "@);
            lemma_conditions_alike(head.param(change.value), head.param(c.value), filter, f);
        },
        (StatementView::Delete { table, filter }, StatementView::Delete { filter: f, .. }) => {
            let head = s.lit("DELETE FROM "@).lit(table.spec_name());
            lemma_conditions_alike(head, head, filter, f);
        },
        _ => {},
    }
}

/// The values of a query are sent in the order of its placeholders, each of
/// them once.
pub proof fn a_query_sends_its_values(query: QueryView)
    ensures
        query.sql().params == query_values(query),
{
    let s = SqlView::empty().lit("SELECT "@);
    match query {
        QueryView::Select { table, columns, filter, .. } => {
            lemma_names(s, columns);
            lemma_conditions(s.names(columns).lit(" FROM "@).lit(table.spec_name()), filter);
        },
        QueryView::Count { table, filter } => {
            lemma_conditions(s.lit("COUNT(*) FROM "@).lit(table.spec_name()), filter);
        },
        QueryView::Range { table, column, filter } => {
            lemma_conditions(
                s.lit("MIN("@).lit(column.spec_name()).lit("), MAX("@).lit(column.spec_name()).lit(
                    ") FROM "@,
                ).lit(table.spec_name()),
                filter,
            );
        },
        QueryView::LatestPerGroup { table, column, filter, group, newest_by, .. } => {
            lemma_numbered(
                s.lit(column.spec_name()).lit(" FROM "@).lit(table.spec_name()),
                table,
                filter,
                group,
                newest_by,
            );
        },
        QueryView::Size { .. } => {},
    }
    assert(query.sql().params =~= query_values(query));
}

proof fn lemma_numbered(
    s: SqlView,
    table: Table,
    filter: Seq<ConditionView>,
    group: Column,
    newest_by: Column,
)
    ensures
        s.numbered_rows(table, filter, group, newest_by).params == s.params + condition_values(
            filter,
        ),
{
    lemma_conditions(
        s.lit(" WHERE rowid IN (SELECT rowid FROM (SELECT rowid, "@).lit(
            "ROW_NUMBER() OVER (PARTITION BY "@,
        ).lit(group.spec_name()).lit(" ORDER BY "@).lit(newest_by.spec_name()).lit(
            " DESC) AS rn FROM "@,
        ).lit(table.spec_name()),
        filter,
    );
}

/// The text of a query does not depend on its values: none of them is part of
/// it.
pub proof fn values_stay_out_of_queries(a: QueryView, b: QueryView)
    requires
        same_query(a, b),
    ensures
        a.sql().text == b.sql().text,
{
    let s = SqlView::empty().lit("SELECT "@);
    match (a, b) {
        (
            QueryView::Select { table, columns, filter, .. },
            QueryView::Select { filter: f, .. },
        ) => {
            let head = s.names(columns).lit(" FROM "@).lit(table.spec_name());
            lemma_conditions_alike(head, head, filter, f);
        },
        (QueryView::Count { table, filter }, QueryView::Count { filter: f, .. }) => {
            let head = s.lit("COUNT(*) FROM "@).lit(table.spec_name());
            lemma_conditions_alike(head, head, filter, f);
        },
        (QueryView::Range { table, column, filter }, QueryView::Range { filter: f, .. }) => {
            let head = s.lit("MIN("@).lit(column.spec_name()).lit("), MAX("@).lit(
                column.spec_name(),
            ).lit(") FROM "@).lit(table.spec_name());
            lemma_conditions_alike(head, head, filter, f);
        },
        (
            QueryView::LatestPerGroup { table, column, filter, group, newest_by, .. },
            QueryView::LatestPerGroup { filter: f, .. },
        ) => {
            let head = s.lit(column.spec_name()).lit(" FROM "@).lit(table.spec_name()).lit(
                " WHERE rowid IN (SELECT rowid FROM (SELECT rowid, "@,
            ).lit("ROW_NUMBER() OVER (PARTITION BY "@).lit(group.spec_name()).lit(" ORDER BY "@).lit(
                newest_by.spec_name(),
            ).lit(" DESC) AS rn FROM "@).lit(table.spec_name());
            lemma_conditions_alike(head, head, filter, f);
        },
        _ => {},
    }
}

} // verus!
