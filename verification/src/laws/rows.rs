//! Facts about rows on which the laws rest.
use vstd::prelude::*;
use crate::sql::{is_text, AssignmentView, ConditionView, Order, QueryView, StatementView};
use crate::tables::{
    agree, arranged, distinct, has_key, less, limited, meets, overwritten, projected, projections,
    row_of, runs, selected, unselected, upserted, Matching, Row, Tables,
};
use crate::value::{Cell, Column, Table};

verus! {

/// Where nothing passes, nothing is left.
pub(crate) proof fn lemma_filter_nothing<T>(s: Seq<T>, p: spec_fn(T) -> bool)
    requires
        forall|i: int| 0 <= i < s.len() ==> !p(#[trigger] s[i]),
    ensures
        s.filter(p) == Seq::<T>::empty(),
    decreases s.len(),
{
    reveal(Seq::filter);
    if s.len() > 0 {
        lemma_filter_nothing(s.drop_last(), p);
        assert(!p(s[s.len() - 1]));
    }
}

/// Where everything passes, everything is left.
pub(crate) proof fn lemma_filter_everything<T>(s: Seq<T>, p: spec_fn(T) -> bool)
    requires
        forall|i: int| 0 <= i < s.len() ==> p(#[trigger] s[i]),
    ensures
        s.filter(p) == s,
    decreases s.len(),
{
    reveal(Seq::filter);
    if s.len() > 0 {
        lemma_filter_everything(s.drop_last(), p);
        assert(p(s[s.len() - 1]));
        assert(s.drop_last().push(s.last()) =~= s);
    }
}

/// Where one item passes, it is what is left.
pub(crate) proof fn lemma_filter_one<T>(s: Seq<T>, p: spec_fn(T) -> bool, at: int)
    requires
        0 <= at < s.len(),
        forall|i: int| 0 <= i < s.len() ==> (p(#[trigger] s[i]) <==> i == at),
    ensures
        s.filter(p) == seq![s[at]],
    decreases s.len(),
{
    reveal(Seq::filter);
    assert(p(s[s.len() - 1]) <==> s.len() - 1 == at);
    if at == s.len() - 1 {
        lemma_filter_nothing(s.drop_last(), p);
        assert(Seq::<T>::empty().push(s[at]) =~= seq![s[at]]);
    } else {
        lemma_filter_one(s.drop_last(), p, at);
    }
}

/// Filters that agree on the items leave the same.
pub(crate) proof fn lemma_filter_same<T>(s: Seq<T>, p: spec_fn(T) -> bool, q: spec_fn(T) -> bool)
    requires
        forall|i: int| 0 <= i < s.len() ==> p(#[trigger] s[i]) == q(s[i]),
    ensures
        s.filter(p) == s.filter(q),
    decreases s.len(),
{
    reveal(Seq::filter);
    if s.len() > 0 {
        lemma_filter_same(s.drop_last(), p, q);
        assert(p(s[s.len() - 1]) == q(s[s.len() - 1]));
    }
}

/// To filter twice is to filter by both.
pub(crate) proof fn lemma_filter_twice<T>(
    s: Seq<T>,
    p: spec_fn(T) -> bool,
    q: spec_fn(T) -> bool,
    both: spec_fn(T) -> bool,
)
    requires
        forall|i: int| 0 <= i < s.len() ==> both(#[trigger] s[i]) == (p(s[i]) && q(s[i])),
    ensures
        s.filter(p).filter(q) == s.filter(both),
    decreases s.len(),
{
    reveal(Seq::filter);
    if s.len() > 0 {
        lemma_filter_twice(s.drop_last(), p, q, both);
        assert(both(s[s.len() - 1]) == (p(s.last()) && q(s.last())));
        let kept = s.drop_last().filter(p);
        if p(s.last()) {
            assert(kept.push(s.last()).drop_last() =~= kept);
        }
    }
}

/// What passes and what does not make up the whole.
pub(crate) proof fn lemma_filter_split<T>(s: Seq<T>, p: spec_fn(T) -> bool)
    ensures
        s.filter(p).len() + s.filter(|x: T| !p(x)).len() == s.len(),
    decreases s.len(),
{
    reveal(Seq::filter);
    if s.len() > 0 {
        lemma_filter_split(s.drop_last(), p);
    }
}

/// What is left stood there before and passes.
pub(crate) proof fn lemma_filter_from<T>(s: Seq<T>, p: spec_fn(T) -> bool, i: int)
    requires
        0 <= i < s.filter(p).len(),
    ensures
        p(s.filter(p)[i]),
        exists|k: int| 0 <= k < s.len() && s[k] == s.filter(p)[i],
    decreases s.len(),
{
    reveal(Seq::filter);
    if i < s.drop_last().filter(p).len() {
        lemma_filter_from(s.drop_last(), p, i);
        let k = choose|k: int|
            0 <= k < s.drop_last().len() && s.drop_last()[k] == s.drop_last().filter(p)[i];
        assert(s[k] == s.filter(p)[i]);
    } else {
        assert(s[s.len() - 1] == s.filter(p)[i]);
    }
}

/// What stood there and passes is left.
pub(crate) proof fn lemma_filter_keeps<T>(s: Seq<T>, p: spec_fn(T) -> bool, k: int)
    requires
        0 <= k < s.len(),
        p(s[k]),
    ensures
        exists|i: int| 0 <= i < s.filter(p).len() && s.filter(p)[i] == s[k],
    decreases s.len(),
{
    reveal(Seq::filter);
    let out = s.filter(p);
    if k == s.len() - 1 {
        assert(out[out.len() - 1] == s[k]);
    } else {
        let rest = s.drop_last();
        lemma_filter_keeps(rest, p, k);
        let i = choose|i: int| 0 <= i < rest.filter(p).len() && rest.filter(p)[i] == rest[k];
        assert(out[i] == s[k]);
    }
}

/// What is left has one row for each key where the whole has.
pub(crate) proof fn lemma_filter_distinct(rows: Seq<Row>, p: spec_fn(Row) -> bool, key: Seq<Column>)
    requires
        distinct(rows, key),
    ensures
        distinct(rows.filter(p), key),
    decreases rows.len(),
{
    reveal(Seq::filter);
    if rows.len() > 0 {
        let rest = rows.drop_last();
        assert forall|i: int, j: int| 0 <= i < j < rest.len() implies !agree(
            #[trigger] rest[i],
            #[trigger] rest[j],
            key,
        ) by {
            assert(!agree(rows[i], rows[j], key));
        }
        lemma_filter_distinct(rest, p, key);
        let kept = rows.filter(p);
        assert forall|i: int, j: int| 0 <= i < j < kept.len() implies !agree(
            #[trigger] kept[i],
            #[trigger] kept[j],
            key,
        ) by {
            let head = rest.filter(p);
            if j < head.len() {
                assert(!agree(head[i], head[j], key));
            } else {
                lemma_filter_from(rest, p, i);
                let k = choose|k: int| 0 <= k < rest.len() && rest[k] == head[i];
                assert(!agree(rows[k], rows[rows.len() - 1], key));
            }
        }
    }
}

/// A column holds the last value assigned to it, and here only one is.
pub(crate) proof fn lemma_row_of(values: Seq<AssignmentView>)
    requires
        forall|i: int, j: int|
            0 <= i < j < values.len() ==> (#[trigger] values[i]).column != (
            #[trigger] values[j]).column,
    ensures
        forall|i: int|
            0 <= i < values.len() ==> row_of(values)[(#[trigger] values[i]).column]
                == values[i].value,
    decreases values.len(),
{
    if values.len() > 0 {
        lemma_row_of(values.drop_last());
        assert forall|i: int| 0 <= i < values.len() implies row_of(values)[(
        #[trigger] values[i]).column] == values[i].value by {
            if i < values.len() - 1 {
                assert(values.drop_last()[i] == values[i]);
                assert(values[i].column != values[values.len() - 1].column);
            }
        }
    }
}

/// The overwritten columns are the new ones, and the others stay.
pub(crate) proof fn lemma_overwritten(row: Row, new: Row, columns: Seq<Column>, c: Column)
    ensures
        columns.contains(c) ==> overwritten(row, new, columns)[c] == new[c],
        !columns.contains(c) ==> overwritten(row, new, columns)[c] == row[c],
    decreases columns.len(),
{
    if columns.len() > 0 {
        let rest = columns.drop_last();
        lemma_overwritten(row, new, rest, c);
        if columns.contains(c) {
            if c != columns.last() {
                let i = choose|i: int| 0 <= i < columns.len() && columns[i] == c;
                assert(rest[i] == c);
            }
        } else {
            assert(columns[columns.len() - 1] != c);
            if rest.contains(c) {
                let i = choose|i: int| 0 <= i < rest.len() && rest[i] == c;
                assert(columns[i] == c);
            }
        }
    }
}

/// A row whose key stays agrees with the same rows as before.
pub(crate) proof fn lemma_overwritten_agrees(
    row: Row,
    new: Row,
    update: Seq<Column>,
    other: Row,
    key: Seq<Column>,
)
    requires
        forall|i: int| 0 <= i < key.len() ==> !update.contains(#[trigger] key[i]),
    ensures
        agree(overwritten(row, new, update), other, key) == agree(row, other, key),
{
    assert forall|i: int| 0 <= i < key.len() implies overwritten(row, new, update)[
    #[trigger] key[i]] == row[key[i]] by {
        lemma_overwritten(row, new, update, key[i]);
    }
    if agree(overwritten(row, new, update), other, key) {
        assert forall|i: int| 0 <= i < key.len() implies row[#[trigger] key[i]] == other[key[i]] by {
            assert(overwritten(row, new, update)[key[i]] == other[key[i]]);
        }
    }
    if agree(row, other, key) {
        assert forall|i: int| 0 <= i < key.len() implies overwritten(row, new, update)[
        #[trigger] key[i]] == other[key[i]] by {
            assert(row[key[i]] == other[key[i]]);
        }
    }
}

/// At most one row has a key.
pub(crate) proof fn lemma_one_per_key(rows: Seq<Row>, new: Row, key: Seq<Column>, i: int, j: int)
    requires
        distinct(rows, key),
        0 <= i < rows.len(),
        0 <= j < rows.len(),
        agree(rows[i], new, key),
        agree(rows[j], new, key),
    ensures
        i == j,
{
    assert forall|k: int| 0 <= k < key.len() implies rows[i][#[trigger] key[k]]
        == rows[j][key[k]] && rows[j][key[k]] == rows[i][key[k]] by {
        assert(rows[i][key[k]] == new[key[k]]);
        assert(rows[j][key[k]] == new[key[k]]);
    }
    assert(agree(rows[i], rows[j], key));
    assert(agree(rows[j], rows[i], key));
}

/// Writing by a key leaves one row for each key.
pub(crate) proof fn lemma_upserted_distinct(
    rows: Seq<Row>,
    new: Row,
    key: Seq<Column>,
    update: Seq<Column>,
)
    requires
        distinct(rows, key),
        forall|i: int| 0 <= i < key.len() ==> !update.contains(#[trigger] key[i]),
    ensures
        distinct(upserted(rows, new, key, update), key),
{
    let after = upserted(rows, new, key, update);
    assert forall|i: int, j: int| 0 <= i < j < after.len() implies !agree(
        #[trigger] after[i],
        #[trigger] after[j],
        key,
    ) by {
        if has_key(rows, new, key) {
            let a = rows[i];
            let b = rows[j];
            assert(!agree(a, b, key));
            lemma_overwritten_agrees(a, new, update, b, key);
            lemma_overwritten_agrees(b, new, update, a, key);
            lemma_overwritten_agrees(b, new, update, after[i], key);
            if agree(after[i], after[j], key) {
                assert forall|k: int| 0 <= k < key.len() implies a[#[trigger] key[k]]
                    == b[key[k]] by {
                    lemma_overwritten(a, new, update, key[k]);
                    lemma_overwritten(b, new, update, key[k]);
                    assert(after[i][key[k]] == after[j][key[k]]);
                }
            }
        } else if j == rows.len() {
            assert(!agree(rows[i], new, key));
        } else {
            assert(!agree(rows[i], rows[j], key));
        }
    }
}

/// The row that is found by its key after it was written: the one that had the
/// key, overwritten, or the new one.
pub(crate) proof fn lemma_upserted_found(
    rows: Seq<Row>,
    new: Row,
    key: Seq<Column>,
    update: Seq<Column>,
    filter: Seq<ConditionView>,
    m: Matching,
)
    requires
        distinct(rows, key),
        forall|i: int| 0 <= i < key.len() ==> !update.contains(#[trigger] key[i]),
        forall|row: Row| #[trigger] meets(row, filter, m) <==> agree(row, new, key),
    ensures
        has_key(rows, new, key) ==> selected(rows, filter, m).len() == 1 && selected(
            upserted(rows, new, key, update),
            filter,
            m,
        ) == seq![overwritten(selected(rows, filter, m)[0], new, update)],
        !has_key(rows, new, key) ==> selected(rows, filter, m) == Seq::<Row>::empty() && selected(
            upserted(rows, new, key, update),
            filter,
            m,
        ) == seq![new],
{
    let after = upserted(rows, new, key, update);
    let p = |row: Row| meets(row, filter, m);
    if has_key(rows, new, key) {
        let at = choose|i: int| 0 <= i < rows.len() && agree(#[trigger] rows[i], new, key);
        assert forall|i: int| 0 <= i < rows.len() implies (p(#[trigger] rows[i]) <==> i == at) by {
            if agree(rows[i], new, key) {
                lemma_one_per_key(rows, new, key, i, at);
            }
        }
        lemma_filter_one(rows, p, at);
        assert forall|i: int| 0 <= i < after.len() implies (p(#[trigger] after[i]) <==> i == at) by {
            lemma_overwritten_agrees(rows[i], new, update, new, key);
            assert(p(rows[i]) <==> i == at);
        }
        lemma_filter_one(after, p, at);
    } else {
        assert forall|i: int| 0 <= i < rows.len() implies !p(#[trigger] rows[i]) by {
            assert(!agree(rows[i], new, key));
        }
        lemma_filter_nothing(rows, p);
        assert forall|i: int| 0 <= i < after.len() implies (p(#[trigger] after[i]) <==> i
            == rows.len()) by {
            if i < rows.len() {
                assert(!p(rows[i]));
            } else {
                assert(agree(new, new, key));
            }
        }
        lemma_filter_one(after, p, rows.len() as int);
    }
}

/// Rows in some order are as many as before, and the same.
pub(crate) proof fn lemma_arranged(rows: Seq<Row>, order: Order, s: Seq<Row>)
    requires
        arranged(rows, order, s),
    ensures
        s.len() == rows.len(),
        forall|row: Row| #[trigger] s.contains(row) == rows.contains(row),
{
    broadcast use vstd::seq_lib::group_to_multiset_ensures;

    assert(s.to_multiset() == rows.to_multiset());
    assert(s.len() == s.to_multiset().len());
    assert(rows.len() == rows.to_multiset().len());
    assert forall|row: Row| #[trigger] s.contains(row) == rows.contains(row) by {
        assert(s.contains(row) <==> s.to_multiset().count(row) > 0);
        assert(rows.contains(row) <==> rows.to_multiset().count(row) > 0);
    }
}

/// One row has one order.
pub(crate) proof fn lemma_arranged_one(row: Row, order: Order, s: Seq<Row>)
    requires
        arranged(seq![row], order, s),
    ensures
        s == seq![row],
{
    lemma_arranged(seq![row], order, s);
    assert(s.contains(s[0]));
    assert(seq![row].contains(s[0]));
    assert(s =~= seq![row]);
}

/// No rows have one order.
pub(crate) proof fn lemma_arranged_none(order: Order, s: Seq<Row>)
    requires
        arranged(Seq::empty(), order, s),
    ensures
        s == Seq::<Row>::empty(),
{
    lemma_arranged(Seq::empty(), order, s);
}

/// Without conditions all rows are selected.
pub(crate) proof fn lemma_select_all(rows: Seq<Row>, m: Matching)
    ensures
        selected(rows, Seq::empty(), m) == rows,
        unselected(rows, Seq::empty(), m) == Seq::<Row>::empty(),
{
    lemma_filter_everything(rows, |row: Row| meets(row, Seq::empty(), m));
    lemma_filter_nothing(rows, |row: Row| !meets(row, Seq::empty(), m));
}

/// A row meets one condition on a text where it holds the text.
pub(crate) proof fn lemma_meets_text(row: Row, column: Column, s: Seq<char>, m: Matching)
    ensures
        meets(row, seq![is_text(column, s)], m) <==> row[column] == Cell::Text(s),
{
    let filter = seq![is_text(column, s)];
    if meets(row, filter, m) {
        assert(filter[0].holds(row, m));
    }
}

/// What a condition on a text leaves out are the rows that hold another.
pub(crate) proof fn lemma_unselected(rows: Seq<Row>, column: Column, s: Seq<char>, m: Matching)
    ensures
        unselected(rows, seq![is_text(column, s)], m) == rows.filter(
            |row: Row| row[column] != Cell::Text(s),
        ),
        selected(rows, seq![is_text(column, s)], m) == rows.filter(
            |row: Row| row[column] == Cell::Text(s),
        ),
{
    let filter = seq![is_text(column, s)];
    assert forall|i: int| 0 <= i < rows.len() implies meets(#[trigger] rows[i], filter, m) == (
    rows[i][column] == Cell::Text(s)) by {
        lemma_meets_text(rows[i], column, s, m);
    }
    lemma_filter_same(
        rows,
        |row: Row| !meets(row, filter, m),
        |row: Row| row[column] != Cell::Text(s),
    );
    lemma_filter_same(
        rows,
        |row: Row| meets(row, filter, m),
        |row: Row| row[column] == Cell::Text(s),
    );
}

/// One statement runs as one step.
pub(crate) proof fn lemma_runs_one(
    a: StatementView,
    before: Tables,
    after: Tables,
    changed: Seq<nat>,
    m: Matching,
)
    requires
        runs(seq![a], before, after, changed, m),
    ensures
        changed.len() == 1,
        a.step(before, after, changed[0], m),
{
    let batch = seq![a];
    let middle = choose|middle: Tables|
        {
            &&& runs(batch.drop_last(), before, middle, changed.drop_last(), m)
            &&& #[trigger] batch.last().step(middle, after, changed.last(), m)
        };
    assert(batch.drop_last() =~= Seq::<StatementView>::empty());
}

/// Two statements run as two steps.
pub(crate) proof fn lemma_runs_two(
    a: StatementView,
    b: StatementView,
    before: Tables,
    after: Tables,
    changed: Seq<nat>,
    m: Matching,
) -> (middle: Tables)
    requires
        runs(seq![a, b], before, after, changed, m),
    ensures
        changed.len() == 2,
        a.step(before, middle, changed[0], m),
        b.step(middle, after, changed[1], m),
{
    let batch = seq![a, b];
    let middle = choose|middle: Tables|
        {
            &&& runs(batch.drop_last(), before, middle, changed.drop_last(), m)
            &&& #[trigger] batch.last().step(middle, after, changed.last(), m)
        };
    assert(batch.drop_last() =~= seq![a]);
    lemma_runs_one(a, before, middle, changed.drop_last(), m);
    middle
}

/// Three statements run as three steps.
pub(crate) proof fn lemma_runs_three(
    a: StatementView,
    b: StatementView,
    c: StatementView,
    before: Tables,
    after: Tables,
    changed: Seq<nat>,
    m: Matching,
) -> (middle: (Tables, Tables))
    requires
        runs(seq![a, b, c], before, after, changed, m),
    ensures
        changed.len() == 3,
        a.step(before, middle.0, changed[0], m),
        b.step(middle.0, middle.1, changed[1], m),
        c.step(middle.1, after, changed[2], m),
{
    let batch = seq![a, b, c];
    let second = choose|middle: Tables|
        {
            &&& runs(batch.drop_last(), before, middle, changed.drop_last(), m)
            &&& #[trigger] batch.last().step(middle, after, changed.last(), m)
        };
    assert(batch.drop_last() =~= seq![a, b]);
    let first = lemma_runs_two(a, b, before, second, changed.drop_last(), m);
    (first, second)
}

/// Whether rows stand in the given order.
pub open spec fn ordered(s: Seq<Row>, order: Order) -> bool {
    match order {
        Order::Unordered => true,
        Order::Written => true,
        Order::Ascending(c) => forall|i: int, j: int|
            0 <= i < j < s.len() ==> !less((#[trigger] s[j])[c], (#[trigger] s[i])[c]),
        Order::Descending(c) => forall|i: int, j: int|
            0 <= i < j < s.len() ==> !less((#[trigger] s[i])[c], (#[trigger] s[j])[c]),
    }
}

/// Whether a row comes before none of `s` in the given order.
pub open spec fn not_ahead(row: Row, s: Seq<Row>, order: Order) -> bool {
    match order {
        Order::Unordered => true,
        Order::Written => true,
        Order::Ascending(c) => forall|i: int|
            0 <= i < s.len() ==> !less(row[c], (#[trigger] s[i])[c]),
        Order::Descending(c) => forall|i: int|
            0 <= i < s.len() ==> !less((#[trigger] s[i])[c], row[c]),
    }
}

/// The rows behind an answer: they are rows of the table, each meets the
/// conditions, they stand in order, and there are no more of them than the
/// limit says. Where the limit leaves room, no row that meets the conditions is
/// missing, and where it does not, none that is missing comes before one that is
/// there.
pub(crate) proof fn lemma_answer_rows(
    table: Table,
    columns: Seq<Column>,
    filter: Seq<ConditionView>,
    order: Order,
    limit: Option<int>,
    tables: Tables,
    answer: Seq<Seq<Cell>>,
    m: Matching,
) -> (s: Seq<Row>)
    requires
        (QueryView::Select { table, columns, filter, order, limit }).answered(tables, answer, m),
    ensures
        answer == projections(s, columns),
        s.len() == limited(limit, selected(tables[table], filter, m).len()),
        forall|i: int|
            0 <= i < s.len() ==> tables[table].contains(#[trigger] s[i]) && meets(
                s[i],
                filter,
                m,
            ),
        ordered(s, order),
        limit is None || limit->0 < 0 || s.len() < limit->0 ==> forall|row: Row|
            tables[table].contains(row) && meets(row, filter, m) ==> #[trigger] s.contains(row),
        forall|row: Row|
            tables[table].contains(row) && meets(row, filter, m) && !#[trigger] s.contains(row)
                ==> not_ahead(row, s, order),
{
    let rows = selected(tables[table], filter, m);
    let p = |row: Row| meets(row, filter, m);
    let all = choose|s: Seq<Row>|
        {
            &&& #[trigger] arranged(rows, order, s)
            &&& answer == projections(s.take(limited(limit, s.len()) as int), columns)
        };
    lemma_arranged(rows, order, all);
    let n = limited(limit, all.len()) as int;
    let s = all.take(n);
    assert forall|i: int| 0 <= i < s.len() implies tables[table].contains(#[trigger] s[i])
        && meets(s[i], filter, m) by {
        assert(all.contains(all[i]));
        assert(rows.contains(all[i]));
        let k = choose|k: int| 0 <= k < rows.len() && rows[k] == all[i];
        lemma_filter_from(tables[table], p, k);
    }
    assert forall|row: Row|
        tables[table].contains(row) && meets(row, filter, m) implies #[trigger] all.contains(
        row,
    ) by {
        let k = choose|k: int| 0 <= k < tables[table].len() && tables[table][k] == row;
        lemma_filter_keeps(tables[table], p, k);
        let i = choose|i: int| 0 <= i < rows.len() && rows[i] == row;
        assert(rows.contains(row));
    }
    if limit is None || limit->0 < 0 || s.len() < limit->0 {
        assert(s =~= all);
    }
    assert forall|row: Row|
        tables[table].contains(row) && meets(row, filter, m) && !#[trigger] s.contains(
            row,
        ) implies not_ahead(row, s, order) by {
        assert(all.contains(row));
        let j = choose|j: int| 0 <= j < all.len() && all[j] == row;
        if j < n {
            assert(s[j] == row);
        }
        assert forall|i: int| 0 <= i < s.len() implies s[i] == #[trigger] all[i] && i < j by {}
    }
    s
}

/// A row is answered where the rows behind the answer hold it.
pub(crate) proof fn lemma_answer_contains(
    s: Seq<Row>,
    columns: Seq<Column>,
    answer: Seq<Seq<Cell>>,
    row: Row,
)
    requires
        answer == projections(s, columns),
        s.contains(row),
    ensures
        answer.contains(projected(row, columns)),
{
    let i = choose|i: int| 0 <= i < s.len() && s[i] == row;
    assert(answer[i] == projected(row, columns));
}

/// The row that stands in the table after it was written by its key, and what
/// it holds in a column.
pub(crate) proof fn lemma_upserted_row(
    rows: Seq<Row>,
    new: Row,
    key: Seq<Column>,
    update: Seq<Column>,
) -> (row: Row)
    ensures
        upserted(rows, new, key, update).contains(row),
        forall|c: Column| update.contains(c) || key.contains(c) ==> row[c] == #[trigger] new[c],
        !has_key(rows, new, key) ==> row == new,
{
    let after = upserted(rows, new, key, update);
    if has_key(rows, new, key) {
        let at = choose|i: int| 0 <= i < rows.len() && agree(#[trigger] rows[i], new, key);
        let row = overwritten(rows[at], new, update);
        assert(after[at] == row);
        assert forall|c: Column| update.contains(c) || key.contains(c) implies row[c]
            == #[trigger] new[c] by {
            lemma_overwritten(rows[at], new, update, c);
            if key.contains(c) {
                let k = choose|k: int| 0 <= k < key.len() && key[k] == c;
                assert(rows[at][key[k]] == new[key[k]]);
            }
        }
        row
    } else {
        assert(after[rows.len() as int] == new);
        new
    }
}

/// Rows with another key stay when one is written.
pub(crate) proof fn lemma_upserted_others(
    rows: Seq<Row>,
    new: Row,
    key: Seq<Column>,
    update: Seq<Column>,
    row: Row,
)
    requires
        rows.contains(row),
        !agree(row, new, key),
    ensures
        upserted(rows, new, key, update).contains(row),
{
    let i = choose|i: int| 0 <= i < rows.len() && rows[i] == row;
    assert(upserted(rows, new, key, update)[i] == row);
}

/// Where items that change do not pass, neither before nor after, what passes is
/// the same.
pub(crate) proof fn lemma_map_filter<T>(s: Seq<T>, f: spec_fn(T) -> T, p: spec_fn(T) -> bool)
    requires
        forall|i: int|
            0 <= i < s.len() ==> f(#[trigger] s[i]) == s[i] || (!p(s[i]) && !p(f(s[i]))),
    ensures
        s.map_values(f).filter(p) == s.filter(p),
    decreases s.len(),
{
    reveal(Seq::filter);
    if s.len() > 0 {
        lemma_map_filter(s.drop_last(), f, p);
        assert(s.map_values(f).drop_last() =~= s.drop_last().map_values(f));
        assert(f(s[s.len() - 1]) == s.last() || (!p(s.last()) && !p(f(s.last()))));
    }
}

/// Writing a row by its key changes nothing of the rows with other keys.
pub(crate) proof fn lemma_upserted_filter(
    rows: Seq<Row>,
    new: Row,
    key: Seq<Column>,
    update: Seq<Column>,
    p: spec_fn(Row) -> bool,
)
    requires
        forall|i: int| 0 <= i < key.len() ==> !update.contains(#[trigger] key[i]),
        forall|row: Row| #[trigger] agree(row, new, key) ==> !p(row),
    ensures
        upserted(rows, new, key, update).filter(p) == rows.filter(p),
{
    if has_key(rows, new, key) {
        let f = |row: Row|
            if agree(row, new, key) {
                overwritten(row, new, update)
            } else {
                row
            };
        assert forall|i: int| 0 <= i < rows.len() implies f(#[trigger] rows[i]) == rows[i] || (!p(
            rows[i],
        ) && !p(f(rows[i]))) by {
            lemma_overwritten_agrees(rows[i], new, update, new, key);
        }
        lemma_map_filter(rows, f, p);
        assert(upserted(rows, new, key, update) =~= rows.map_values(f));
    } else {
        assert(agree(new, new, key));
        reveal(Seq::filter);
        assert(rows.push(new).drop_last() =~= rows);
    }
}

/// One selected row is the answer, whatever the order.
pub(crate) proof fn lemma_one_answered(
    query: QueryView,
    row: Row,
    tables: Tables,
    answer: Seq<Seq<Cell>>,
    m: Matching,
)
    requires
        query matches QueryView::Select { table, columns, filter, order, limit } && limit is None
            && selected(tables[table], filter, m) == seq![row],
        query.answered(tables, answer, m),
    ensures
        answer == seq![projected(row, query->Select_columns)],
{
    match query {
        QueryView::Select { table, columns, filter, order, limit } => {
            let s = choose|s: Seq<Row>|
                {
                    &&& #[trigger] arranged(selected(tables[table], filter, m), order, s)
                    &&& answer == projections(s.take(limited(limit, s.len()) as int), columns)
                };
            lemma_arranged_one(row, order, s);
            assert(answer =~= seq![projected(row, columns)]);
        },
        _ => {},
    }
}

/// Where no row is selected, none is answered.
pub(crate) proof fn lemma_none_answered(
    query: QueryView,
    tables: Tables,
    answer: Seq<Seq<Cell>>,
    m: Matching,
)
    requires
        query matches QueryView::Select { table, columns, filter, order, limit } && selected(
            tables[table],
            filter,
            m,
        ) == Seq::<Row>::empty(),
        query.answered(tables, answer, m),
    ensures
        answer == Seq::<Seq<Cell>>::empty(),
{
    match query {
        QueryView::Select { table, columns, filter, order, limit } => {
            let s = choose|s: Seq<Row>|
                {
                    &&& #[trigger] arranged(selected(tables[table], filter, m), order, s)
                    &&& answer == projections(s.take(limited(limit, s.len()) as int), columns)
                };
            lemma_arranged_none(order, s);
            assert(answer =~= Seq::<Seq<Cell>>::empty());
        },
        _ => {},
    }
}

} // verus!
