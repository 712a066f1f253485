//! What searches for notes find.
use vstd::prelude::*;
use crate::laws::rows::{
    lemma_answer_rows, lemma_arranged, lemma_filter_from, lemma_overwritten, lemma_row_of,
    not_ahead, ordered,
};
use crate::notes::{
    date_conditions, note_upsert, note_values, search_filter, search_query, text_conditions,
};
use crate::records::NoteRecordView;
use crate::sql::{is_text, ConditionView, Order, Test};
use crate::tables::{
    agree, arranged, has_key, keyed, less, limited, meets, projections, row_of, selected, text_less,
    Matching, Row, Tables,
};
use crate::text::{doubled_quotes, quoted};
use crate::value::{optional_text, Cell, Column, Table};

verus! {

/// Whether a text is found by the words of a search: as a phrase where there
/// are three characters or more, by a pattern where there are one or two. No
/// words find everything.
pub open spec fn found_by(text: Cell, query: Seq<char>, m: Matching) -> bool {
    if query.len() == 0 {
        true
    } else if query.len() >= 3 {
        (m.phrase)(text, Cell::Text(quoted(query)))
    } else {
        (m.like)(text, Cell::Text(seq!['%'] + query + seq!['%']))
    }
}

/// Whether a time is not before `since`, where that is given.
pub open spec fn not_before(time: Cell, since: Option<Seq<char>>) -> bool {
    match since {
        Some(d) => less(Cell::Text(d), time) || time == Cell::Text(d),
        None => true,
    }
}

/// Whether a time is not after `until`, where that is given.
pub open spec fn not_after(time: Cell, until: Option<Seq<char>>) -> bool {
    match until {
        Some(d) => less(time, Cell::Text(d)) || time == Cell::Text(d),
        None => true,
    }
}

/// Whether a note is what a search looks for.
pub open spec fn sought(
    row: Row,
    account_id: Seq<char>,
    query: Seq<char>,
    since_date: Option<Seq<char>>,
    until_date: Option<Seq<char>>,
    m: Matching,
) -> bool {
    &&& row[Column::AccountId] == Cell::Text(account_id)
    &&& found_by(row[Column::Text], query, m)
    &&& not_before(row[Column::CreatedAt], since_date)
    &&& not_after(row[Column::CreatedAt], until_date)
}

proof fn lemma_meets_add(
    row: Row,
    a: Seq<ConditionView>,
    b: Seq<ConditionView>,
    m: Matching,
)
    ensures
        meets(row, a + b, m) <==> meets(row, a, m) && meets(row, b, m),
{
    if meets(row, a + b, m) {
        assert forall|i: int| 0 <= i < a.len() implies (#[trigger] a[i]).holds(row, m) by {
            assert((a + b)[i].holds(row, m));
        }
        assert forall|i: int| 0 <= i < b.len() implies (#[trigger] b[i]).holds(row, m) by {
            assert((a + b)[a.len() + i].holds(row, m));
        }
    }
    if meets(row, a, m) && meets(row, b, m) {
        assert forall|i: int| 0 <= i < (a + b).len() implies (#[trigger] (a + b)[i]).holds(
            row,
            m,
        ) by {
            if i < a.len() {
                assert(a[i].holds(row, m));
            } else {
                assert(b[i - a.len()].holds(row, m));
            }
        }
    }
}

proof fn lemma_meets_one(row: Row, c: ConditionView, m: Matching)
    ensures
        meets(row, seq![c], m) <==> c.holds(row, m),
        meets(row, Seq::empty(), m),
{
    let filter = seq![c];
    if meets(row, filter, m) {
        assert(filter[0].holds(row, m));
    }
}

pub(crate) proof fn lemma_sought(
    row: Row,
    account_id: Seq<char>,
    query: Seq<char>,
    since_date: Option<Seq<char>>,
    until_date: Option<Seq<char>>,
    m: Matching,
)
    ensures
        meets(row, search_filter(account_id, query, since_date, until_date), m) <==> sought(
            row,
            account_id,
            query,
            since_date,
            until_date,
            m,
        ),
{
    let a = seq![is_text(Column::AccountId, account_id)];
    let b = text_conditions(query);
    let c = date_conditions(Test::AtLeast, since_date);
    let d = date_conditions(Test::AtMost, until_date);
    lemma_meets_add(row, a + b + c, d, m);
    lemma_meets_add(row, a + b, c, m);
    lemma_meets_add(row, a, b, m);
    lemma_meets_one(row, is_text(Column::AccountId, account_id), m);
    if query.len() > 0 {
        lemma_meets_one(row, b[0], m);
    }
    if since_date is Some {
        lemma_meets_one(row, c[0], m);
    }
    if until_date is Some {
        lemma_meets_one(row, d[0], m);
    }
}

/// A search gives notes of the account that hold the words and were created
/// within the dates, in the order asked for, and no more than were asked for.
/// Where there is room it gives all of them, and where there is not, none that it
/// leaves out comes before one that it gives.
pub proof fn a_search_gives_what_is_sought(
    account_id: Seq<char>,
    query: Seq<char>,
    limit: int,
    since_date: Option<Seq<char>>,
    until_date: Option<Seq<char>>,
    ascending: bool,
    tables: Tables,
    answer: Seq<Seq<Cell>>,
    m: Matching,
) -> (s: Seq<Row>)
    requires
        search_query(account_id, query, limit, since_date, until_date, ascending).answered(
            tables,
            answer,
            m,
        ),
    ensures
        answer == projections(s, seq![Column::NoteJson]),
        forall|i: int|
            0 <= i < s.len() ==> tables[Table::Notes].contains(#[trigger] s[i]) && sought(
                s[i],
                account_id,
                query,
                since_date,
                until_date,
                m,
            ),
        ordered(
            s,
            if ascending {
                Order::Ascending(Column::CreatedAt)
            } else {
                Order::Descending(Column::CreatedAt)
            },
        ),
        limit >= 0 ==> s.len() <= limit,
        limit < 0 || s.len() < limit ==> forall|row: Row|
            tables[Table::Notes].contains(row) && sought(
                row,
                account_id,
                query,
                since_date,
                until_date,
                m,
            ) ==> #[trigger] s.contains(row),
        forall|row: Row|
            tables[Table::Notes].contains(row) && sought(
                row,
                account_id,
                query,
                since_date,
                until_date,
                m,
            ) && !#[trigger] s.contains(row) ==> not_ahead(
                row,
                s,
                if ascending {
                    Order::Ascending(Column::CreatedAt)
                } else {
                    Order::Descending(Column::CreatedAt)
                },
            ),
{
    let order = if ascending {
        Order::Ascending(Column::CreatedAt)
    } else {
        Order::Descending(Column::CreatedAt)
    };
    let filter = search_filter(account_id, query, since_date, until_date);
    let s = lemma_answer_rows(
        Table::Notes,
        seq![Column::NoteJson],
        filter,
        order,
        Some(limit),
        tables,
        answer,
        m,
    );
    assert forall|row: Row| #[trigger] meets(row, filter, m) <==> sought(
        row,
        account_id,
        query,
        since_date,
        until_date,
        m,
    ) by {
        lemma_sought(row, account_id, query, since_date, until_date, m);
    }
    assert forall|row: Row|
        tables[Table::Notes].contains(row) && sought(
            row,
            account_id,
            query,
            since_date,
            until_date,
            m,
        ) implies s.contains(row) || (#[trigger] not_ahead(row, s, order) && s.len() >= limit
        && limit >= 0) by {
        assert(meets(row, filter, m));
    }
    s
}

proof fn lemma_text_total(a: Seq<char>, b: Seq<char>)
    requires
        a != b,
    ensures
        text_less(a, b) || text_less(b, a),
    decreases a.len(),
{
    if a.len() > 0 && b.len() > 0 && a[0] == b[0] {
        if a.drop_first() == b.drop_first() {
            assert(a =~= seq![a[0]] + a.drop_first());
            assert(b =~= seq![b[0]] + b.drop_first());
        }
        lemma_text_total(a.drop_first(), b.drop_first());
    } else if a.len() == 0 && b.len() == 0 {
        assert(a =~= b);
    }
}

proof fn lemma_text_asymmetric(a: Seq<char>, b: Seq<char>)
    ensures
        !(text_less(a, b) && text_less(b, a)),
    decreases a.len(),
{
    if a.len() > 0 && b.len() > 0 {
        lemma_text_asymmetric(a.drop_first(), b.drop_first());
    }
}

/// Whether rows hold texts in a column, each before the next.
spec fn rising(s: Seq<Row>, c: Column) -> bool {
    &&& forall|i: int| 0 <= i < s.len() ==> (#[trigger] s[i])[c] is Text
    &&& forall|i: int, j: int|
        0 <= i < j < s.len() ==> less((#[trigger] s[i])[c], (#[trigger] s[j])[c])
}

proof fn lemma_rising_unique(s: Seq<Row>, t: Seq<Row>, c: Column)
    requires
        rising(s, c),
        rising(t, c),
        s.to_multiset() == t.to_multiset(),
    ensures
        s == t,
    decreases s.len(),
{
    broadcast use vstd::seq_lib::group_to_multiset_ensures;

    assert(s.len() == s.to_multiset().len());
    assert(t.len() == t.to_multiset().len());
    if s.len() > 0 {
        let a = s.last();
        let b = t.last();
        assert(s.contains(a));
        assert(t.contains(b));
        assert(t.to_multiset().count(a) > 0);
        assert(s.to_multiset().count(b) > 0);
        assert(t.contains(a));
        assert(s.contains(b));
        let k = choose|k: int| 0 <= k < t.len() && t[k] == a;
        let l = choose|l: int| 0 <= l < s.len() && s[l] == b;
        if k < t.len() - 1 && l < s.len() - 1 {
            assert(less(t[k][c], t[t.len() - 1][c]));
            assert(less(s[l][c], s[s.len() - 1][c]));
            lemma_text_asymmetric(a[c]->Text_0, b[c]->Text_0);
        }
        assert(a == b);
        assert(s.drop_last().push(a) =~= s);
        assert(t.drop_last().push(a) =~= t);
        assert(s.drop_last().to_multiset() =~= s.to_multiset().remove(a));
        assert(t.drop_last().to_multiset() =~= t.to_multiset().remove(a));
        lemma_rising_unique(s.drop_last(), t.drop_last(), c);
    } else {
        assert(s =~= t);
    }
}

proof fn lemma_arranged_rising(rows: Seq<Row>, s: Seq<Row>, ascending: bool, c: Column)
    requires
        arranged(
            rows,
            if ascending {
                Order::Ascending(c)
            } else {
                Order::Descending(c)
            },
            s,
        ),
        forall|i: int| 0 <= i < rows.len() ==> (#[trigger] rows[i])[c] is Text,
        forall|i: int, j: int|
            0 <= i < j < rows.len() ==> (#[trigger] rows[i])[c] != (#[trigger] rows[j])[c],
    ensures
        ascending ==> rising(s, c),
        !ascending ==> rising(s.reverse(), c),
        s.to_multiset() == rows.to_multiset(),
{
    let order = if ascending {
        Order::Ascending(c)
    } else {
        Order::Descending(c)
    };
    lemma_arranged(rows, order, s);
    assert(rows.no_duplicates()) by {
        assert forall|i: int, j: int|
            0 <= i < rows.len() && 0 <= j < rows.len() && i != j implies rows[i] != rows[j] by {
            if i < j {
                assert(rows[i][c] != rows[j][c]);
            } else {
                assert(rows[j][c] != rows[i][c]);
            }
        }
    }
    rows.lemma_multiset_has_no_duplicates();
    s.lemma_multiset_has_no_duplicates_conv();
    assert forall|i: int| 0 <= i < s.len() implies (#[trigger] s[i])[c] is Text by {
        assert(s.contains(s[i]));
        let k = choose|k: int| 0 <= k < rows.len() && rows[k] == s[i];
        assert(rows[k][c] is Text);
    }
    assert forall|i: int, j: int| 0 <= i < j < s.len() implies if ascending {
        less((#[trigger] s[i])[c], (#[trigger] s[j])[c])
    } else {
        less(s[j][c], s[i][c])
    } by {
        assert(s.contains(s[i]));
        assert(s.contains(s[j]));
        let k = choose|k: int| 0 <= k < rows.len() && rows[k] == s[i];
        let l = choose|l: int| 0 <= l < rows.len() && rows[l] == s[j];
        assert(s[i] != s[j]);
        if k < l {
            assert(rows[k][c] != rows[l][c]);
        } else {
            assert(rows[l][c] != rows[k][c]);
        }
        lemma_text_total(s[i][c]->Text_0, s[j][c]->Text_0);
    }
    if !ascending {
        let t = s.reverse();
        assert forall|i: int, j: int| 0 <= i < j < t.len() implies less(
            (#[trigger] t[i])[c],
            (#[trigger] t[j])[c],
        ) by {
            assert(t[i] == s[s.len() - 1 - i]);
            assert(t[j] == s[s.len() - 1 - j]);
        }
    }
}

/// Where no two notes that are sought were created at one time, and the limit
/// leaves room for all, a search in ascending order gives what the same search
/// in descending order gives, the other way round.
pub proof fn a_search_turns_round(
    account_id: Seq<char>,
    query: Seq<char>,
    limit: int,
    since_date: Option<Seq<char>>,
    until_date: Option<Seq<char>>,
    tables: Tables,
    ascending: Seq<Seq<Cell>>,
    descending: Seq<Seq<Cell>>,
    m: Matching,
)
    requires
        search_query(account_id, query, limit, since_date, until_date, true).answered(
            tables,
            ascending,
            m,
        ),
        search_query(account_id, query, limit, since_date, until_date, false).answered(
            tables,
            descending,
            m,
        ),
        limit < 0 || selected(
            tables[Table::Notes],
            search_filter(account_id, query, since_date, until_date),
            m,
        ).len() <= limit,
        forall|i: int|
            0 <= i < tables[Table::Notes].len() ==> (
            #[trigger] tables[Table::Notes][i])[Column::CreatedAt] is Text,
        forall|i: int, j: int|
            0 <= i < j < tables[Table::Notes].len() && sought(
                tables[Table::Notes][i],
                account_id,
                query,
                since_date,
                until_date,
                m,
            ) && sought(
                tables[Table::Notes][j],
                account_id,
                query,
                since_date,
                until_date,
                m,
            ) ==> (#[trigger] tables[Table::Notes][i])[Column::CreatedAt] != (
            #[trigger] tables[Table::Notes][j])[Column::CreatedAt],
    ensures
        ascending == descending.reverse(),
{
    let c = Column::CreatedAt;
    let columns = seq![Column::NoteJson];
    let table = tables[Table::Notes];
    let filter = search_filter(account_id, query, since_date, until_date);
    let rows = selected(table, filter, m);
    assert forall|row: Row| #[trigger] meets(row, filter, m) <==> sought(
        row,
        account_id,
        query,
        since_date,
        until_date,
        m,
    ) by {
        lemma_sought(row, account_id, query, since_date, until_date, m);
    }
    lemma_filter_differs(table, |row: Row| meets(row, filter, m), c);
    let up = choose|s: Seq<Row>|
        {
            &&& #[trigger] arranged(rows, Order::Ascending(c), s)
            &&& ascending == projections(s.take(limited(Some(limit), s.len()) as int), columns)
        };
    let down = choose|s: Seq<Row>|
        {
            &&& #[trigger] arranged(rows, Order::Descending(c), s)
            &&& descending == projections(s.take(limited(Some(limit), s.len()) as int), columns)
        };
    lemma_arranged(rows, Order::Ascending(c), up);
    lemma_arranged(rows, Order::Descending(c), down);
    lemma_arranged_rising(rows, up, true, c);
    lemma_arranged_rising(rows, down, false, c);
    down.lemma_reverse_to_multiset();
    lemma_rising_unique(up, down.reverse(), c);
    assert(up.take(up.len() as int) =~= up);
    assert(down.take(down.len() as int) =~= down);
    assert(ascending =~= descending.reverse());
}

proof fn lemma_filter_differs(rows: Seq<Row>, p: spec_fn(Row) -> bool, c: Column)
    requires
        forall|i: int| 0 <= i < rows.len() ==> (#[trigger] rows[i])[c] is Text,
        forall|i: int, j: int|
            0 <= i < j < rows.len() && p(rows[i]) && p(rows[j]) ==> (#[trigger] rows[i])[c] != (
            #[trigger] rows[j])[c],
    ensures
        forall|i: int| 0 <= i < rows.filter(p).len() ==> (#[trigger] rows.filter(p)[i])[c] is Text,
        forall|i: int, j: int|
            0 <= i < j < rows.filter(p).len() ==> (#[trigger] rows.filter(p)[i])[c] != (
            #[trigger] rows.filter(p)[j])[c],
    decreases rows.len(),
{
    reveal(Seq::filter);
    if rows.len() > 0 {
        let rest = rows.drop_last();
        let head = rest.filter(p);
        let kept = rows.filter(p);
        assert forall|i: int, j: int|
            0 <= i < j < rest.len() && p(rest[i]) && p(rest[j]) implies (#[trigger] rest[i])[c] != (
        #[trigger] rest[j])[c] by {
            assert(rows[i][c] != rows[j][c]);
        }
        assert forall|i: int| 0 <= i < rest.len() implies (#[trigger] rest[i])[c] is Text by {
            assert(rows[i][c] is Text);
        }
        lemma_filter_differs(rest, p, c);
        assert(rows[rows.len() - 1][c] is Text);
        assert forall|i: int, j: int| 0 <= i < j < kept.len() implies (#[trigger] kept[i])[c] != (
        #[trigger] kept[j])[c] by {
            if j < head.len() {
                assert(head[i][c] != head[j][c]);
            } else {
                lemma_filter_from(rest, p, i);
                let k = choose|k: int| 0 <= k < rest.len() && rest[k] == head[i];
                assert(rows[k][c] != rows[rows.len() - 1][c]);
            }
        }
        assert forall|i: int| 0 <= i < kept.len() implies (#[trigger] kept[i])[c] is Text by {
            if i < head.len() {
                assert(head[i][c] is Text);
            }
        }
    }
}

/// A search goes by the text with which a note was cached last: a note that was
/// edited is found by its new text, and by its old text no longer.
pub proof fn a_search_goes_by_the_last_text(
    note: NoteRecordView,
    timeline_type: Seq<char>,
    now: int,
    before: Tables,
    after: Tables,
    changed: nat,
    query: Seq<char>,
    row: Row,
    m: Matching,
)
    requires
        keyed(before),
        note_upsert(note, timeline_type, now).step(before, after, changed, m),
        after[Table::Notes].contains(row),
        row[Column::NoteId] == Cell::Text(note.id),
        row[Column::AccountId] == Cell::Text(note.account_id),
    ensures
        meets(row, search_filter(note.account_id, query, None, None), m) <==> found_by(
            optional_text(note.text),
            query,
            m,
        ),
{
    let rows = before[Table::Notes];
    let all = after[Table::Notes];
    let values = note_values(note, timeline_type, now);
    let new = row_of(values);
    let key = seq![Column::NoteId, Column::AccountId];
    let update = seq![
        Column::Text,
        Column::NoteJson,
        Column::CachedAt,
        Column::TimelineType,
        Column::Uri,
    ];
    lemma_row_of(values);
    assert(values[0].column == Column::NoteId);
    assert(values[1].column == Column::AccountId);
    assert(values[4].column == Column::Text);
    lemma_sought(row, note.account_id, query, None, None, m);
    let i = choose|i: int| 0 <= i < all.len() && all[i] == row;
    if has_key(rows, new, key) {
        lemma_overwritten(rows[i], new, update, Column::NoteId);
        lemma_overwritten(rows[i], new, update, Column::AccountId);
        lemma_overwritten(rows[i], new, update, Column::Text);
        assert(update[0] == Column::Text);
        assert(update.contains(Column::Text));
        assert(agree(rows[i], new, key));
    } else if i < rows.len() {
        assert(agree(rows[i], new, key));
        assert(false);
    }
}

/// What a reader makes of a phrase behind its opening quote, from left to right:
/// two quotes are one of its characters, and one quote ends it. What is left
/// behind the end comes with it. A phrase that does not end is none.
pub open spec fn phrase_read(t: Seq<char>) -> Option<(Seq<char>, Seq<char>)>
    decreases t.len(),
{
    if t.len() == 0 {
        None
    } else if t[0] == '"' && (t.len() == 1 || t[1] != '"') {
        Some((Seq::empty(), t.skip(1)))
    } else {
        let used: int = if t[0] == '"' {
            2
        } else {
            1
        };
        match phrase_read(t.skip(used)) {
            Some((s, rest)) => Some((seq![t[0]] + s, rest)),
            None => None,
        }
    }
}

proof fn lemma_doubled_first(s: Seq<char>)
    requires
        s.len() > 0,
    ensures
        doubled_quotes(s) == (if s[0] == '"' {
            seq!['"', '"']
        } else {
            seq![s[0]]
        }) + doubled_quotes(s.skip(1)),
    decreases s.len(),
{
    if s.len() == 1 {
        assert(s.drop_last() =~= Seq::<char>::empty());
        assert(s.skip(1) =~= Seq::<char>::empty());
        assert(doubled_quotes(s.drop_last()) =~= Seq::<char>::empty());
        assert(doubled_quotes(s.skip(1)) =~= Seq::<char>::empty());
        assert(doubled_quotes(s) =~= (if s[0] == '"' {
            seq!['"', '"']
        } else {
            seq![s[0]]
        }) + doubled_quotes(s.skip(1)));
    } else {
        lemma_doubled_first(s.drop_last());
        assert(s.drop_last().skip(1) =~= s.skip(1).drop_last());
        assert(doubled_quotes(s) =~= (if s[0] == '"' {
            seq!['"', '"']
        } else {
            seq![s[0]]
        }) + doubled_quotes(s.skip(1)));
    }
}

proof fn lemma_phrase_read(s: Seq<char>)
    ensures
        phrase_read(doubled_quotes(s) + seq!['"']) == Some((s, Seq::<char>::empty())),
    decreases s.len(),
{
    let t = doubled_quotes(s) + seq!['"'];
    if s.len() == 0 {
        assert(t =~= seq!['"']);
        assert(t.skip(1) =~= Seq::<char>::empty());
        assert(s =~= Seq::<char>::empty());
    } else {
        lemma_doubled_first(s);
        lemma_phrase_read(s.skip(1));
        let used: int = if s[0] == '"' {
            2
        } else {
            1
        };
        assert(t.skip(used) =~= doubled_quotes(s.skip(1)) + seq!['"']);
        assert(seq![s[0]] + s.skip(1) =~= s);
    }
}

/// The words of a search mean themselves: the phrase that they are quoted as
/// opens with a quote, reads as the words, and ends where the text ends.
pub proof fn quoted_words_mean_themselves(s: Seq<char>)
    ensures
        quoted(s)[0] == '"',
        phrase_read(quoted(s).skip(1)) == Some((s, Seq::<char>::empty())),
{
    lemma_phrase_read(s);
    assert(quoted(s).skip(1) =~= doubled_quotes(s) + seq!['"']);
}

} // verus!
