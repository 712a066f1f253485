//! What is cached of notes is what is found of them.
use vstd::prelude::*;
use crate::accounts::deletion_by;
use crate::decode::complete;
use crate::error::DatabaseErrorView;
use crate::laws::keys::{respects_key, runs_keep_keys};
use crate::laws::rows::{
    lemma_answer_contains, lemma_answer_rows, lemma_filter_from, lemma_filter_keeps,
    lemma_filter_nothing, lemma_filter_one, lemma_filter_twice, lemma_meets_text, lemma_one_per_key,
    lemma_overwritten, lemma_row_of, lemma_select_all, lemma_unselected, lemma_upserted_filter,
    lemma_upserted_others, lemma_upserted_row, not_ahead, ordered,
};
use crate::notes::{date_range, note_query, note_upsert, note_values, on_timeline, text_or_empty};
use crate::records::NoteRecordView;
use crate::sql::{is_text, ConditionView, Order, QueryView, StatementView, Test};
use crate::tables::{
    agree, distinct, has_key, key_of, keyed, less, meets, present, projected, projections, row_of,
    runs, selected, transacted, upserted, Matching, Row, Tables,
};
use crate::value::{optional_text, Cell, Column, Table};

verus! {

/// The query for a timeline.
pub open spec fn timeline(
    account_id: Seq<char>,
    timeline_type: Seq<char>,
    limit: int,
) -> QueryView {
    note_query(
        on_timeline(account_id, timeline_type),
        Order::Descending(Column::CreatedAt),
        Some(limit),
    )
}

/// The query for the part of a timeline up to a time.
pub open spec fn timeline_before(
    account_id: Seq<char>,
    timeline_type: Seq<char>,
    before: Seq<char>,
    limit: int,
) -> QueryView {
    note_query(
        on_timeline(account_id, timeline_type).push(
            ConditionView {
                column: Column::CreatedAt,
                test: Test::AtMost,
                value: Cell::Text(before),
            },
        ),
        Order::Descending(Column::CreatedAt),
        Some(limit),
    )
}

/// The query for the first and the last time on a timeline.
pub open spec fn timeline_range(account_id: Seq<char>, timeline_type: Seq<char>) -> QueryView {
    QueryView::Range {
        table: Table::Notes,
        column: Column::CreatedAt,
        filter: on_timeline(account_id, timeline_type),
    }
}

/// Whether a row is a note on a timeline of an account.
pub open spec fn is_on_timeline(
    row: Row,
    account_id: Seq<char>,
    timeline_type: Seq<char>,
) -> bool {
    row[Column::AccountId] == Cell::Text(account_id) && row[Column::TimelineType] == Cell::Text(
        timeline_type,
    )
}

spec fn key() -> Seq<Column> {
    seq![Column::NoteId, Column::AccountId]
}

spec fn update() -> Seq<Column> {
    seq![
        Column::Text,
        Column::NoteJson,
        Column::CachedAt,
        Column::TimelineType,
        Column::Uri,
    ]
}

proof fn lemma_note_row(note: NoteRecordView, timeline_type: Seq<char>, now: int)
    ensures
        ({
            let row = row_of(note_values(note, timeline_type, now));
            &&& row[Column::NoteId] == Cell::Text(note.id)
            &&& row[Column::AccountId] == Cell::Text(note.account_id)
            &&& row[Column::ServerHost] == Cell::Text(note.server_host)
            &&& row[Column::CreatedAt] == Cell::Text(note.created_at)
            &&& row[Column::Text] == optional_text(note.text)
            &&& row[Column::NoteJson] == Cell::Text(text_or_empty(note.json))
            &&& row[Column::CachedAt] == Cell::Integer(now)
            &&& row[Column::TimelineType] == Cell::Text(timeline_type)
            &&& row[Column::Uri] == optional_text(note.uri)
        }),
{
    let values = note_values(note, timeline_type, now);
    lemma_row_of(values);
    assert(values[0].column == Column::NoteId);
    assert(values[1].column == Column::AccountId);
    assert(values[2].column == Column::ServerHost);
    assert(values[3].column == Column::CreatedAt);
    assert(values[4].column == Column::Text);
    assert(values[5].column == Column::NoteJson);
    assert(values[6].column == Column::CachedAt);
    assert(values[7].column == Column::TimelineType);
    assert(values[8].column == Column::Uri);
}

proof fn lemma_columns()
    ensures
        key().contains(Column::NoteId),
        key().contains(Column::AccountId),
        update().contains(Column::Text),
        update().contains(Column::NoteJson),
        update().contains(Column::CachedAt),
        update().contains(Column::TimelineType),
        update().contains(Column::Uri),
        forall|i: int| 0 <= i < key().len() ==> !update().contains(#[trigger] key()[i]),
{
    assert(key()[0] == Column::NoteId);
    assert(key()[1] == Column::AccountId);
    assert(update()[0] == Column::Text);
    assert(update()[1] == Column::NoteJson);
    assert(update()[2] == Column::CachedAt);
    assert(update()[3] == Column::TimelineType);
    assert(update()[4] == Column::Uri);
}

proof fn lemma_on_timeline(
    row: Row,
    account_id: Seq<char>,
    timeline_type: Seq<char>,
    m: Matching,
)
    ensures
        meets(row, on_timeline(account_id, timeline_type), m) <==> is_on_timeline(
            row,
            account_id,
            timeline_type,
        ),
{
    let filter = on_timeline(account_id, timeline_type);
    if meets(row, filter, m) {
        assert(filter[0].holds(row, m));
        assert(filter[1].holds(row, m));
    }
}

/// A note that was cached for a timeline is on it, as it was cached last.
pub proof fn a_cached_note_is_on_its_timeline(
    note: NoteRecordView,
    timeline_type: Seq<char>,
    now: int,
    before: Tables,
    after: Tables,
    changed: nat,
    limit: int,
    answer: Seq<Seq<Cell>>,
    m: Matching,
)
    requires
        note_upsert(note, timeline_type, now).step(before, after, changed, m),
        timeline(note.account_id, timeline_type, limit).answered(after, answer, m),
        limit < 0 || answer.len() < limit,
    ensures
        answer.contains(seq![Cell::Text(text_or_empty(note.json))]),
{
    let new = row_of(note_values(note, timeline_type, now));
    lemma_note_row(note, timeline_type, now);
    lemma_columns();
    let row = lemma_upserted_row(before[Table::Notes], new, key(), update());
    assert(row[Column::AccountId] == new[Column::AccountId]);
    assert(row[Column::TimelineType] == new[Column::TimelineType]);
    assert(row[Column::NoteJson] == new[Column::NoteJson]);
    lemma_on_timeline(row, note.account_id, timeline_type, m);
    let columns = seq![Column::NoteJson];
    let s = lemma_answer_rows(
        Table::Notes,
        columns,
        on_timeline(note.account_id, timeline_type),
        Order::Descending(Column::CreatedAt),
        Some(limit),
        after,
        answer,
        m,
    );
    assert(s.contains(row));
    lemma_answer_contains(s, columns, answer, row);
    assert(projected(row, columns) =~= seq![Cell::Text(text_or_empty(note.json))]);
}

/// Whether a row holds a note as it was cached for a timeline at `now`.
pub open spec fn holds_note(
    row: Row,
    note: NoteRecordView,
    timeline_type: Seq<char>,
    now: int,
) -> bool {
    &&& row[Column::NoteId] == Cell::Text(note.id)
    &&& row[Column::Text] == optional_text(note.text)
    &&& row[Column::NoteJson] == Cell::Text(text_or_empty(note.json))
    &&& row[Column::Uri] == optional_text(note.uri)
    &&& row[Column::CachedAt] == Cell::Integer(now)
    &&& is_on_timeline(row, note.account_id, timeline_type)
}

proof fn lemma_notes_are_there(
    notes: Seq<NoteRecordView>,
    timeline_type: Seq<char>,
    now: int,
    before: Tables,
    after: Tables,
    changed: Seq<nat>,
    i: int,
    m: Matching,
)
    requires
        runs(
            notes.map_values(|note: NoteRecordView| note_upsert(note, timeline_type, now)),
            before,
            after,
            changed,
            m,
        ),
        0 <= i < notes.len(),
        forall|j: int|
            i < j < notes.len() ==> (#[trigger] notes[j]).id != notes[i].id || notes[j].account_id
                != notes[i].account_id,
    ensures
        exists|row: Row| #[trigger]
            after[Table::Notes].contains(row) && holds_note(row, notes[i], timeline_type, now),
    decreases notes.len(),
{
    let f = |note: NoteRecordView| note_upsert(note, timeline_type, now);
    let batch = notes.map_values(f);
    let middle = choose|middle: Tables|
        {
            &&& runs(batch.drop_last(), before, middle, changed.drop_last(), m)
            &&& #[trigger] batch.last().step(middle, after, changed.last(), m)
        };
    let last = notes.last();
    let rows = middle[Table::Notes];
    let new = row_of(note_values(last, timeline_type, now));
    lemma_note_row(last, timeline_type, now);
    lemma_columns();
    assert(after[Table::Notes] == upserted(rows, new, key(), update()));
    if i == notes.len() - 1 {
        let row = lemma_upserted_row(rows, new, key(), update());
        assert(row[Column::NoteId] == new[Column::NoteId]);
        assert(row[Column::AccountId] == new[Column::AccountId]);
        assert(row[Column::Text] == new[Column::Text]);
        assert(row[Column::NoteJson] == new[Column::NoteJson]);
        assert(row[Column::TimelineType] == new[Column::TimelineType]);
        assert(row[Column::Uri] == new[Column::Uri]);
        assert(row[Column::CachedAt] == new[Column::CachedAt]);
        assert(holds_note(row, notes[i], timeline_type, now));
    } else {
        assert(notes.drop_last().map_values(f) =~= batch.drop_last());
        assert forall|j: int| i < j < notes.drop_last().len() implies (
        #[trigger] notes.drop_last()[j]).id != notes[i].id || notes.drop_last()[j].account_id
            != notes[i].account_id by {
            assert(notes[j].id != notes[i].id || notes[j].account_id != notes[i].account_id);
        }
        lemma_notes_are_there(
            notes.drop_last(),
            timeline_type,
            now,
            before,
            middle,
            changed.drop_last(),
            i,
            m,
        );
        let row = choose|row: Row| #[trigger]
            rows.contains(row) && holds_note(row, notes[i], timeline_type, now);
        if agree(row, new, key()) {
            assert(row[key()[0]] == new[key()[0]]);
            assert(row[key()[1]] == new[key()[1]]);
            assert(notes[notes.len() - 1].id == notes[i].id);
            assert(false);
        }
        lemma_upserted_others(rows, new, key(), update(), row);
    }
}

/// Whether a row is that of a note.
pub open spec fn is_the_note(row: Row, note: NoteRecordView) -> bool {
    row[Column::NoteId] == Cell::Text(note.id) && row[Column::AccountId] == Cell::Text(
        note.account_id,
    )
}

/// Whether a row is that of none of the notes.
pub open spec fn of_other_notes(notes: Seq<NoteRecordView>) -> spec_fn(Row) -> bool {
    |row: Row|
        forall|i: int| 0 <= i < notes.len() ==> !is_the_note(row, #[trigger] notes[i])
}

proof fn lemma_other_notes(
    notes: Seq<NoteRecordView>,
    timeline_type: Seq<char>,
    now: int,
    before: Tables,
    after: Tables,
    changed: Seq<nat>,
    m: Matching,
)
    requires
        runs(
            notes.map_values(|note: NoteRecordView| note_upsert(note, timeline_type, now)),
            before,
            after,
            changed,
            m,
        ),
    ensures
        changed.len() == notes.len(),
        after[Table::Notes].filter(of_other_notes(notes)) == before[Table::Notes].filter(
            of_other_notes(notes),
        ),
        forall|t: Table| t != Table::Notes ==> #[trigger] after[t] == before[t],
    decreases notes.len(),
{
    let f = |note: NoteRecordView| note_upsert(note, timeline_type, now);
    let batch = notes.map_values(f);
    if notes.len() > 0 {
        let middle = choose|middle: Tables|
            {
                &&& runs(batch.drop_last(), before, middle, changed.drop_last(), m)
                &&& #[trigger] batch.last().step(middle, after, changed.last(), m)
            };
        let rest = notes.drop_last();
        let last = notes.last();
        assert(rest.map_values(f) =~= batch.drop_last());
        lemma_other_notes(rest, timeline_type, now, before, middle, changed.drop_last(), m);
        let rows = middle[Table::Notes];
        let new = row_of(note_values(last, timeline_type, now));
        lemma_note_row(last, timeline_type, now);
        lemma_columns();
        let p = of_other_notes(notes);
        let q = of_other_notes(rest);
        let r = |row: Row| !is_the_note(row, last);
        assert forall|row: Row| #[trigger] agree(row, new, key()) implies !p(row) by {
            assert(row[key()[0]] == new[key()[0]]);
            assert(row[key()[1]] == new[key()[1]]);
            assert(is_the_note(row, notes[notes.len() - 1]));
        }
        lemma_upserted_filter(rows, new, key(), update(), p);
        assert forall|row: Row| #[trigger] p(row) == (q(row) && r(row)) by {
            if p(row) {
                assert(!is_the_note(row, notes[notes.len() - 1]));
                assert forall|i: int| 0 <= i < rest.len() implies !is_the_note(
                    row,
                    #[trigger] rest[i],
                ) by {
                    assert(!is_the_note(row, notes[i]));
                }
            }
            if q(row) && r(row) {
                assert forall|i: int| 0 <= i < notes.len() implies !is_the_note(
                    row,
                    #[trigger] notes[i],
                ) by {
                    if i < rest.len() {
                        assert(!is_the_note(row, rest[i]));
                    }
                }
            }
        }
        lemma_filter_twice(rows, q, r, p);
        lemma_filter_twice(before[Table::Notes], q, r, p);
    }
}

/// Whether two rows are those of one note of one account.
pub open spec fn same_note(a: Row, b: Row) -> bool {
    a[Column::NoteId] == b[Column::NoteId] && a[Column::AccountId] == b[Column::AccountId]
}

/// Whether a row has the server and the time of creation that its note had in
/// `rows`, or, where it was not there, those of the first of `notes` that is it.
pub open spec fn keeps_origin(row: Row, rows: Seq<Row>, notes: Seq<NoteRecordView>) -> bool {
    if exists|old_row: Row| #[trigger] rows.contains(old_row) && same_note(old_row, row) {
        exists|old_row: Row|
            {
                &&& #[trigger] rows.contains(old_row)
                &&& same_note(old_row, row)
                &&& row[Column::ServerHost] == old_row[Column::ServerHost]
                &&& row[Column::CreatedAt] == old_row[Column::CreatedAt]
            }
    } else {
        exists|f: int|
            {
                &&& 0 <= f < notes.len()
                &&& is_the_note(row, #[trigger] notes[f])
                &&& forall|g: int| 0 <= g < f ==> !is_the_note(row, #[trigger] notes[g])
                &&& row[Column::ServerHost] == Cell::Text(notes[f].server_host)
                &&& row[Column::CreatedAt] == Cell::Text(notes[f].created_at)
            }
    }
}

/// What stands in a table before and after a row was written by the key of
/// notes: the same rows, of the same notes.
proof fn lemma_written_from(rows: Seq<Row>, new: Row, k: int)
    requires
        0 <= k < upserted(rows, new, key(), update()).len(),
    ensures
        k < rows.len() ==> {
            let row = upserted(rows, new, key(), update())[k];
            &&& same_note(rows[k], row)
            &&& row[Column::ServerHost] == rows[k][Column::ServerHost]
            &&& row[Column::CreatedAt] == rows[k][Column::CreatedAt]
        },
        k >= rows.len() ==> upserted(rows, new, key(), update())[k] == new && !has_key(
            rows,
            new,
            key(),
        ),
{
    if k < rows.len() {
        lemma_overwritten(rows[k], new, update(), Column::NoteId);
        lemma_overwritten(rows[k], new, update(), Column::AccountId);
        lemma_overwritten(rows[k], new, update(), Column::ServerHost);
        lemma_overwritten(rows[k], new, update(), Column::CreatedAt);
    }
}

proof fn lemma_notes_stay(
    notes: Seq<NoteRecordView>,
    timeline_type: Seq<char>,
    now: int,
    before: Tables,
    after: Tables,
    changed: Seq<nat>,
    m: Matching,
)
    requires
        runs(
            notes.map_values(|note: NoteRecordView| note_upsert(note, timeline_type, now)),
            before,
            after,
            changed,
            m,
        ),
    ensures
        forall|old_row: Row| #[trigger]
            before[Table::Notes].contains(old_row) ==> exists|row: Row| #[trigger]
                after[Table::Notes].contains(row) && same_note(old_row, row),
        forall|f: int|
            0 <= f < notes.len() ==> exists|row: Row| #[trigger]
                after[Table::Notes].contains(row) && is_the_note(row, #[trigger] notes[f]),
    decreases notes.len(),
{
    if notes.len() > 0 {
        let f = |note: NoteRecordView| note_upsert(note, timeline_type, now);
        let batch = notes.map_values(f);
        let middle = choose|middle: Tables|
            {
                &&& runs(batch.drop_last(), before, middle, changed.drop_last(), m)
                &&& #[trigger] batch.last().step(middle, after, changed.last(), m)
            };
        let rest = notes.drop_last();
        let last = notes.last();
        assert(rest.map_values(f) =~= batch.drop_last());
        lemma_notes_stay(rest, timeline_type, now, before, middle, changed.drop_last(), m);
        let rows = middle[Table::Notes];
        let all = after[Table::Notes];
        let new = row_of(note_values(last, timeline_type, now));
        lemma_note_row(last, timeline_type, now);
        lemma_columns();
        assert forall|row: Row| #[trigger] rows.contains(row) implies exists|other: Row| #[trigger]
            all.contains(other) && same_note(row, other) by {
            let k = choose|k: int| 0 <= k < rows.len() && rows[k] == row;
            lemma_written_from(rows, new, k);
            assert(all.contains(all[k]));
        }
        assert forall|old_row: Row| #[trigger]
            before[Table::Notes].contains(old_row) implies exists|row: Row| #[trigger]
            all.contains(row) && same_note(old_row, row) by {
            let row = choose|row: Row| #[trigger]
                rows.contains(row) && same_note(old_row, row);
            let other = choose|other: Row| #[trigger]
                all.contains(other) && same_note(row, other);
            assert(all.contains(other) && same_note(old_row, other));
        }
        assert forall|f: int| 0 <= f < notes.len() implies exists|row: Row| #[trigger]
            all.contains(row) && is_the_note(row, #[trigger] notes[f]) by {
            if f < rest.len() {
                assert(rest[f] == notes[f]);
                let row = choose|row: Row| #[trigger]
                    rows.contains(row) && is_the_note(row, rest[f]);
                let other = choose|other: Row| #[trigger]
                    all.contains(other) && same_note(row, other);
                assert(all.contains(other) && is_the_note(other, notes[f]));
            } else {
                let row = lemma_upserted_row(rows, new, key(), update());
                assert(row[Column::NoteId] == new[Column::NoteId]);
                assert(row[Column::AccountId] == new[Column::AccountId]);
                assert(all.contains(row) && is_the_note(row, notes[f]));
            }
        }
    }
}

proof fn lemma_origins(
    notes: Seq<NoteRecordView>,
    timeline_type: Seq<char>,
    now: int,
    before: Tables,
    after: Tables,
    changed: Seq<nat>,
    row: Row,
    m: Matching,
)
    requires
        runs(
            notes.map_values(|note: NoteRecordView| note_upsert(note, timeline_type, now)),
            before,
            after,
            changed,
            m,
        ),
        after[Table::Notes].contains(row),
    ensures
        keeps_origin(row, before[Table::Notes], notes),
    decreases notes.len(),
{
    let all = after[Table::Notes];
    let k = choose|k: int| 0 <= k < all.len() && all[k] == row;
    if notes.len() == 0 {
        assert(before[Table::Notes].contains(row) && same_note(row, row));
    } else {
        let f = |note: NoteRecordView| note_upsert(note, timeline_type, now);
        let batch = notes.map_values(f);
        let middle = choose|middle: Tables|
            {
                &&& runs(batch.drop_last(), before, middle, changed.drop_last(), m)
                &&& #[trigger] batch.last().step(middle, after, changed.last(), m)
            };
        let rest = notes.drop_last();
        let last = notes.last();
        assert(rest.map_values(f) =~= batch.drop_last());
        let rows = middle[Table::Notes];
        let new = row_of(note_values(last, timeline_type, now));
        lemma_note_row(last, timeline_type, now);
        lemma_written_from(rows, new, k);
        if k < rows.len() {
            let earlier = rows[k];
            assert(rows.contains(earlier));
            lemma_origins(
                rest,
                timeline_type,
                now,
                before,
                middle,
                changed.drop_last(),
                earlier,
                m,
            );
            lemma_origin_goes_on(earlier, row, before[Table::Notes], rest, notes);
        } else {
            lemma_notes_stay(rest, timeline_type, now, before, middle, changed.drop_last(), m);
            assert forall|other: Row| #[trigger] rows.contains(other) implies !same_note(
                other,
                row,
            ) by {
                if same_note(other, row) {
                    let i = choose|i: int| 0 <= i < rows.len() && rows[i] == other;
                    assert(agree(rows[i], new, key()));
                }
            }
            assert forall|old_row: Row| #[trigger]
                before[Table::Notes].contains(old_row) implies !same_note(old_row, row) by {
                let other = choose|other: Row| #[trigger]
                    rows.contains(other) && same_note(old_row, other);
                assert(!same_note(other, row));
            }
            let at = notes.len() - 1;
            assert(is_the_note(row, notes[at]));
            assert forall|g: int| 0 <= g < at implies !is_the_note(row, #[trigger] notes[g]) by {
                assert(rest[g] == notes[g]);
                let other = choose|other: Row| #[trigger]
                    rows.contains(other) && is_the_note(other, rest[g]);
                assert(!same_note(other, row));
            }
        }
    }
}

proof fn lemma_origin_goes_on(
    earlier: Row,
    row: Row,
    rows: Seq<Row>,
    rest: Seq<NoteRecordView>,
    notes: Seq<NoteRecordView>,
)
    requires
        notes.len() > 0,
        rest == notes.drop_last(),
        same_note(earlier, row),
        row[Column::ServerHost] == earlier[Column::ServerHost],
        row[Column::CreatedAt] == earlier[Column::CreatedAt],
        keeps_origin(earlier, rows, rest),
    ensures
        keeps_origin(row, rows, notes),
{
    if exists|old_row: Row| #[trigger] rows.contains(old_row) && same_note(old_row, row) {
        let any = choose|old_row: Row| #[trigger]
            rows.contains(old_row) && same_note(old_row, row);
        assert(rows.contains(any) && same_note(any, earlier));
        let old_row = choose|old_row: Row|
            {
                &&& #[trigger] rows.contains(old_row)
                &&& same_note(old_row, earlier)
                &&& earlier[Column::ServerHost] == old_row[Column::ServerHost]
                &&& earlier[Column::CreatedAt] == old_row[Column::CreatedAt]
            };
        assert(rows.contains(old_row) && same_note(old_row, row));
    } else {
        assert forall|old_row: Row| #[trigger] rows.contains(old_row) implies !same_note(
            old_row,
            earlier,
        ) by {
            assert(!same_note(old_row, row));
        }
        let f = choose|f: int|
            {
                &&& 0 <= f < rest.len()
                &&& is_the_note(earlier, #[trigger] rest[f])
                &&& forall|g: int| 0 <= g < f ==> !is_the_note(earlier, #[trigger] rest[g])
                &&& earlier[Column::ServerHost] == Cell::Text(rest[f].server_host)
                &&& earlier[Column::CreatedAt] == Cell::Text(rest[f].created_at)
            };
        assert(is_the_note(row, notes[f]));
        assert forall|g: int| 0 <= g < f implies !is_the_note(row, #[trigger] notes[g]) by {
            assert(!is_the_note(earlier, rest[g]));
        }
    }
}

/// When notes were cached together, each of them is there. Of several with one
/// id and account the last counts, but the row keeps the server and the time of
/// creation that it had, or those of the first where it is new.
pub proof fn all_cached_notes_are_there(
    notes: Seq<NoteRecordView>,
    timeline_type: Seq<char>,
    now: int,
    before: Tables,
    after: Tables,
    changed: Seq<nat>,
    i: int,
    m: Matching,
)
    requires
        runs(
            notes.map_values(|note: NoteRecordView| note_upsert(note, timeline_type, now)),
            before,
            after,
            changed,
            m,
        ),
        0 <= i < notes.len(),
        forall|j: int|
            i < j < notes.len() ==> (#[trigger] notes[j]).id != notes[i].id || notes[j].account_id
                != notes[i].account_id,
    ensures
        exists|row: Row| #[trigger]
            after[Table::Notes].contains(row) && holds_note(row, notes[i], timeline_type, now)
                && keeps_origin(row, before[Table::Notes], notes),
{
    lemma_notes_are_there(notes, timeline_type, now, before, after, changed, i, m);
    let row = choose|row: Row| #[trigger]
        after[Table::Notes].contains(row) && holds_note(row, notes[i], timeline_type, now);
    lemma_origins(notes, timeline_type, now, before, after, changed, row, m);
}

/// Notes are cached all or none. Where caching fails, the tables are as they
/// were. Where it succeeds, each note has one row, which holds it as it was
/// cached; of several with one id and account the last counts. A row that was
/// there keeps its server and its time of creation, and a new one has those of the
/// note by which it was made. All rows of other notes are as they were, in their
/// order, and so are the other tables.
pub proof fn notes_are_cached_all_or_none(
    notes: Seq<NoteRecordView>,
    timeline_type: Seq<char>,
    now: int,
    outcome: Result<Seq<nat>, DatabaseErrorView>,
    before: Tables,
    after: Tables,
    m: Matching,
)
    requires
        keyed(before),
        transacted(
            notes.map_values(|note: NoteRecordView| note_upsert(note, timeline_type, now)),
            outcome,
            before,
            after,
            m,
        ),
    ensures
        outcome is Err ==> after == before,
        outcome is Ok ==> {
            &&& after[Table::Notes].filter(of_other_notes(notes)) == before[Table::Notes].filter(
                of_other_notes(notes),
            )
            &&& forall|t: Table| t != Table::Notes ==> #[trigger] after[t] == before[t]
            &&& forall|i: int|
                0 <= i < notes.len() && (forall|j: int|
                    i < j < notes.len() ==> (#[trigger] notes[j]).id != notes[i].id
                        || notes[j].account_id != notes[i].account_id) ==> {
                    &&& exists|row: Row| #[trigger]
                        after[Table::Notes].contains(row) && holds_note(
                            row,
                            #[trigger] notes[i],
                            timeline_type,
                            now,
                        ) && keeps_origin(row, before[Table::Notes], notes)
                    &&& after[Table::Notes].filter(
                        |row: Row| is_the_note(row, notes[i]),
                    ).len() == 1
                }
        },
{
    if let Ok(changed) = outcome {
        let f = |note: NoteRecordView| note_upsert(note, timeline_type, now);
        let batch = notes.map_values(f);
        let all = after[Table::Notes];
        lemma_other_notes(notes, timeline_type, now, before, after, changed, m);
        assert forall|i: int| 0 <= i < batch.len() implies respects_key(#[trigger] batch[i]) by {
            lemma_columns();
        }
        runs_keep_keys(batch, before, after, changed, m);
        assert(distinct(all, key_of(Table::Notes)));
        assert forall|i: int|
            0 <= i < notes.len() && (forall|j: int|
                i < j < notes.len() ==> (#[trigger] notes[j]).id != notes[i].id
                    || notes[j].account_id != notes[i].account_id) implies {
            &&& exists|row: Row| #[trigger]
                all.contains(row) && holds_note(row, #[trigger] notes[i], timeline_type, now)
                    && keeps_origin(row, before[Table::Notes], notes)
            &&& all.filter(|row: Row| is_the_note(row, notes[i])).len() == 1
        } by {
            all_cached_notes_are_there(
                notes,
                timeline_type,
                now,
                before,
                after,
                changed,
                i,
                m,
            );
            let row = choose|row: Row| #[trigger]
                all.contains(row) && holds_note(row, notes[i], timeline_type, now) && keeps_origin(
                    row,
                    before[Table::Notes],
                    notes,
                );
            let at = choose|k: int| 0 <= k < all.len() && all[k] == row;
            let p = |row: Row| is_the_note(row, notes[i]);
            assert forall|k: int| 0 <= k < all.len() implies (p(#[trigger] all[k]) <==> k
                == at) by {
                if p(all[k]) {
                    assert(agree(all[k], all[at], key()));
                    assert(agree(all[at], all[k], key()));
                    lemma_one_per_key(all, row, key(), k, at);
                }
            }
            lemma_filter_one(all, p, at);
        }
    }
}

/// A note that was cached with a URI is found by it, as it was cached last.
pub proof fn a_cached_note_is_found_by_its_uri(
    note: NoteRecordView,
    timeline_type: Seq<char>,
    now: int,
    before: Tables,
    after: Tables,
    changed: nat,
    answer: Seq<Seq<Cell>>,
    m: Matching,
)
    requires
        note_upsert(note, timeline_type, now).step(before, after, changed, m),
        note.uri is Some,
        note_query(seq![is_text(Column::Uri, note.uri->0)], Order::Unordered, None).answered(
            after,
            answer,
            m,
        ),
    ensures
        answer.contains(seq![Cell::Text(text_or_empty(note.json))]),
{
    let new = row_of(note_values(note, timeline_type, now));
    lemma_note_row(note, timeline_type, now);
    lemma_columns();
    let row = lemma_upserted_row(before[Table::Notes], new, key(), update());
    assert(row[Column::Uri] == new[Column::Uri]);
    assert(row[Column::NoteJson] == new[Column::NoteJson]);
    lemma_meets_text(row, Column::Uri, note.uri->0, m);
    let columns = seq![Column::NoteJson];
    let s = lemma_answer_rows(
        Table::Notes,
        columns,
        seq![is_text(Column::Uri, note.uri->0)],
        Order::Unordered,
        None,
        after,
        answer,
        m,
    );
    assert(s.contains(row));
    lemma_answer_contains(s, columns, answer, row);
    assert(projected(row, columns) =~= seq![Cell::Text(text_or_empty(note.json))]);
}

/// A timeline holds notes that were cached for it, newest first, and no more
/// than were asked for. Where there is room it holds all of them, and where there
/// is not, none that it leaves out is newer than one that it holds.
pub proof fn a_timeline_is_newest_first(
    account_id: Seq<char>,
    timeline_type: Seq<char>,
    limit: int,
    tables: Tables,
    answer: Seq<Seq<Cell>>,
    m: Matching,
) -> (s: Seq<Row>)
    requires
        timeline(account_id, timeline_type, limit).answered(tables, answer, m),
    ensures
        answer == projections(s, seq![Column::NoteJson]),
        forall|i: int|
            0 <= i < s.len() ==> tables[Table::Notes].contains(#[trigger] s[i]) && is_on_timeline(
                s[i],
                account_id,
                timeline_type,
            ),
        ordered(s, Order::Descending(Column::CreatedAt)),
        limit >= 0 ==> s.len() <= limit,
        limit < 0 || s.len() < limit ==> forall|row: Row|
            tables[Table::Notes].contains(row) && is_on_timeline(row, account_id, timeline_type)
                ==> #[trigger] s.contains(row),
        forall|row: Row|
            tables[Table::Notes].contains(row) && is_on_timeline(row, account_id, timeline_type)
                && !#[trigger] s.contains(row) ==> not_ahead(
                row,
                s,
                Order::Descending(Column::CreatedAt),
            ),
{
    assert forall|row: Row| #[trigger]
        meets(row, on_timeline(account_id, timeline_type), m) <==> is_on_timeline(
            row,
            account_id,
            timeline_type,
        ) by {
        lemma_on_timeline(row, account_id, timeline_type, m);
    }
    let s = lemma_answer_rows(
        Table::Notes,
        seq![Column::NoteJson],
        on_timeline(account_id, timeline_type),
        Order::Descending(Column::CreatedAt),
        Some(limit),
        tables,
        answer,
        m,
    );
    s
}

/// Whether a row is a note on a timeline of an account, created at a time or
/// before it.
pub open spec fn is_on_timeline_by(
    row: Row,
    account_id: Seq<char>,
    timeline_type: Seq<char>,
    time: Seq<char>,
) -> bool {
    is_on_timeline(row, account_id, timeline_type) && (less(
        row[Column::CreatedAt],
        Cell::Text(time),
    ) || row[Column::CreatedAt] == Cell::Text(time))
}

/// The part of a timeline up to a time holds notes created no later, newest
/// first, and no more than were asked for. Where there is room it holds all of
/// them, and where there is not, none that it leaves out is newer than one that
/// it holds.
pub proof fn a_timeline_before_a_time_holds_nothing_later(
    account_id: Seq<char>,
    timeline_type: Seq<char>,
    before: Seq<char>,
    limit: int,
    tables: Tables,
    answer: Seq<Seq<Cell>>,
    m: Matching,
) -> (s: Seq<Row>)
    requires
        timeline_before(account_id, timeline_type, before, limit).answered(tables, answer, m),
    ensures
        answer == projections(s, seq![Column::NoteJson]),
        forall|i: int|
            0 <= i < s.len() ==> tables[Table::Notes].contains(#[trigger] s[i])
                && is_on_timeline_by(s[i], account_id, timeline_type, before),
        ordered(s, Order::Descending(Column::CreatedAt)),
        limit >= 0 ==> s.len() <= limit,
        limit < 0 || s.len() < limit ==> forall|row: Row|
            tables[Table::Notes].contains(row) && is_on_timeline_by(
                row,
                account_id,
                timeline_type,
                before,
            ) ==> #[trigger] s.contains(row),
        forall|row: Row|
            tables[Table::Notes].contains(row) && is_on_timeline_by(
                row,
                account_id,
                timeline_type,
                before,
            ) && !#[trigger] s.contains(row) ==> not_ahead(
                row,
                s,
                Order::Descending(Column::CreatedAt),
            ),
{
    let at_most = ConditionView {
        column: Column::CreatedAt,
        test: Test::AtMost,
        value: Cell::Text(before),
    };
    let whole = on_timeline(account_id, timeline_type);
    let filter = whole.push(at_most);
    assert forall|row: Row| #[trigger] meets(row, filter, m) <==> is_on_timeline_by(
        row,
        account_id,
        timeline_type,
        before,
    ) by {
        lemma_on_timeline(row, account_id, timeline_type, m);
        if meets(row, filter, m) {
            assert(filter[2].holds(row, m));
            assert forall|i: int| 0 <= i < whole.len() implies (#[trigger] whole[i]).holds(
                row,
                m,
            ) by {
                assert(filter[i].holds(row, m));
            }
        }
    }
    let s = lemma_answer_rows(
        Table::Notes,
        seq![Column::NoteJson],
        filter,
        Order::Descending(Column::CreatedAt),
        Some(limit),
        tables,
        answer,
        m,
    );
    s
}

/// The dates of a timeline are those of its oldest and its newest note. A
/// timeline without notes has none.
pub proof fn the_dates_of_a_timeline_bound_it(
    account_id: Seq<char>,
    timeline_type: Seq<char>,
    tables: Tables,
    answer: Seq<Seq<Cell>>,
    m: Matching,
)
    requires
        timeline_range(account_id, timeline_type).answered(tables, answer, m),
        forall|i: int|
            0 <= i < tables[Table::Notes].len() ==> (
            #[trigger] tables[Table::Notes][i])[Column::CreatedAt] is Text,
    ensures
        match date_range(complete(answer).one::<(Option<String>, Option<String>)>()) {
            Ok(Some((oldest, newest))) => {
                &&& exists|row: Row| #[trigger]
                    tables[Table::Notes].contains(row) && is_on_timeline(
                        row,
                        account_id,
                        timeline_type,
                    ) && row[Column::CreatedAt] == Cell::Text(oldest)
                &&& exists|row: Row| #[trigger]
                    tables[Table::Notes].contains(row) && is_on_timeline(
                        row,
                        account_id,
                        timeline_type,
                    ) && row[Column::CreatedAt] == Cell::Text(newest)
                &&& forall|row: Row| #[trigger]
                    tables[Table::Notes].contains(row) && is_on_timeline(
                        row,
                        account_id,
                        timeline_type,
                    ) ==> !less(row[Column::CreatedAt], Cell::Text(oldest)) && !less(
                        Cell::Text(newest),
                        row[Column::CreatedAt],
                    )
            },
            Ok(None) => forall|row: Row| #[trigger]
                tables[Table::Notes].contains(row) ==> !is_on_timeline(
                    row,
                    account_id,
                    timeline_type,
                ),
            Err(_) => false,
        },
{
    let all = tables[Table::Notes];
    let filter = on_timeline(account_id, timeline_type);
    let p = |row: Row| meets(row, filter, m);
    let picked = selected(all, filter, m);
    let q = |row: Row| row[Column::CreatedAt] != Cell::Null;
    let rows = present(picked, Column::CreatedAt);
    assert forall|row: Row| all.contains(row) && is_on_timeline(
        row,
        account_id,
        timeline_type,
    ) implies #[trigger] rows.contains(row) by {
        lemma_on_timeline(row, account_id, timeline_type, m);
        let k = choose|k: int| 0 <= k < all.len() && all[k] == row;
        lemma_filter_keeps(all, p, k);
        let i = choose|i: int| 0 <= i < picked.len() && picked[i] == row;
        assert(all[k][Column::CreatedAt] is Text);
        lemma_filter_keeps(picked, q, i);
    }
    assert forall|i: int| 0 <= i < rows.len() implies all.contains(#[trigger] rows[i])
        && is_on_timeline(rows[i], account_id, timeline_type)
        && rows[i][Column::CreatedAt] is Text by {
        lemma_filter_from(picked, q, i);
        let k = choose|k: int| 0 <= k < picked.len() && picked[k] == rows[i];
        lemma_filter_from(all, p, k);
        let j = choose|j: int| 0 <= j < all.len() && all[j] == picked[k];
        lemma_on_timeline(rows[i], account_id, timeline_type, m);
        assert(all[j][Column::CreatedAt] is Text);
    }
    if rows.len() > 0 {
        let (i, j) = choose|i: int, j: int|
            {
                &&& 0 <= i < rows.len()
                &&& 0 <= j < rows.len()
                &&& answer == seq![
                    seq![
                        (#[trigger] rows[i])[Column::CreatedAt],
                        (#[trigger] rows[j])[Column::CreatedAt],
                    ],
                ]
                &&& forall|k: int|
                    0 <= k < rows.len() ==> !less(
                        (#[trigger] rows[k])[Column::CreatedAt],
                        rows[i][Column::CreatedAt],
                    ) && !less(rows[j][Column::CreatedAt], rows[k][Column::CreatedAt])
            };
        let row = answer[0];
        assert(row[0] == rows[i][Column::CreatedAt]);
        assert(row[1] == rows[j][Column::CreatedAt]);
        assert(all.contains(rows[i]));
        assert(all.contains(rows[j]));
        assert forall|row: Row| #[trigger] all.contains(row) && is_on_timeline(
            row,
            account_id,
            timeline_type,
        ) implies !less(row[Column::CreatedAt], rows[i][Column::CreatedAt]) && !less(
            rows[j][Column::CreatedAt],
            row[Column::CreatedAt],
        ) by {
            assert(rows.contains(row));
            let k = choose|k: int| 0 <= k < rows.len() && rows[k] == row;
            assert(!less(rows[k][Column::CreatedAt], rows[i][Column::CreatedAt]));
        }
    } else {
        let row = answer[0];
        assert(row[0] == Cell::Null);
        assert(row[1] == Cell::Null);
        assert forall|row: Row| #[trigger] all.contains(row) implies !is_on_timeline(
            row,
            account_id,
            timeline_type,
        ) by {
            if is_on_timeline(row, account_id, timeline_type) {
                assert(rows.contains(row));
            }
        }
    }
}

/// Deleting a note deletes it for every account, and no other note.
pub proof fn deleting_a_note_deletes_it_alone(
    note_id: Seq<char>,
    before: Tables,
    after: Tables,
    changed: nat,
    m: Matching,
)
    requires
        deletion_by(Table::Notes, Column::NoteId, note_id).step(before, after, changed, m),
    ensures
        after[Table::Notes] == before[Table::Notes].filter(
            |row: Row| row[Column::NoteId] != Cell::Text(note_id),
        ),
        forall|t: Table| t != Table::Notes ==> #[trigger] after[t] == before[t],
{
    lemma_unselected(before[Table::Notes], Column::NoteId, note_id, m);
}

/// Clearing the cache of an account deletes its notes and no other's, and
/// reports how many they were.
pub proof fn clearing_an_account_deletes_its_rows_alone(
    table: Table,
    account_id: Seq<char>,
    before: Tables,
    after: Tables,
    changed: nat,
    m: Matching,
)
    requires
        deletion_by(table, Column::AccountId, account_id).step(before, after, changed, m),
    ensures
        after[table] == before[table].filter(
            |row: Row| row[Column::AccountId] != Cell::Text(account_id),
        ),
        changed == before[table].filter(
            |row: Row| row[Column::AccountId] == Cell::Text(account_id),
        ).len(),
        forall|t: Table| t != table ==> #[trigger] after[t] == before[t],
{
    lemma_unselected(before[table], Column::AccountId, account_id, m);
}

/// After the cache of an account was cleared, the account has no rows.
pub proof fn a_cleared_account_counts_none(
    table: Table,
    account_id: Seq<char>,
    before: Tables,
    after: Tables,
    changed: nat,
    answer: Seq<Seq<Cell>>,
    m: Matching,
)
    requires
        deletion_by(table, Column::AccountId, account_id).step(before, after, changed, m),
        (QueryView::Count {
            table,
            filter: seq![is_text(Column::AccountId, account_id)],
        }).answered(after, answer, m),
    ensures
        complete(answer).one::<i64>() == Ok::<i64, DatabaseErrorView>(0),
{
    let filter = seq![is_text(Column::AccountId, account_id)];
    let rows = after[table];
    assert forall|i: int| 0 <= i < rows.len() implies !meets(#[trigger] rows[i], filter, m) by {
        lemma_filter_from(before[table], |row: Row| !meets(row, filter, m), i);
    }
    lemma_filter_nothing(rows, |row: Row| meets(row, filter, m));
    assert(answer[0][0] == Cell::Integer(0));
}

/// The count of an account is the number of its rows.
pub proof fn an_account_counts_its_rows(
    table: Table,
    account_id: Seq<char>,
    tables: Tables,
    answer: Seq<Seq<Cell>>,
    m: Matching,
)
    requires
        (QueryView::Count {
            table,
            filter: seq![is_text(Column::AccountId, account_id)],
        }).answered(tables, answer, m),
        tables[table].len() <= i64::MAX,
    ensures
        complete(answer).one::<i64>() == Ok::<i64, DatabaseErrorView>(
            tables[table].filter(
                |row: Row| row[Column::AccountId] == Cell::Text(account_id),
            ).len() as i64,
        ),
{
    lemma_unselected(tables[table], Column::AccountId, account_id, m);
    let p = |row: Row| row[Column::AccountId] == Cell::Text(account_id);
    tables[table].lemma_filter_len(p);
    assert(answer[0][0] == Cell::Integer(tables[table].filter(p).len() as int));
}

/// Deleting all rows of a table leaves none and reports how many they were.
pub proof fn clearing_all_leaves_none(
    table: Table,
    before: Tables,
    after: Tables,
    changed: nat,
    m: Matching,
)
    requires
        (StatementView::Delete { table, filter: Seq::empty() }).step(before, after, changed, m),
    ensures
        after[table] == Seq::<Row>::empty(),
        changed == before[table].len(),
        forall|t: Table| t != table ==> #[trigger] after[t] == before[t],
{
    lemma_select_all(before[table], m);
}

/// Caching a note for the first time adds one row to its account; caching it
/// again adds none.
pub proof fn a_note_counts_once(
    note: NoteRecordView,
    timeline_type: Seq<char>,
    now: int,
    before: Tables,
    after: Tables,
    changed: nat,
    m: Matching,
)
    requires
        note_upsert(note, timeline_type, now).step(before, after, changed, m),
    ensures
        after[Table::Notes].len() == before[Table::Notes].len() + if exists|row: Row| #[trigger]
            before[Table::Notes].contains(row) && row[Column::NoteId] == Cell::Text(note.id)
                && row[Column::AccountId] == Cell::Text(note.account_id) {
            0int
        } else {
            1int
        },
{
    let rows = before[Table::Notes];
    let new = row_of(note_values(note, timeline_type, now));
    lemma_note_row(note, timeline_type, now);
    if has_key(rows, new, key()) {
        let i = choose|i: int| 0 <= i < rows.len() && agree(#[trigger] rows[i], new, key());
        assert(rows[i][key()[0]] == new[key()[0]]);
        assert(rows[i][key()[1]] == new[key()[1]]);
        assert(rows.contains(rows[i]));
    } else if exists|row: Row| #[trigger]
        rows.contains(row) && row[Column::NoteId] == Cell::Text(note.id) && row[Column::AccountId]
            == Cell::Text(note.account_id) {
        let row = choose|row: Row| #[trigger]
            rows.contains(row) && row[Column::NoteId] == Cell::Text(note.id)
                && row[Column::AccountId] == Cell::Text(note.account_id);
        let i = choose|i: int| 0 <= i < rows.len() && rows[i] == row;
        assert(agree(rows[i], new, key()));
    }
}

} // verus!
