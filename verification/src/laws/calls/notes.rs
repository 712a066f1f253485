//! Calls for cached notes.
use vstd::prelude::*;
use crate::database::{Database, Transaction};
use crate::laws::calls::{
    any, counts, ends, gives, has_columns, holds_text, lemma_counts, lemma_ends, lemma_gives,
    lemma_meets_three, lemma_removes, lemma_row_columns, lemma_with, lemma_with_both, puts, removes,
    with, with_both,
};
use crate::laws::rows::lemma_row_of;
use crate::laws::search::{lemma_sought, sought};
use crate::notes::note_values;
use crate::records::NoteRecord;
use crate::sql::{is_text, AssignmentView, ConditionView, Order, Query, Sql, Statement, Test};
use crate::tables::{less, meets, row_of, Matching, Row, Tables};
use crate::value::{Cell, Column, Table};

verus! {

/// The columns of a note.
pub open spec fn written_columns() -> Seq<Column> {
    seq![
        Column::NoteId,
        Column::AccountId,
        Column::ServerHost,
        Column::CreatedAt,
        Column::Text,
        Column::NoteJson,
        Column::CachedAt,
        Column::TimelineType,
        Column::Uri,
    ]
}

/// Whether a row holds a note as it is cached at `now` for a timeline. A note
/// that cannot be written as JSON has an empty one.
pub open spec fn holds_record(
    row: Row,
    note: NoteRecord,
    timeline_type: Seq<char>,
    now: int,
) -> bool {
    &&& has_columns(row, written_columns())
    &&& row[Column::NoteId] == Cell::Text(note.id@)
    &&& row[Column::AccountId] == Cell::Text(note.account_id@)
    &&& row[Column::ServerHost] == Cell::Text(note.server_host@)
    &&& row[Column::CreatedAt] == Cell::Text(note.created_at@)
    &&& holds_text(row[Column::Text], note.text)
    &&& row[Column::NoteJson] == Cell::Text(
        match note.json {
            Some(json) => json@,
            None => Seq::empty(),
        },
    )
    &&& row[Column::CachedAt] == Cell::Integer(now)
    &&& row[Column::TimelineType] == Cell::Text(timeline_type)
    &&& holds_text(row[Column::Uri], note.uri)
}

/// Whether a note is put for an account: one that the account has keeps its
/// server and its time of creation and takes over the rest.
pub open spec fn puts_note(new: Row, before: Tables, after: Tables) -> bool {
    puts(
        Table::Notes,
        new,
        seq![Column::NoteId, Column::AccountId],
        seq![
            Column::Text,
            Column::NoteJson,
            Column::CachedAt,
            Column::TimelineType,
            Column::Uri,
        ],
        before,
        after,
    )
}

proof fn lemma_record(note: NoteRecord, timeline_type: Seq<char>, now: int) -> (new: Row)
    ensures
        new == row_of(note_values(note@, timeline_type, now)),
        holds_record(new, note, timeline_type, now),
{
    let values = note_values(note@, timeline_type, now);
    reveal_strlit("");
    assert(""@ =~= Seq::<char>::empty());
    lemma_row_of(values);
    assert(values.map_values(|a: AssignmentView| a.column) =~= written_columns());
    lemma_row_columns(values, written_columns());
    assert(values[0].column == Column::NoteId);
    assert(values[1].column == Column::AccountId);
    assert(values[2].column == Column::ServerHost);
    assert(values[3].column == Column::CreatedAt);
    assert(values[4].column == Column::Text);
    assert(values[5].column == Column::NoteJson);
    assert(values[6].column == Column::CachedAt);
    assert(values[7].column == Column::TimelineType);
    assert(values[8].column == Column::Uri);
    row_of(values)
}

/// To cache notes puts each of them, in their order, one statement for each.
pub proof fn caching_notes(
    notes: Vec<NoteRecord>,
    timeline_type: &str,
    now: i64,
    cached: Transaction,
    i: int,
    before: Tables,
    after: Tables,
    changed: nat,
    m: Matching,
) -> (new: Row)
    requires
        call_ensures(Database::cache_notes, (&notes, timeline_type, now), cached),
        0 <= i < notes@.len(),
        cached.statements@[i]@.step(before, after, changed, m),
    ensures
        cached.statements@.len() == notes@.len(),
        holds_record(new, notes@[i], timeline_type@, now as int),
        puts_note(new, before, after),
        changed == 1,
{
    assert(cached@.len() == notes.deep_view().len());
    assert(cached@[i] == cached.statements@[i]@);
    assert(notes.deep_view()[i] == notes@[i]@);
    lemma_record(notes@[i], timeline_type@, now as int)
}

/// There are as many statements as notes to cache.
pub proof fn as_many_statements_as_notes(
    notes: Vec<NoteRecord>,
    timeline_type: &str,
    now: i64,
    cached: Transaction,
)
    requires
        call_ensures(Database::cache_notes, (&notes, timeline_type, now), cached),
    ensures
        cached.statements@.len() == notes@.len(),
{
    assert(cached@.len() == notes.deep_view().len());
}

/// To cache one note puts it, by one statement.
pub proof fn caching_a_note(
    note: NoteRecord,
    timeline_type: &str,
    now: i64,
    cached: Transaction,
    before: Tables,
    after: Tables,
    changed: nat,
    m: Matching,
) -> (new: Row)
    requires
        call_ensures(Database::cache_note, (&note, timeline_type, now), cached),
        cached.statements@[0]@.step(before, after, changed, m),
    ensures
        cached.statements@.len() == 1,
        holds_record(new, note, timeline_type@, now as int),
        puts_note(new, before, after),
        changed == 1,
{
    assert(cached@.len() == 1);
    assert(cached@[0] == cached.statements@[0]@);
    lemma_record(note, timeline_type@, now as int)
}

/// The notes that a search is for.
pub open spec fn found(
    account_id: Seq<char>,
    text: Seq<char>,
    since_date: Option<Seq<char>>,
    until_date: Option<Seq<char>>,
    m: Matching,
) -> spec_fn(Row) -> bool {
    |row: Row| sought(row, account_id, text, since_date, until_date, m)
}

/// To search asks for the notes of the account that hold the words and were
/// created within the dates, newest first or oldest first as it is asked.
pub proof fn searching(
    account_id: &str,
    text: &str,
    limit: i64,
    since_date: Option<&str>,
    until_date: Option<&str>,
    ascending: bool,
    asked: Query,
    tables: Tables,
    answer: Seq<Seq<Cell>>,
    m: Matching,
)
    requires
        call_ensures(
            Database::search_cached_notes_advanced,
            (account_id, text, limit, since_date, until_date, ascending),
            asked,
        ),
        asked@.answered(tables, answer, m),
    ensures
        gives(
            answer,
            tables[Table::Notes],
            found(account_id@, text@, since_date.deep_view(), until_date.deep_view(), m),
            seq![Column::NoteJson],
            if ascending {
                Order::Ascending(Column::CreatedAt)
            } else {
                Order::Descending(Column::CreatedAt)
            },
            Some(limit as int),
        ),
{
    let since = since_date.deep_view();
    let until = until_date.deep_view();
    assert forall|row: Row| #[trigger]
        meets(row, asked@->Select_filter, m) <==> found(account_id@, text@, since, until, m)(
            row,
        ) by {
        lemma_sought(row, account_id@, text@, since, until, m);
    }
    lemma_gives(asked@, found(account_id@, text@, since, until, m), tables, answer, m);
}

/// A plain search is one without dates, newest first.
pub proof fn searching_plainly(
    account_id: &str,
    text: &str,
    limit: i64,
    asked: Query,
    tables: Tables,
    answer: Seq<Seq<Cell>>,
    m: Matching,
)
    requires
        call_ensures(Database::search_cached_notes, (account_id, text, limit), asked),
        asked@.answered(tables, answer, m),
    ensures
        gives(
            answer,
            tables[Table::Notes],
            found(account_id@, text@, None, None, m),
            seq![Column::NoteJson],
            Order::Descending(Column::CreatedAt),
            Some(limit as int),
        ),
{
    assert forall|row: Row| #[trigger]
        meets(row, asked@->Select_filter, m) <==> found(account_id@, text@, None, None, m)(row) by {
        lemma_sought(row, account_id@, text@, None, None, m);
    }
    lemma_gives(asked@, found(account_id@, text@, None, None, m), tables, answer, m);
}

/// The notes of a timeline that were created at a time or before it.
pub open spec fn not_later(
    account_id: Seq<char>,
    timeline_type: Seq<char>,
    time: Seq<char>,
) -> spec_fn(Row) -> bool {
    |row: Row|
        {
            &&& row[Column::AccountId] == Cell::Text(account_id)
            &&& row[Column::TimelineType] == Cell::Text(timeline_type)
            &&& less(row[Column::CreatedAt], Cell::Text(time)) || row[Column::CreatedAt]
                == Cell::Text(time)
        }
}

/// To find notes by a URI asks for those that have it, of all accounts.
pub proof fn finding_notes_by_uri(
    uri: &str,
    asked: Query,
    tables: Tables,
    answer: Seq<Seq<Cell>>,
    m: Matching,
)
    requires
        call_ensures(Database::find_notes_by_uri, (uri,), asked),
        asked@.answered(tables, answer, m),
    ensures
        gives(
            answer,
            tables[Table::Notes],
            with(Column::Uri, uri@),
            seq![Column::NoteJson],
            Order::Unordered,
            None,
        ),
{
    lemma_with(asked@->Select_filter, Column::Uri, uri@, m);
    lemma_gives(asked@, with(Column::Uri, uri@), tables, answer, m);
}

/// To get a timeline asks for the notes that the account cached for it, newest
/// first.
pub proof fn getting_a_timeline(
    account_id: &str,
    timeline_type: &str,
    limit: i64,
    asked: Query,
    tables: Tables,
    answer: Seq<Seq<Cell>>,
    m: Matching,
)
    requires
        call_ensures(Database::get_cached_timeline, (account_id, timeline_type, limit), asked),
        asked@.answered(tables, answer, m),
    ensures
        gives(
            answer,
            tables[Table::Notes],
            with_both(Column::AccountId, account_id@, Column::TimelineType, timeline_type@),
            seq![Column::NoteJson],
            Order::Descending(Column::CreatedAt),
            Some(limit as int),
        ),
{
    lemma_with_both(
        asked@->Select_filter,
        Column::AccountId,
        account_id@,
        Column::TimelineType,
        timeline_type@,
        m,
    );
    lemma_gives(
        asked@,
        with_both(Column::AccountId, account_id@, Column::TimelineType, timeline_type@),
        tables,
        answer,
        m,
    );
}

/// To get a timeline before a time asks for the notes that the account cached
/// for it and that were created then or earlier, newest first.
pub proof fn getting_a_timeline_before_a_time(
    account_id: &str,
    timeline_type: &str,
    before: &str,
    limit: i64,
    asked: Query,
    tables: Tables,
    answer: Seq<Seq<Cell>>,
    m: Matching,
)
    requires
        call_ensures(
            Database::get_cached_timeline_before,
            (account_id, timeline_type, before, limit),
            asked,
        ),
        asked@.answered(tables, answer, m),
    ensures
        gives(
            answer,
            tables[Table::Notes],
            not_later(account_id@, timeline_type@, before@),
            seq![Column::NoteJson],
            Order::Descending(Column::CreatedAt),
            Some(limit as int),
        ),
{
    assert(asked@->Select_filter =~= seq![
        is_text(Column::AccountId, account_id@),
        is_text(Column::TimelineType, timeline_type@),
        ConditionView {
            column: Column::CreatedAt,
            test: Test::AtMost,
            value: Cell::Text(before@),
        },
    ]);
    assert forall|row: Row| #[trigger]
        meets(row, asked@->Select_filter, m) <==> not_later(
            account_id@,
            timeline_type@,
            before@,
        )(row) by {
        lemma_meets_three(
            row,
            is_text(Column::AccountId, account_id@),
            is_text(Column::TimelineType, timeline_type@),
            ConditionView {
                column: Column::CreatedAt,
                test: Test::AtMost,
                value: Cell::Text(before@),
            },
            m,
        );
    }
    lemma_gives(asked@, not_later(account_id@, timeline_type@, before@), tables, answer, m);
}

/// To get the dates of a timeline asks for the first and the last time at which
/// one of its notes was created.
pub proof fn getting_the_dates_of_a_timeline(
    account_id: &str,
    timeline_type: &str,
    asked: Query,
    tables: Tables,
    answer: Seq<Seq<Cell>>,
    m: Matching,
)
    requires
        call_ensures(Database::get_cache_date_range, (account_id, timeline_type), asked),
        asked@.answered(tables, answer, m),
    ensures
        ends(
            answer,
            tables[Table::Notes],
            with_both(Column::AccountId, account_id@, Column::TimelineType, timeline_type@),
            Column::CreatedAt,
        ),
{
    lemma_with_both(
        asked@->Range_filter,
        Column::AccountId,
        account_id@,
        Column::TimelineType,
        timeline_type@,
        m,
    );
    lemma_ends(
        asked@,
        with_both(Column::AccountId, account_id@, Column::TimelineType, timeline_type@),
        tables,
        answer,
        m,
    );
}

/// To delete a note removes it for every account.
pub proof fn deleting_a_note(
    note_id: &str,
    deleted: Statement,
    before: Tables,
    after: Tables,
    changed: nat,
    m: Matching,
)
    requires
        call_ensures(Database::delete_cached_note, (note_id,), deleted),
        deleted@.step(before, after, changed, m),
    ensures
        removes(Table::Notes, with(Column::NoteId, note_id@), before, after, changed),
{
    lemma_with(deleted@->Delete_filter, Column::NoteId, note_id@, m);
    lemma_removes(
        Table::Notes,
        deleted@->Delete_filter,
        with(Column::NoteId, note_id@),
        before,
        after,
        changed,
        m,
    );
}

/// To clear the cache of an account removes its notes.
pub proof fn clearing_an_account(
    account_id: &str,
    deleted: Statement,
    before: Tables,
    after: Tables,
    changed: nat,
    m: Matching,
)
    requires
        call_ensures(Database::clear_account_cache, (account_id,), deleted),
        deleted@.step(before, after, changed, m),
    ensures
        removes(Table::Notes, with(Column::AccountId, account_id@), before, after, changed),
{
    lemma_with(deleted@->Delete_filter, Column::AccountId, account_id@, m);
    lemma_removes(
        Table::Notes,
        deleted@->Delete_filter,
        with(Column::AccountId, account_id@),
        before,
        after,
        changed,
        m,
    );
}

/// To clear the cache of all notes removes every note.
pub proof fn clearing_all_notes(
    deleted: Statement,
    before: Tables,
    after: Tables,
    changed: nat,
    m: Matching,
)
    requires
        call_ensures(Database::clear_all_notes_cache, (), deleted),
        deleted@.step(before, after, changed, m),
    ensures
        removes(Table::Notes, any(), before, after, changed),
{
    lemma_removes(
        Table::Notes,
        deleted@->Delete_filter,
        any(),
        before,
        after,
        changed,
        m,
    );
}

/// To count the notes of an account asks for the number of its notes.
pub proof fn counting_notes(
    account_id: &str,
    asked: Query,
    tables: Tables,
    answer: Seq<Seq<Cell>>,
    m: Matching,
)
    requires
        call_ensures(Database::account_cache_count, (account_id,), asked),
        asked@.answered(tables, answer, m),
    ensures
        counts(answer, tables[Table::Notes], with(Column::AccountId, account_id@)),
{
    lemma_with(asked@->Count_filter, Column::AccountId, account_id@, m);
    lemma_counts(
        Table::Notes,
        asked@->Count_filter,
        with(Column::AccountId, account_id@),
        tables,
        answer,
        m,
    );
}

/// The statistics ask for the number of all notes, for the number of pages of the
/// file, and for the size of a page.
pub proof fn asking_for_statistics(
    asked: (Query, Sql, Sql),
    tables: Tables,
    answer: Seq<Seq<Cell>>,
    m: Matching,
)
    requires
        call_ensures(Database::cache_stats, (), asked),
        asked.0@.answered(tables, answer, m),
    ensures
        counts(answer, tables[Table::Notes], any()),
        asked.1.text@ == "SELECT page_count FROM pragma_page_count"@,
        asked.1.params@.len() == 0,
        asked.2.text@ == "SELECT page_size FROM pragma_page_size"@,
        asked.2.params@.len() == 0,
{
    lemma_counts(Table::Notes, asked.0@->Count_filter, any(), tables, answer, m);
    assert(asked.1@.text =~= "SELECT page_count FROM pragma_page_count"@);
    assert(asked.2@.text =~= "SELECT page_size FROM pragma_page_size"@);
    assert(asked.1@.params.len() == 0);
    assert(asked.2@.params.len() == 0);
}

} // verus!
