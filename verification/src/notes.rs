//! The cache of notes.
use vstd::prelude::*;
use crate::accounts::{delete_by, deletion_by};
use crate::database::{Database, Transaction};
use crate::decode::{decodable_rows, optional_text_at, seen, Answer, FromRow};
use crate::error::{DatabaseErrorView, NoteDeckError};
use crate::records::{NoteRecord, NoteRecordView};
use crate::sql::{
    assign, is_text, Assignment, AssignmentView, Condition, ConditionView, Order, Query, QueryView,
    Sql, SqlView, Statement, StatementView, Test,
};
use crate::text::{anywhere, contains_pattern, quote, quoted};
use crate::value::{optional_text, Cell, Column, Table, Value};

verus! {

/// The text, or an empty one where there is none.
pub open spec fn text_or_empty(t: Option<Seq<char>>) -> Seq<char> {
    match t {
        Some(s) => s,
        None => ""@,
    }
}

/// What each column of a note's row holds when the note is cached at `now` for
/// a timeline.
pub open spec fn note_values(
    note: NoteRecordView,
    timeline_type: Seq<char>,
    now: int,
) -> Seq<AssignmentView> {
    seq![
        assign(Column::NoteId, Cell::Text(note.id)),
        assign(Column::AccountId, Cell::Text(note.account_id)),
        assign(Column::ServerHost, Cell::Text(note.server_host)),
        assign(Column::CreatedAt, Cell::Text(note.created_at)),
        assign(Column::Text, optional_text(note.text)),
        assign(Column::NoteJson, Cell::Text(text_or_empty(note.json))),
        assign(Column::CachedAt, Cell::Integer(now)),
        assign(Column::TimelineType, Cell::Text(timeline_type)),
        assign(Column::Uri, optional_text(note.uri)),
    ]
}

/// The statement that caches a note. A note that the account has cached before
/// keeps its server and its time of creation and takes over the rest.
pub open spec fn note_upsert(
    note: NoteRecordView,
    timeline_type: Seq<char>,
    now: int,
) -> StatementView {
    StatementView::Upsert {
        table: Table::Notes,
        values: note_values(note, timeline_type, now),
        key: seq![Column::NoteId, Column::AccountId],
        update: seq![
            Column::Text,
            Column::NoteJson,
            Column::CachedAt,
            Column::TimelineType,
            Column::Uri,
        ],
    }
}

/// The query for the JSON of the notes that meet `filter`.
pub open spec fn note_query(
    filter: Seq<ConditionView>,
    order: Order,
    limit: Option<int>,
) -> QueryView {
    QueryView::Select {
        table: Table::Notes,
        columns: seq![Column::NoteJson],
        filter,
        order,
        limit,
    }
}

/// The conditions that a note belongs to a timeline of an account.
pub open spec fn on_timeline(account_id: Seq<char>, timeline_type: Seq<char>) -> Seq<
    ConditionView,
> {
    seq![is_text(Column::AccountId, account_id), is_text(Column::TimelineType, timeline_type)]
}

/// The condition that a note holds the words of a search: by the full-text
/// index where there are three characters or more to look for, by a scan for
/// one or two, and none for none.
pub open spec fn text_conditions(query: Seq<char>) -> Seq<ConditionView> {
    if query.len() == 0 {
        Seq::empty()
    } else if query.len() >= 3 {
        seq![
            ConditionView {
                column: Column::Text,
                test: Test::Match,
                value: Cell::Text(quoted(query)),
            },
        ]
    } else {
        seq![
            ConditionView {
                column: Column::Text,
                test: Test::Like,
                value: Cell::Text(anywhere(query)),
            },
        ]
    }
}

/// The condition that a note was created at a time or on one side of it, where
/// a time is given.
pub open spec fn date_conditions(test: Test, date: Option<Seq<char>>) -> Seq<ConditionView> {
    match date {
        Some(d) => seq![
            ConditionView { column: Column::CreatedAt, test, value: Cell::Text(d) },
        ],
        None => Seq::empty(),
    }
}

/// The conditions of a search.
pub open spec fn search_filter(
    account_id: Seq<char>,
    query: Seq<char>,
    since_date: Option<Seq<char>>,
    until_date: Option<Seq<char>>,
) -> Seq<ConditionView> {
    seq![is_text(Column::AccountId, account_id)] + text_conditions(query) + date_conditions(
        Test::AtLeast,
        since_date,
    ) + date_conditions(Test::AtMost, until_date)
}

/// The query of a search.
pub open spec fn search_query(
    account_id: Seq<char>,
    query: Seq<char>,
    limit: int,
    since_date: Option<Seq<char>>,
    until_date: Option<Seq<char>>,
    ascending: bool,
) -> QueryView {
    note_query(
        search_filter(account_id, query, since_date, until_date),
        if ascending {
            Order::Ascending(Column::CreatedAt)
        } else {
            Order::Descending(Column::CreatedAt)
        },
        Some(limit),
    )
}

fn query(filter: Vec<Condition>, order: Order, limit: Option<i64>) -> (r: Query)
    ensures
        r@ == note_query(
            filter.deep_view(),
            order,
            match limit {
                Some(n) => Some(n as int),
                None => None,
            },
        ),
{
    let columns: Vec<Column> = vec![Column::NoteJson];
    assert(columns@ =~= seq![Column::NoteJson]);
    Query::Select { table: Table::Notes, columns, filter, order, limit }
}

fn upsert(note: &NoteRecord, timeline_type: &str, now: i64) -> (r: Statement)
    ensures
        r@ == note_upsert(note@, timeline_type@, now as int),
{
    let json: String = match &note.json {
        Some(s) => s.clone(),
        None => "".to_owned(),
    };
    let values: Vec<Assignment> = vec![
        Assignment::new(Column::NoteId, Value::text(note.id.as_str())),
        Assignment::new(Column::AccountId, Value::text(note.account_id.as_str())),
        Assignment::new(Column::ServerHost, Value::text(note.server_host.as_str())),
        Assignment::new(Column::CreatedAt, Value::text(note.created_at.as_str())),
        Assignment::new(Column::Text, Value::optional_text(&note.text)),
        Assignment::new(Column::NoteJson, Value::Text(json)),
        Assignment::new(Column::CachedAt, Value::Integer(now)),
        Assignment::new(Column::TimelineType, Value::text(timeline_type)),
        Assignment::new(Column::Uri, Value::optional_text(&note.uri)),
    ];
    assert(values.deep_view() =~= note_values(note@, timeline_type@, now as int));
    let r = Statement::Upsert {
        table: Table::Notes,
        values,
        key: vec![Column::NoteId, Column::AccountId],
        update: vec![
            Column::Text,
            Column::NoteJson,
            Column::CachedAt,
            Column::TimelineType,
            Column::Uri,
        ],
    };
    assert(r@ =~= note_upsert(note@, timeline_type@, now as int));
    r
}

/// The two ends of a range, each null where there is none.
impl FromRow for (Option<String>, Option<String>) {
    open spec fn decoded(row: Seq<Cell>) -> Result<
        (Option<Seq<char>>, Option<Seq<char>>),
        DatabaseErrorView,
    > {
        if optional_text_at(row, 0) is Err {
            Err(optional_text_at(row, 0)->Err_0)
        } else if optional_text_at(row, 1) is Err {
            Err(optional_text_at(row, 1)->Err_0)
        } else {
            Ok((optional_text_at(row, 0)->Ok_0, optional_text_at(row, 1)->Ok_0))
        }
    }

    fn from_row(row: &Vec<Value>) -> (r: Result<Self, NoteDeckError>) {
        let first = crate::decode::get_optional_text(row, 0)?;
        let second = crate::decode::get_optional_text(row, 1)?;
        Ok((first, second))
    }
}

/// The range that an answer gives: none unless both ends are there.
pub open spec fn date_range(
    ends: Result<(Option<Seq<char>>, Option<Seq<char>>), DatabaseErrorView>,
) -> Result<Option<(Seq<char>, Seq<char>)>, DatabaseErrorView> {
    match ends {
        Ok((Some(min), Some(max))) => Ok(Some((min, max))),
        Ok(_) => Ok(None),
        Err(e) => Err(e),
    }
}

/// The statistics that three counts give: how many notes, and how many bytes.
pub open spec fn stats(
    count: Result<i64, DatabaseErrorView>,
    page_count: Result<i64, DatabaseErrorView>,
    page_size: Result<i64, DatabaseErrorView>,
) -> Result<(i64, i64), DatabaseErrorView> {
    match (count, page_count, page_size) {
        (Err(e), _, _) => Err(e),
        (_, Err(e), _) => Err(e),
        (_, _, Err(e)) => Err(e),
        (Ok(n), Ok(pages), Ok(size)) => Ok((n, (pages * size) as i64)),
    }
}

impl Database {
    /// Caches notes of a timeline at the time `now`, in seconds.
    pub fn cache_notes(notes: &Vec<NoteRecord>, timeline_type: &str, now: i64) -> (r: Transaction)
        ensures
            r@ == notes.deep_view().map_values(
                |note: NoteRecordView| note_upsert(note, timeline_type@, now as int),
            ),
    {
        let mut statements: Vec<Statement> = Vec::new();
        let mut i: usize = 0;
        while i < notes.len()
            invariant
                i <= notes@.len(),
                statements@.len() == i,
                forall|k: int|
                    0 <= k < i ==> (#[trigger] statements@[k])@ == note_upsert(
                        notes@[k]@,
                        timeline_type@,
                        now as int,
                    ),
            decreases notes@.len() - i,
        {
            statements.push(upsert(&notes[i], timeline_type, now));
            i += 1;
        }
        let r = Transaction { statements };
        assert(r@ =~= notes.deep_view().map_values(
            |note: NoteRecordView| note_upsert(note, timeline_type@, now as int),
        ));
        r
    }

    /// Caches one note of a timeline at the time `now`, in seconds.
    pub fn cache_note(note: &NoteRecord, timeline_type: &str, now: i64) -> (r: Transaction)
        ensures
            r@ == seq![note_upsert(note@, timeline_type@, now as int)],
    {
        let r = Transaction { statements: vec![upsert(note, timeline_type, now)] };
        assert(r@ =~= seq![note_upsert(note@, timeline_type@, now as int)]);
        r
    }

    /// The cached notes with an ActivityPub URI, of all accounts.
    pub fn find_notes_by_uri(uri: &str) -> (r: Query)
        ensures
            r@ == note_query(seq![is_text(Column::Uri, uri@)], Order::Unordered, None),
    {
        let filter: Vec<Condition> = vec![Condition::is_text(Column::Uri, uri)];
        assert(filter.deep_view() =~= seq![is_text(Column::Uri, uri@)]);
        query(filter, Order::Unordered, None)
    }

    /// The notes of an account that hold the words of `text`, newest first.
    pub fn search_cached_notes(account_id: &str, text: &str, limit: i64) -> (r: Query)
        ensures
            r@ == search_query(account_id@, text@, limit as int, None, None, false),
    {
        Database::search_cached_notes_advanced(account_id, text, limit, None, None, false)
    }

    /// The notes of an account that hold the words of `text`, where there are
    /// any, created within the given dates, in order of creation.
    pub fn search_cached_notes_advanced(
        account_id: &str,
        text: &str,
        limit: i64,
        since_date: Option<&str>,
        until_date: Option<&str>,
        ascending: bool,
    ) -> (r: Query)
        ensures
            r@ == search_query(
                account_id@,
                text@,
                limit as int,
                since_date.deep_view(),
                until_date.deep_view(),
                ascending,
            ),
    {
        let mut filter: Vec<Condition> = vec![Condition::is_text(Column::AccountId, account_id)];
        let length: usize = text.unicode_len();
        if length >= 3 {
            filter.push(
                Condition {
                    column: Column::Text,
                    test: Test::Match,
                    value: Value::Text(quote(text)),
                },
            );
        } else if length > 0 {
            filter.push(
                Condition {
                    column: Column::Text,
                    test: Test::Like,
                    value: Value::Text(contains_pattern(text)),
                },
            );
        }
        if let Some(d) = since_date {
            filter.push(
                Condition { column: Column::CreatedAt, test: Test::AtLeast, value: Value::text(d) },
            );
        }
        if let Some(d) = until_date {
            filter.push(
                Condition { column: Column::CreatedAt, test: Test::AtMost, value: Value::text(d) },
            );
        }
        assert(filter.deep_view() =~= search_filter(
            account_id@,
            text@,
            since_date.deep_view(),
            until_date.deep_view(),
        ));
        let order = if ascending {
            Order::Ascending(Column::CreatedAt)
        } else {
            Order::Descending(Column::CreatedAt)
        };
        query(filter, order, Some(limit))
    }

    /// The JSON of the notes that a search found. Rows that cannot be read are
    /// passed over.
    pub fn search_reply(answer: &Answer) -> (r: Vec<String>)
        ensures
            r.deep_view() == decodable_rows::<String>(answer@.rows),
    {
        answer.readable::<String>()
    }

    /// The newest notes of a timeline.
    pub fn get_cached_timeline(account_id: &str, timeline_type: &str, limit: i64) -> (r: Query)
        ensures
            r@ == note_query(
                on_timeline(account_id@, timeline_type@),
                Order::Descending(Column::CreatedAt),
                Some(limit as int),
            ),
    {
        let filter: Vec<Condition> = vec![
            Condition::is_text(Column::AccountId, account_id),
            Condition::is_text(Column::TimelineType, timeline_type),
        ];
        assert(filter.deep_view() =~= on_timeline(account_id@, timeline_type@));
        query(filter, Order::Descending(Column::CreatedAt), Some(limit))
    }

    /// The newest notes of a timeline that were created at `before` or earlier.
    pub fn get_cached_timeline_before(
        account_id: &str,
        timeline_type: &str,
        before: &str,
        limit: i64,
    ) -> (r: Query)
        ensures
            r@ == note_query(
                on_timeline(account_id@, timeline_type@) + date_conditions(
                    Test::AtMost,
                    Some(before@),
                ),
                Order::Descending(Column::CreatedAt),
                Some(limit as int),
            ),
    {
        let filter: Vec<Condition> = vec![
            Condition::is_text(Column::AccountId, account_id),
            Condition::is_text(Column::TimelineType, timeline_type),
            Condition { column: Column::CreatedAt, test: Test::AtMost, value: Value::text(before) },
        ];
        assert(filter.deep_view() =~= on_timeline(account_id@, timeline_type@)
            + date_conditions(Test::AtMost, Some(before@)));
        query(filter, Order::Descending(Column::CreatedAt), Some(limit))
    }

    /// The JSON of all notes of the answer to a query for notes other than a
    /// search.
    pub fn notes_reply(answer: &Answer) -> (r: Result<Vec<String>, NoteDeckError>)
        ensures
            seen(r) == answer@.all::<String>(),
    {
        answer.all::<String>()
    }

    /// When the oldest and the newest cached note of a timeline were created.
    pub fn get_cache_date_range(account_id: &str, timeline_type: &str) -> (r: Query)
        ensures
            r@ == (QueryView::Range {
                table: Table::Notes,
                column: Column::CreatedAt,
                filter: on_timeline(account_id@, timeline_type@),
            }),
    {
        let filter: Vec<Condition> = vec![
            Condition::is_text(Column::AccountId, account_id),
            Condition::is_text(Column::TimelineType, timeline_type),
        ];
        assert(filter.deep_view() =~= on_timeline(account_id@, timeline_type@));
        Query::Range { table: Table::Notes, column: Column::CreatedAt, filter }
    }

    /// The range of the answer; none where the timeline has no notes.
    pub fn get_cache_date_range_reply(answer: &Answer) -> (r: Result<
        Option<(String, String)>,
        NoteDeckError,
    >)
        ensures
            seen(r) == date_range(answer@.one::<(Option<String>, Option<String>)>()),
    {
        let ends = answer.one::<(Option<String>, Option<String>)>()?;
        match ends {
            (Some(min), Some(max)) => Ok(Some((min, max))),
            _ => Ok(None),
        }
    }

    /// Deletes a note for every account that has it.
    pub fn delete_cached_note(note_id: &str) -> (r: Statement)
        ensures
            r@ == deletion_by(Table::Notes, Column::NoteId, note_id@),
    {
        delete_by(Table::Notes, Column::NoteId, note_id)
    }

    /// Deletes all notes of an account.
    pub fn clear_account_cache(account_id: &str) -> (r: Statement)
        ensures
            r@ == deletion_by(Table::Notes, Column::AccountId, account_id@),
    {
        delete_by(Table::Notes, Column::AccountId, account_id)
    }

    /// Deletes all notes.
    pub fn clear_all_notes_cache() -> (r: Statement)
        ensures
            r@ == (StatementView::Delete { table: Table::Notes, filter: Seq::empty() }),
    {
        let filter: Vec<Condition> = Vec::new();
        assert(filter.deep_view() =~= Seq::<ConditionView>::empty());
        Statement::Delete { table: Table::Notes, filter }
    }

    /// How many notes an account has cached.
    pub fn account_cache_count(account_id: &str) -> (r: Query)
        ensures
            r@ == (QueryView::Count {
                table: Table::Notes,
                filter: seq![is_text(Column::AccountId, account_id@)],
            }),
    {
        let filter: Vec<Condition> = vec![Condition::is_text(Column::AccountId, account_id)];
        assert(filter.deep_view() =~= seq![is_text(Column::AccountId, account_id@)]);
        Query::Count { table: Table::Notes, filter }
    }

    /// How many notes there are, how many pages the database file has, and how
    /// large a page is: three queries.
    pub fn cache_stats() -> (r: (Query, Sql, Sql))
        ensures
            r.0@ == (QueryView::Count { table: Table::Notes, filter: Seq::empty() }),
            r.1@ == SqlView::empty().lit("SELECT page_count FROM pragma_page_count"@),
            r.2@ == SqlView::empty().lit("SELECT page_size FROM pragma_page_size"@),
    {
        let filter: Vec<Condition> = Vec::new();
        assert(filter.deep_view() =~= Seq::<ConditionView>::empty());
        (
            Query::Count { table: Table::Notes, filter },
            Sql::plain("SELECT page_count FROM pragma_page_count"),
            Sql::plain("SELECT page_size FROM pragma_page_size"),
        )
    }

    /// How many notes there are, and how many bytes the database file has.
    pub fn cache_stats_reply(count: &Answer, page_count: &Answer, page_size: &Answer) -> (r: Result<
        (i64, i64),
        NoteDeckError,
    >)
        requires
            match (page_count@.one::<i64>(), page_size@.one::<i64>()) {
                (Ok(pages), Ok(size)) => i64::MIN <= pages * size <= i64::MAX,
                _ => true,
            },
        ensures
            seen(r) == stats(
                count@.one::<i64>(),
                page_count@.one::<i64>(),
                page_size@.one::<i64>(),
            ),
    {
        let notes = count.one::<i64>()?;
        let pages = page_count.one::<i64>()?;
        let size = page_size.one::<i64>()?;
        Ok((notes, pages * size))
    }
}

} // verus!
