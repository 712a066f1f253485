//! Calls that make SQL, and what goes into it.
use vstd::prelude::*;
use crate::chat::{ChatRecord, ChatRecordView};
use crate::config::{ChatEvictionConfig, EvictionConfig};
use crate::database::{Database, Transaction};
use crate::laws::calls::accounts::read_columns as account_columns;
use crate::laws::calls::chats::written_columns as message_columns;
use crate::laws::calls::notes::written_columns as note_columns;
use crate::laws::calls::notes::{caching_a_note, found, holds_record, searching};
use crate::laws::calls::pages::written_columns as page_columns;
use crate::laws::calls::servers::read_columns as detection_columns;
use crate::laws::calls::{gives, holds_text};
use crate::laws::language::{
    a_query_asks_what_its_text_says, a_statement_does_what_its_text_says, askable_query, columns_of,
    sendable, Command, Question,
};
use crate::laws::rows::lemma_overwritten;
use crate::laws::search::{phrase_read, quoted_words_mean_themselves};
use crate::messages::{message_upserts, ReactionStep, ThreadStep};
use crate::records::{Account, NoteRecord, ServerDetection, SummaryRow};
use crate::sql::{Assignment, Condition, Order, Query, Sql, Statement, Test};
use crate::tables::{agree, has_key, overwritten, upserted, Matching, Row, Tables};
use crate::text::{contains_pattern, decimal, digit, quote};
use crate::value::{Cell, Column, Table, Value};

verus! {

/// What is sent for a statement is SQL that does what the statement is to do.
pub proof fn sending_a_statement(statement: Statement, sql: Sql) -> (command: Command)
    requires
        call_ensures(Statement::sql, (&statement,), sql),
        sendable(statement@),
    ensures
        command.text() == sql.text@,
        command.well_read(),
        forall|before: Tables, after: Tables, changed: nat, m: Matching| #[trigger]
            command.does(sql.params.deep_view(), before, after, changed, m) <==> statement@.step(
                before,
                after,
                changed,
                m,
            ),
{
    assert(sql.params.deep_view() == statement@.sql().params);
    a_statement_does_what_its_text_says(statement@)
}

/// What is sent for a query is SQL that asks for what the query is to ask for.
pub proof fn sending_a_query(query: Query, sql: Sql) -> (question: Question)
    requires
        call_ensures(Query::sql, (&query,), sql),
        askable_query(query@),
        !(query is Size),
    ensures
        question.text() == sql.text@,
        question.well_read(),
        forall|tables: Tables, answer: Seq<Seq<Cell>>, m: Matching| #[trigger]
            question.gives(sql.params.deep_view(), tables, answer, m) <==> query@.answered(
                tables,
                answer,
                m,
            ),
{
    assert(sql.params.deep_view() == query@.sql().params);
    a_query_asks_what_its_text_says(query@)
}

/// What is sent for the bytes of a table asks for the pages of its name.
pub proof fn sending_for_bytes(table: Table, sql: Sql)
    requires
        call_ensures(Query::sql, (&Query::Size { table },), sql),
    ensures
        sql.text@ == "SELECT COALESCE(SUM(pgsize), 0) FROM dbstat WHERE name = ?1"@,
        sql.params@.len() == 1,
        sql.params@[0]@ == Cell::Text(table.spec_name()),
{
    let view = (Query::Size { table })@.sql();
    assert(sql@ == view);
    reveal_strlit("SELECT ");
    reveal_strlit("COALESCE(SUM(pgsize), 0) FROM dbstat WHERE name = ");
    reveal_strlit("?");
    reveal_strlit("SELECT COALESCE(SUM(pgsize), 0) FROM dbstat WHERE name = ?1");
    reveal_with_fuel(decimal, 2);
    assert(decimal(1) =~= seq!['1']);
    assert(view.text =~= "SELECT COALESCE(SUM(pgsize), 0) FROM dbstat WHERE name = ?1"@);
    assert(sql@.params.len() == sql.params@.len());
    assert(sql@.params[0] == sql.params@[0]@);
}

/// A search is sent as SQL that asks for the notes of the account that hold the
/// words and were created within the dates, and for no others.
pub proof fn sending_a_search(
    account_id: &str,
    text: &str,
    limit: i64,
    since_date: Option<&str>,
    until_date: Option<&str>,
    ascending: bool,
    asked: Query,
    sql: Sql,
    m: Matching,
) -> (question: Question)
    requires
        call_ensures(
            Database::search_cached_notes_advanced,
            (account_id, text, limit, since_date, until_date, ascending),
            asked,
        ),
        call_ensures(Query::sql, (&asked,), sql),
    ensures
        question.text() == sql.text@,
        question.well_read(),
        forall|tables: Tables, answer: Seq<Seq<Cell>>| #[trigger]
            question.gives(sql.params.deep_view(), tables, answer, m) ==> gives(
                answer,
                tables[Table::Notes],
                found(account_id@, text@, since_date.deep_view(), until_date.deep_view(), m),
                seq![Column::NoteJson],
                if ascending {
                    Order::Ascending(Column::CreatedAt)
                } else {
                    Order::Descending(Column::CreatedAt)
                },
                Some(limit as int),
            ),
{
    assert(askable_query(asked@));
    let question = sending_a_query(asked, sql);
    assert forall|tables: Tables, answer: Seq<Seq<Cell>>| #[trigger]
        question.gives(sql.params.deep_view(), tables, answer, m) implies gives(
        answer,
        tables[Table::Notes],
        found(account_id@, text@, since_date.deep_view(), until_date.deep_view(), m),
        seq![Column::NoteJson],
        if ascending {
            Order::Ascending(Column::CreatedAt)
        } else {
            Order::Descending(Column::CreatedAt)
        },
        Some(limit as int),
    ) by {
        searching(
            account_id,
            text,
            limit,
            since_date,
            until_date,
            ascending,
            asked,
            tables,
            answer,
            m,
        );
    }
    question
}

/// Whether the rows of a note are as it was cached last: there is one, and each has
/// the text, the JSON, the time, the timeline and the URI of that call.
pub open spec fn cached_last(
    rows: Seq<Row>,
    note: NoteRecord,
    timeline_type: Seq<char>,
    now: int,
) -> bool {
    &&& exists|i: int| 0 <= i < rows.len() && is_row_of(#[trigger] rows[i], note)
    &&& forall|i: int|
        0 <= i < rows.len() && is_row_of(#[trigger] rows[i], note) ==> {
            &&& holds_text(rows[i][Column::Text], note.text)
            &&& rows[i][Column::NoteJson] == Cell::Text(
                match note.json {
                    Some(json) => json@,
                    None => Seq::empty(),
                },
            )
            &&& rows[i][Column::CachedAt] == Cell::Integer(now)
            &&& rows[i][Column::TimelineType] == Cell::Text(timeline_type)
            &&& holds_text(rows[i][Column::Uri], note.uri)
        }
}

/// Whether a row is that of a note of an account.
pub open spec fn is_row_of(row: Row, note: NoteRecord) -> bool {
    row[Column::NoteId] == Cell::Text(note.id@) && row[Column::AccountId] == Cell::Text(
        note.account_id@,
    )
}

proof fn lemma_cached_last(
    note: NoteRecord,
    timeline_type: Seq<char>,
    now: int,
    new: Row,
    rows: Seq<Row>,
    all: Seq<Row>,
)
    requires
        holds_record(new, note, timeline_type, now),
        all == upserted(
            rows,
            new,
            seq![Column::NoteId, Column::AccountId],
            seq![
                Column::Text,
                Column::NoteJson,
                Column::CachedAt,
                Column::TimelineType,
                Column::Uri,
            ],
        ),
    ensures
        cached_last(all, note, timeline_type, now),
{
    let key = seq![Column::NoteId, Column::AccountId];
    let update = seq![
        Column::Text,
        Column::NoteJson,
        Column::CachedAt,
        Column::TimelineType,
        Column::Uri,
    ];
    assert(update[0] == Column::Text);
    assert(update[1] == Column::NoteJson);
    assert(update[2] == Column::CachedAt);
    assert(update[3] == Column::TimelineType);
    assert(update[4] == Column::Uri);
    assert forall|row: Row| #[trigger] agree(row, new, key) <==> is_row_of(row, note) by {
        if agree(row, new, key) {
            assert(row[key[0]] == new[key[0]]);
            assert(row[key[1]] == new[key[1]]);
        }
    }
    assert forall|row: Row, c: Column| #[trigger] overwritten(row, new, update)[c]
        == if update.contains(c) {
        new[c]
    } else {
        row[c]
    } by {
        lemma_overwritten(row, new, update, c);
    }
    if has_key(rows, new, key) {
        let i = choose|i: int| 0 <= i < rows.len() && agree(#[trigger] rows[i], new, key);
        assert(all[i] == overwritten(rows[i], new, update));
        assert(is_row_of(all[i], note));
        assert forall|k: int| 0 <= k < all.len() && is_row_of(#[trigger] all[k], note) implies {
            &&& holds_text(all[k][Column::Text], note.text)
            &&& all[k][Column::NoteJson] == new[Column::NoteJson]
            &&& all[k][Column::CachedAt] == Cell::Integer(now)
            &&& all[k][Column::TimelineType] == Cell::Text(timeline_type)
            &&& holds_text(all[k][Column::Uri], note.uri)
        } by {
            if !agree(rows[k], new, key) {
                assert(all[k] == rows[k]);
            }
        }
    } else {
        assert(is_row_of(all[rows.len() as int], note));
        assert forall|k: int| 0 <= k < all.len() && is_row_of(
            #[trigger] all[k],
            note,
        ) implies all[k] == new by {
            if k < rows.len() {
                assert(agree(rows[k], new, key));
            }
        }
    }
}

/// A note is sent as SQL by which it is there as it was cached last, whatever was
/// cached of it before: with its last JSON as with its last text.
pub proof fn sending_a_note(
    note: NoteRecord,
    timeline_type: &str,
    now: i64,
    cached: Transaction,
    sql: Sql,
) -> (command: Command)
    requires
        call_ensures(Database::cache_note, (&note, timeline_type, now), cached),
        call_ensures(Statement::sql, (&cached.statements@[0],), sql),
    ensures
        cached.statements@.len() == 1,
        command.text() == sql.text@,
        command.well_read(),
        forall|before: Tables, after: Tables, changed: nat, m: Matching| #[trigger]
            command.does(sql.params.deep_view(), before, after, changed, m) ==> cached_last(
                after[Table::Notes],
                note,
                timeline_type@,
                now as int,
            ),
{
    let statement = cached.statements@[0];
    assert(cached@.len() == cached.statements@.len());
    assert(cached@[0] == statement@);
    assert(columns_of(statement@->Upsert_values) =~= note_columns());
    let command = sending_a_statement(statement, sql);
    assert forall|before: Tables, after: Tables, changed: nat, m: Matching| #[trigger]
        command.does(sql.params.deep_view(), before, after, changed, m) implies cached_last(
        after[Table::Notes],
        note,
        timeline_type@,
        now as int,
    ) by {
        let new = caching_a_note(note, timeline_type, now, cached, before, after, changed, m);
        lemma_cached_last(
            note,
            timeline_type@,
            now as int,
            new,
            before[Table::Notes],
            after[Table::Notes],
        );
    }
    command
}

// ---- what is sent can be sent ----

/// The statements on accounts and servers can be sent.
pub proof fn statements_on_accounts_can_be_sent(
    account: Account,
    det: ServerDetection,
    id: &str,
    stored: Statement,
    detected: Statement,
    cleared: Statement,
    deleted: Vec<Statement>,
)
    requires
        call_ensures(Database::upsert_account, (&account,), stored),
        call_ensures(Database::upsert_server_detection, (&det,), detected),
        call_ensures(Database::clear_token, (id,), cleared),
        call_ensures(Database::delete_account, (id,), deleted),
    ensures
        sendable(stored@),
        sendable(detected@),
        sendable(cleared@),
        forall|i: int| 0 <= i < deleted@.len() ==> sendable((#[trigger] deleted@[i])@),
{
    assert(columns_of(stored@->Upsert_values) =~= account_columns());
    assert(columns_of(detected@->Upsert_values) =~= detection_columns());
    assert(deleted.deep_view().len() == deleted@.len());
    assert forall|i: int| 0 <= i < deleted@.len() implies sendable((#[trigger] deleted@[i])@) by {
        assert(deleted.deep_view()[i] == deleted@[i]@);
    }
}

/// The statements on notes and summaries can be sent.
pub proof fn statements_on_caches_can_be_sent(
    notes: Vec<NoteRecord>,
    note: NoteRecord,
    timeline_type: &str,
    now: i64,
    url: &str,
    page: SummaryRow,
    ttl_secs: i64,
    cached: Transaction,
    cached_one: Transaction,
    stored: Statement,
)
    requires
        call_ensures(Database::cache_notes, (&notes, timeline_type, now), cached),
        call_ensures(Database::cache_note, (&note, timeline_type, now), cached_one),
        call_ensures(Database::cache_summary, (url, &page, ttl_secs, now), stored),
    ensures
        forall|i: int|
            0 <= i < cached.statements@.len() ==> sendable((#[trigger] cached.statements@[i])@),
        forall|i: int|
            0 <= i < cached_one.statements@.len() ==> sendable(
                (#[trigger] cached_one.statements@[i])@,
            ),
        sendable(stored@),
{
    assert(cached@.len() == cached.statements@.len());
    assert(cached_one@.len() == cached_one.statements@.len());
    assert forall|i: int| 0 <= i < cached.statements@.len() implies sendable(
        (#[trigger] cached.statements@[i])@,
    ) by {
        assert(cached@[i] == cached.statements@[i]@);
        assert(columns_of(cached@[i]->Upsert_values)
            =~= note_columns());
    }
    assert forall|i: int| 0 <= i < cached_one.statements@.len() implies sendable(
        (#[trigger] cached_one.statements@[i])@,
    ) by {
        assert(cached_one@[i] == cached_one.statements@[i]@);
        assert(columns_of(cached_one@[i]->Upsert_values)
            =~= note_columns());
    }
    assert(columns_of(stored@->Upsert_values) =~= page_columns());
}

proof fn lemma_messages_sendable(
    records: Seq<ChatRecordView>,
    account_id: Seq<char>,
    me: Seq<char>,
    server_host: Seq<char>,
    now: int,
)
    ensures
        forall|i: int|
            0 <= i < message_upserts(records, account_id, me, server_host, now).len() ==> sendable(
                #[trigger] message_upserts(records, account_id, me, server_host, now)[i],
            ),
    decreases records.len(),
{
    if records.len() > 0 {
        lemma_messages_sendable(records.drop_last(), account_id, me, server_host, now);
        let head = message_upserts(records.drop_last(), account_id, me, server_host, now);
        let all = message_upserts(records, account_id, me, server_host, now);
        assert forall|i: int| 0 <= i < all.len() implies sendable(#[trigger] all[i]) by {
            if i < head.len() {
                assert(all[i] == head[i]);
            } else {
                assert(columns_of(all[i]->Upsert_values)
                    =~= message_columns());
            }
        }
    }
}

/// The statements on messages can be sent.
pub proof fn statements_on_messages_can_be_sent(
    records: Vec<ChatRecord>,
    record: ChatRecord,
    account_id: &str,
    me: &str,
    server_host: &str,
    now: i64,
    message_id: &str,
    new_json: Option<String>,
    json: String,
    cached: (Transaction, usize),
    cached_one: (Transaction, bool),
    step: ReactionStep,
    deleted: Statement,
)
    requires
        call_ensures(
            Database::cache_chat_messages,
            (&records, account_id, me, server_host, now),
            cached,
        ),
        call_ensures(
            Database::cache_chat_message,
            (&record, account_id, me, server_host, now),
            cached_one,
        ),
        call_ensures(
            Database::reaction_written,
            (account_id, message_id, new_json, json),
            step,
        ),
        call_ensures(Database::delete_cached_chat_message, (account_id, message_id), deleted),
    ensures
        forall|i: int|
            0 <= i < cached.0.statements@.len() ==> sendable((#[trigger] cached.0.statements@[i])@),
        forall|i: int|
            0 <= i < cached_one.0.statements@.len() ==> sendable(
                (#[trigger] cached_one.0.statements@[i])@,
            ),
        step matches ReactionStep::Store(stored) && sendable(stored@),
        sendable(deleted@),
{
    lemma_messages_sendable(
        records.deep_view(),
        account_id@,
        me@,
        server_host@,
        now as int,
    );
    assert(cached.0@.len() == cached.0.statements@.len());
    assert(cached_one.0@.len() == cached_one.0.statements@.len());
    assert forall|i: int| 0 <= i < cached.0.statements@.len() implies sendable(
        (#[trigger] cached.0.statements@[i])@,
    ) by {
        assert(cached.0@[i] == cached.0.statements@[i]@);
    }
    assert forall|i: int| 0 <= i < cached_one.0.statements@.len() implies sendable(
        (#[trigger] cached_one.0.statements@[i])@,
    ) by {
        assert(cached_one.0@[i] == cached_one.0.statements@[i]@);
        assert(columns_of(cached_one.0@[i]->Upsert_values)
            =~= message_columns());
    }
}

/// The statements that delete by a name or a time, and those of evictions, can be
/// sent.
pub proof fn deletions_can_be_sent(
    name: &str,
    now: i64,
    config: EvictionConfig,
    chat_config: ChatEvictionConfig,
    a: Statement,
    b: Statement,
    c: Statement,
    d: Statement,
    e: Statement,
    f: Statement,
    evicted: Transaction,
    chat_evicted: Transaction,
)
    requires
        call_ensures(Database::delete_cached_note, (name,), a),
        call_ensures(Database::clear_account_cache, (name,), b),
        call_ensures(Database::clear_all_notes_cache, (), c),
        call_ensures(Database::cleanup_expired_ogp, (now,), d),
        call_ensures(Database::clear_ogp_cache, (), e),
        call_ensures(Database::clear_chat_cache_for_account, (name,), f),
        call_ensures(Database::cleanup_with_eviction, (&config, now), evicted),
        call_ensures(Database::cleanup_chat_with_eviction, (&chat_config, now), chat_evicted),
    ensures
        sendable(a@),
        sendable(b@),
        sendable(c@),
        sendable(d@),
        sendable(e@),
        sendable(f@),
        forall|i: int|
            0 <= i < evicted.statements@.len() ==> sendable((#[trigger] evicted.statements@[i])@),
        forall|i: int|
            0 <= i < chat_evicted.statements@.len() ==> sendable(
                (#[trigger] chat_evicted.statements@[i])@,
            ),
{
    assert(evicted@.len() == evicted.statements@.len());
    assert(chat_evicted@.len() == chat_evicted.statements@.len());
    assert forall|i: int| 0 <= i < evicted.statements@.len() implies sendable(
        (#[trigger] evicted.statements@[i])@,
    ) by {
        assert(evicted@[i] == evicted.statements@[i]@);
    }
    assert forall|i: int| 0 <= i < chat_evicted.statements@.len() implies sendable(
        (#[trigger] chat_evicted.statements@[i])@,
    ) by {
        assert(chat_evicted@[i] == chat_evicted.statements@[i]@);
    }
}

/// The queries for accounts and servers can be sent.
pub proof fn queries_for_accounts_can_be_sent(
    name: &str,
    user_id: &str,
    a: Query,
    b: Query,
    c: Query,
    d: Query,
    e: Query,
    f: Query,
)
    requires
        call_ensures(Database::load_accounts, (), a),
        call_ensures(Database::get_account, (name,), b),
        call_ensures(Database::get_account_by_host, (name,), c),
        call_ensures(Database::get_account_by_host_user, (name, user_id), d),
        call_ensures(Database::load_server_detections, (), e),
        call_ensures(Database::get_server_detection, (name,), f),
    ensures
        askable_query(a@),
        askable_query(b@),
        askable_query(c@),
        askable_query(d@),
        askable_query(e@),
        askable_query(f@),
{
}

/// The queries for notes and summaries can be sent.
pub proof fn queries_for_caches_can_be_sent(
    account_id: &str,
    text: &str,
    limit: i64,
    since_date: Option<&str>,
    until_date: Option<&str>,
    ascending: bool,
    many: usize,
    a: Query,
    b: Query,
    c: Query,
    d: Query,
    e: Query,
    f: Query,
    g: Query,
    h: Query,
    i: Query,
)
    requires
        call_ensures(
            Database::search_cached_notes_advanced,
            (account_id, text, limit, since_date, until_date, ascending),
            a,
        ),
        call_ensures(Database::search_cached_notes, (account_id, text, limit), b),
        call_ensures(Database::find_notes_by_uri, (text,), c),
        call_ensures(Database::get_cached_timeline, (account_id, text, limit), d),
        call_ensures(
            Database::get_cached_timeline_before,
            (account_id, text, account_id, limit),
            e,
        ),
        call_ensures(Database::get_cache_date_range, (account_id, text), f),
        call_ensures(Database::account_cache_count, (account_id,), g),
        call_ensures(Database::get_cached_summary, (text, limit), h),
        call_ensures(Database::load_summary_cache, (many, limit), i),
    ensures
        askable_query(a@),
        askable_query(b@),
        askable_query(c@),
        askable_query(d@),
        askable_query(e@),
        askable_query(f@),
        askable_query(g@),
        askable_query(h@),
        askable_query(i@),
{
}

/// The queries for messages can be sent.
pub proof fn queries_for_messages_can_be_sent(
    account_id: &str,
    thread_id: &str,
    until_id: Option<&str>,
    limit: i64,
    a: ReactionStep,
    b: Query,
    c: ThreadStep,
    d: Query,
    e: Query,
)
    requires
        call_ensures(Database::apply_chat_message_reaction, (account_id, thread_id), a),
        call_ensures(Database::get_cached_chat_history, (account_id, limit), b),
        call_ensures(
            Database::get_cached_chat_thread_messages,
            (account_id, thread_id, until_id, limit),
            c,
        ),
        call_ensures(Database::get_cached_chat_latest_message_id, (account_id, thread_id), d),
        call_ensures(Database::chat_cache_count, (account_id,), e),
    ensures
        a matches ReactionStep::Find(asked) && askable_query(asked@),
        askable_query(b@),
        c matches ThreadStep::Anchor(asked) ==> askable_query(asked@),
        c matches ThreadStep::Messages(asked) ==> askable_query(asked@),
        askable_query(d@),
        askable_query(e@),
{
}

// ---- words and numbers ----

/// The number that decimal digits stand for.
pub open spec fn number_of(digits: Seq<char>) -> nat
    decreases digits.len(),
{
    if digits.len() == 0 {
        0
    } else {
        (number_of(digits.drop_last()) * 10 + (digits.last() as int - '0' as int)) as nat
    }
}

/// Whether a text is a number in decimal, without leading zeros.
pub open spec fn is_numeral(digits: Seq<char>) -> bool {
    &&& digits.len() > 0
    &&& forall|i: int| 0 <= i < digits.len() ==> '0' <= #[trigger] digits[i] <= '9'
    &&& digits.len() > 1 ==> digits[0] != '0'
}

proof fn lemma_decimal(n: nat)
    ensures
        is_numeral(decimal(n)),
        number_of(decimal(n)) == n,
        n > 0 ==> decimal(n)[0] != '0',
    decreases n,
{
    if n < 10 {
        reveal_with_fuel(number_of, 2);
        assert(decimal(n) =~= seq![digit(n)]);
        assert(digit(n) as int == '0' as int + n);
        assert(decimal(n).drop_last() =~= Seq::<char>::empty());
    } else {
        let head = decimal(n / 10);
        let last = digit(n % 10);
        lemma_decimal(n / 10);
        assert(decimal(n) == head.push(last));
        assert(head.push(last).drop_last() =~= head);
        assert(decimal(n)[0] == head[0]);
        assert(last as int == '0' as int + n % 10);
    }
}

/// A number is written in decimal, so that it can be read again, and nothing else
/// of the text changes.
pub proof fn writing_a_number(n: nat)
    ensures
        is_numeral(decimal(n)),
        number_of(decimal(n)) == n,
{
    lemma_decimal(n);
}

/// The words of a search are quoted as a phrase that means the words. One or two
/// characters become a pattern that finds them anywhere.
pub proof fn quoting_words(s: &str, phrase: String, pattern: String)
    requires
        call_ensures(quote, (s,), phrase),
        call_ensures(contains_pattern, (s,), pattern),
    ensures
        phrase@.len() > 0,
        phrase@[0] == '"',
        phrase_read(phrase@.skip(1)) == Some((s@, Seq::<char>::empty())),
        pattern@ == seq!['%'] + s@ + seq!['%'],
{
    quoted_words_mean_themselves(s@);
}

/// Values and conditions are made of what is given.
pub proof fn making_values(
    column: Column,
    s: &str,
    t: Option<String>,
    n: Option<u32>,
    value: Value,
    text: Value,
    optional: Value,
    size: Value,
    condition: Condition,
    assignment: Assignment,
)
    requires
        call_ensures(Value::text, (s,), text),
        call_ensures(Value::optional_text, (&t,), optional),
        call_ensures(Value::optional_integer, (n,), size),
        call_ensures(Condition::is_text, (column, s), condition),
        call_ensures(Assignment::new, (column, value), assignment),
    ensures
        text@ == Cell::Text(s@),
        t matches Some(u) ==> optional@ == Cell::Text(u@),
        t is None ==> optional@ == Cell::Null,
        n matches Some(k) ==> size@ == Cell::Integer(k as int),
        n is None ==> size@ == Cell::Null,
        condition@.column == column,
        condition@.test == Test::Equal,
        condition@.value == Cell::Text(s@),
        assignment@.column == column,
        assignment@.value == value@,
{
}

/// SQL that is given as a text is just that text, and one value more comes behind
/// it as a placeholder.
pub proof fn making_sql(text: &str, value: &str, plain: Sql, with_text: Sql)
    requires
        call_ensures(Sql::plain, (text,), plain),
        call_ensures(Sql::with_text, (text, value), with_text),
    ensures
        plain.text@ == text@,
        plain.params@.len() == 0,
        with_text.text@ == text@ + seq!['?', '1'],
        with_text.params@.len() == 1,
        with_text.params@[0]@ == Cell::Text(value@),
{
    assert(plain@.text =~= text@);
    assert(plain@.params.len() == plain.params@.len());
    reveal_strlit("?");
    reveal_with_fuel(decimal, 2);
    assert(with_text@.text =~= text@ + seq!['?', '1']);
    assert(with_text@.params.len() == with_text.params@.len());
    assert(with_text@.params[0] == with_text.params@[0]@);
}

/// A test has the sign that SQL has for it.
pub proof fn signing_a_test(test: Test, sign: &'static str)
    requires
        call_ensures(Test::operator, (test,), sign),
    ensures
        sign@ == match test {
            Test::Equal => " = "@,
            Test::Less => " < "@,
            Test::AtMost => " <= "@,
            Test::Greater => " > "@,
            Test::AtLeast => " >= "@,
            Test::Like => " LIKE "@,
            Test::Match => " MATCH "@,
        },
{
}

// ---- names ----

/// The tables and the columns have the names of the database's file.
pub proof fn tables_and_columns_have_their_names(
    table: Table,
    column: Column,
    table_name: &'static str,
    column_name: &'static str,
)
    requires
        call_ensures(Table::name, (table,), table_name),
        call_ensures(Column::name, (column,), column_name),
    ensures
        table_name@ == table.spec_name(),
        column_name@ == column.spec_name(),
        Table::Accounts.spec_name() == "accounts"@,
        Table::ServerDetections.spec_name() == "server_detections"@,
        Table::Notes.spec_name() == "notes_cache"@,
        Table::Summaries.spec_name() == "ogp_cache"@,
        Table::Messages.spec_name() == "chat_messages_cache"@,
        Column::Id.spec_name() == "id"@,
        Column::Host.spec_name() == "host"@,
        Column::Token.spec_name() == "token"@,
        Column::UserId.spec_name() == "user_id"@,
        Column::Username.spec_name() == "username"@,
        Column::DisplayName.spec_name() == "display_name"@,
        Column::AvatarUrl.spec_name() == "avatar_url"@,
        Column::Software.spec_name() == "software"@,
        Column::SoftwareName.spec_name() == "software_name"@,
        Column::SoftwareVersion.spec_name() == "software_version"@,
        Column::SoftwareRepository.spec_name() == "software_repository"@,
        Column::MetaJson.spec_name() == "meta_json"@,
        Column::UpdatedAt.spec_name() == "updated_at"@,
        Column::NoteId.spec_name() == "note_id"@,
        Column::AccountId.spec_name() == "account_id"@,
        Column::ServerHost.spec_name() == "server_host"@,
        Column::CreatedAt.spec_name() == "created_at"@,
        Column::Text.spec_name() == "text"@,
        Column::NoteJson.spec_name() == "note_json"@,
        Column::CachedAt.spec_name() == "cached_at"@,
        Column::TimelineType.spec_name() == "timeline_type"@,
        Column::Uri.spec_name() == "uri"@,
        Column::Url.spec_name() == "url"@,
        Column::Title.spec_name() == "title"@,
        Column::Description.spec_name() == "description"@,
        Column::Image.spec_name() == "image"@,
        Column::SiteName.spec_name() == "site_name"@,
        Column::Icon.spec_name() == "icon"@,
        Column::PlayerUrl.spec_name() == "player_url"@,
        Column::PlayerWidth.spec_name() == "player_width"@,
        Column::PlayerHeight.spec_name() == "player_height"@,
        Column::PlayerAllow.spec_name() == "player_allow"@,
        Column::FinalUrl.spec_name() == "final_url"@,
        Column::Sensitive.spec_name() == "sensitive"@,
        Column::MediasJson.spec_name() == "medias_json"@,
        Column::ExpiresAt.spec_name() == "expires_at"@,
        Column::MessageId.spec_name() == "message_id"@,
        Column::ThreadId.spec_name() == "thread_id"@,
        Column::ThreadKind.spec_name() == "thread_kind"@,
        Column::FromUserId.spec_name() == "from_user_id"@,
        Column::MessageJson.spec_name() == "message_json"@,
{
}

} // verus!
