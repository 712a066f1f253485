//! Calls for chat messages.
use vstd::prelude::*;
use crate::chat::{
    first_reaction, is_reaction_of, lemma_first_reaction, thread_key, ChatMessage,
    ChatMessageReaction, ChatReactionUser, ChatRecord, ChatRecordView,
};
use crate::database::{Database, Transaction};
use crate::decode::Answer;
use crate::error::NoteDeckError;
use crate::laws::calls::{
    any, counts, gives, has_columns, lemma_counts, lemma_gives, lemma_meets_three, lemma_removes,
    lemma_row_columns, lemma_sets, lemma_with, lemma_with_both, puts, removes, sets, with,
    with_both,
};
use crate::laws::rows::{lemma_filter_same, lemma_row_of};
use crate::messages::{
    message_upsert, message_upserts, message_values, reply_seen, text_if_any, ReactionStep,
    ThreadStep,
};
use crate::sql::{is_text, AssignmentView, ConditionView, Order, Query, Statement, Test};
use crate::tables::{
    arranged, less, limited, meets, numbering, projections, row_of, within, Matching, Row, Tables,
};
use crate::value::{Cell, Column, Table, Value};

verus! {

/// Whether a message goes to a room or to a user.
pub open spec fn goes_somewhere(message: ChatMessage) -> bool {
    message.to_room_id is Some || message.to_user_id is Some
}

/// Whether a message belongs to a thread of a kind, as the user `me` sees it: to
/// that of its room, or else to that of the user at the other end.
pub open spec fn belongs_to(
    message: ChatMessage,
    me: Seq<char>,
    thread: Seq<char>,
    kind: Seq<char>,
) -> bool {
    match (message.to_room_id, message.to_user_id) {
        (Some(room), _) => thread == "r:"@ + room@ && kind == "room"@,
        (None, Some(to)) => {
            &&& kind == "dm"@
            &&& message.from_user_id@ == me ==> thread == "u:"@ + to@
            &&& message.from_user_id@ != me ==> thread == "u:"@ + message.from_user_id@
        },
        (None, None) => false,
    }
}

/// The thread of a message is that of its room, or else that of the user at the
/// other end. A message to nobody has none.
pub proof fn deriving_a_thread(
    message: ChatMessage,
    me: &str,
    thread: Option<(String, &'static str)>,
)
    requires
        call_ensures(Database::derive_thread_key, (&message, me), thread),
    ensures
        thread is Some <==> goes_somewhere(message),
        thread matches Some((id, kind)) ==> belongs_to(message, me@, id@, kind@),
{
}

/// The columns of a message.
pub open spec fn written_columns() -> Seq<Column> {
    seq![
        Column::MessageId,
        Column::AccountId,
        Column::ServerHost,
        Column::ThreadId,
        Column::ThreadKind,
        Column::FromUserId,
        Column::CreatedAt,
        Column::MessageJson,
        Column::CachedAt,
    ]
}

/// Whether a row holds a message as it is cached at `now` for an account. A
/// message that cannot be written as JSON has an empty one.
pub open spec fn holds_record(
    row: Row,
    record: ChatRecord,
    account_id: Seq<char>,
    me: Seq<char>,
    server_host: Seq<char>,
    now: int,
) -> bool {
    &&& has_columns(row, written_columns())
    &&& row[Column::MessageId] == Cell::Text(record.message.id@)
    &&& row[Column::AccountId] == Cell::Text(account_id)
    &&& row[Column::ServerHost] == Cell::Text(server_host)
    &&& row[Column::ThreadId] is Text
    &&& row[Column::ThreadKind] is Text
    &&& belongs_to(
        record.message,
        me,
        row[Column::ThreadId]->Text_0,
        row[Column::ThreadKind]->Text_0,
    )
    &&& row[Column::FromUserId] == Cell::Text(record.message.from_user_id@)
    &&& row[Column::CreatedAt] == Cell::Text(record.message.created_at@)
    &&& row[Column::MessageJson] == Cell::Text(
        match record.json {
            Some(json) => json@,
            None => Seq::empty(),
        },
    )
    &&& row[Column::CachedAt] == Cell::Integer(now)
}

/// Whether a message is put for an account: one that the account has keeps its
/// server and takes over the rest.
pub open spec fn puts_message(new: Row, before: Tables, after: Tables) -> bool {
    puts(
        Table::Messages,
        new,
        seq![Column::MessageId, Column::AccountId],
        seq![
            Column::ThreadId,
            Column::ThreadKind,
            Column::FromUserId,
            Column::CreatedAt,
            Column::MessageJson,
            Column::CachedAt,
        ],
        before,
        after,
    )
}

proof fn lemma_record(
    record: ChatRecord,
    account_id: Seq<char>,
    me: Seq<char>,
    server_host: Seq<char>,
    now: int,
) -> (new: Row)
    requires
        goes_somewhere(record.message),
    ensures
        ({
            let (thread, kind) = thread_key(record.message@, me)->0;
            new == row_of(message_values(record@, account_id, server_host, thread, kind, now))
        }),
        holds_record(new, record, account_id, me, server_host, now),
{
    let (thread, kind) = thread_key(record.message@, me)->0;
    let values = message_values(record@, account_id, server_host, thread, kind, now);
    reveal_strlit("");
    assert(""@ =~= Seq::<char>::empty());
    lemma_row_of(values);
    assert(values.map_values(|a: AssignmentView| a.column) =~= written_columns());
    lemma_row_columns(values, written_columns());
    assert(values[0].column == Column::MessageId);
    assert(values[1].column == Column::AccountId);
    assert(values[2].column == Column::ServerHost);
    assert(values[3].column == Column::ThreadId);
    assert(values[4].column == Column::ThreadKind);
    assert(values[5].column == Column::FromUserId);
    assert(values[6].column == Column::CreatedAt);
    assert(values[7].column == Column::MessageJson);
    assert(values[8].column == Column::CachedAt);
    row_of(values)
}

/// How many of some messages go somewhere.
pub open spec fn going(records: Seq<ChatRecord>) -> nat
    decreases records.len(),
{
    if records.len() == 0 {
        0
    } else if goes_somewhere(records.last().message) {
        going(records.drop_last()) + 1
    } else {
        going(records.drop_last())
    }
}

proof fn lemma_upserts(
    records: Seq<ChatRecord>,
    seen: Seq<ChatRecordView>,
    account_id: Seq<char>,
    me: Seq<char>,
    server_host: Seq<char>,
    now: int,
)
    requires
        seen.len() == records.len(),
        forall|i: int| 0 <= i < records.len() ==> #[trigger] seen[i] == records[i]@,
    ensures
        message_upserts(seen, account_id, me, server_host, now).len() == going(records),
        forall|i: int|
            0 <= i < records.len() && goes_somewhere((#[trigger] records[i]).message) ==> {
                let (thread, kind) = thread_key(records[i].message@, me)->0;
                &&& going(records.take(i)) < going(records)
                &&& message_upserts(seen, account_id, me, server_host, now)[going(
                    records.take(i),
                ) as int] == message_upsert(records[i]@, account_id, server_host, thread, kind, now)
            },
    decreases records.len(),
{
    if records.len() > 0 {
        let rest = records.drop_last();
        let n = rest.len() as int;
        assert forall|i: int| 0 <= i < rest.len() implies #[trigger] seen.drop_last()[i]
            == rest[i]@ by {
            assert(seen[i] == records[i]@);
        }
        lemma_upserts(rest, seen.drop_last(), account_id, me, server_host, now);
        assert(seen[n] == records[n]@);
        let all = message_upserts(seen, account_id, me, server_host, now);
        assert forall|i: int|
            0 <= i < records.len() && goes_somewhere((#[trigger] records[i]).message) implies {
            let (thread, kind) = thread_key(records[i].message@, me)->0;
            &&& going(records.take(i)) < going(records)
            &&& all[going(records.take(i)) as int] == message_upsert(
                records[i]@,
                account_id,
                server_host,
                thread,
                kind,
                now,
            )
        } by {
            if i < n {
                assert(rest[i] == records[i]);
                assert(rest.take(i) =~= records.take(i));
            } else {
                assert(records.take(i) =~= rest);
            }
        }
    }
}

/// To cache messages puts each that goes somewhere, in their order, one statement
/// for each, and says how many they are.
pub proof fn caching_messages(
    records: Vec<ChatRecord>,
    account_id: &str,
    me: &str,
    server_host: &str,
    now: i64,
    cached: (Transaction, usize),
    i: int,
    before: Tables,
    after: Tables,
    changed: nat,
    m: Matching,
) -> (new: Row)
    requires
        call_ensures(
            Database::cache_chat_messages,
            (&records, account_id, me, server_host, now),
            cached,
        ),
        0 <= i < records@.len(),
        goes_somewhere(records@[i].message),
        cached.0.statements@[going(records@.take(i)) as int]@.step(before, after, changed, m),
    ensures
        going(records@.take(i)) < cached.0.statements@.len(),
        holds_record(new, records@[i], account_id@, me@, server_host@, now as int),
        puts_message(new, before, after),
        changed == 1,
{
    lemma_upserts(
        records@,
        records.deep_view(),
        account_id@,
        me@,
        server_host@,
        now as int,
    );
    let k = going(records@.take(i)) as int;
    assert(cached.0@.len() == cached.0.statements@.len());
    assert(cached.0@[k] == cached.0.statements@[k]@);
    lemma_record(records@[i], account_id@, me@, server_host@, now as int)
}

/// There are as many statements as messages that go somewhere, and as many rows
/// are reported.
pub proof fn as_many_statements_as_messages(
    records: Vec<ChatRecord>,
    account_id: &str,
    me: &str,
    server_host: &str,
    now: i64,
    cached: (Transaction, usize),
)
    requires
        call_ensures(
            Database::cache_chat_messages,
            (&records, account_id, me, server_host, now),
            cached,
        ),
    ensures
        cached.0.statements@.len() == going(records@),
        cached.1 == going(records@),
{
    lemma_upserts(
        records@,
        records.deep_view(),
        account_id@,
        me@,
        server_host@,
        now as int,
    );
    assert(cached.0@.len() == cached.0.statements@.len());
}

/// To cache one message puts it where it goes somewhere, and does nothing where it
/// does not. It says which.
pub proof fn caching_a_message(
    record: ChatRecord,
    account_id: &str,
    me: &str,
    server_host: &str,
    now: i64,
    cached: (Transaction, bool),
    before: Tables,
    after: Tables,
    changed: nat,
    m: Matching,
) -> (new: Row)
    requires
        call_ensures(
            Database::cache_chat_message,
            (&record, account_id, me, server_host, now),
            cached,
        ),
        cached.0.statements@.len() > 0 ==> cached.0.statements@[0]@.step(
            before,
            after,
            changed,
            m,
        ),
    ensures
        cached.1 == goes_somewhere(record.message),
        !goes_somewhere(record.message) ==> cached.0.statements@.len() == 0,
        goes_somewhere(record.message) ==> {
            &&& cached.0.statements@.len() == 1
            &&& holds_record(new, record, account_id@, me@, server_host@, now as int)
            &&& puts_message(new, before, after)
            &&& changed == 1
        },
{
    assert(cached.0@.len() == cached.0.statements@.len());
    if goes_somewhere(record.message) {
        assert(cached.0@[0] == cached.0.statements@[0]@);
        lemma_record(record, account_id@, me@, server_host@, now as int)
    } else {
        Map::empty()
    }
}

/// To delete a message removes it for the account.
pub proof fn deleting_a_message(
    account_id: &str,
    message_id: &str,
    deleted: Statement,
    before: Tables,
    after: Tables,
    changed: nat,
    m: Matching,
)
    requires
        call_ensures(Database::delete_cached_chat_message, (account_id, message_id), deleted),
        deleted@.step(before, after, changed, m),
    ensures
        removes(
            Table::Messages,
            with_both(Column::AccountId, account_id@, Column::MessageId, message_id@),
            before,
            after,
            changed,
        ),
{
    lemma_with_both(
        deleted@->Delete_filter,
        Column::AccountId,
        account_id@,
        Column::MessageId,
        message_id@,
        m,
    );
    lemma_removes(
        Table::Messages,
        deleted@->Delete_filter,
        with_both(Column::AccountId, account_id@, Column::MessageId, message_id@),
        before,
        after,
        changed,
        m,
    );
}

/// To clear the messages of an account removes all of them.
pub proof fn clearing_the_messages_of_an_account(
    account_id: &str,
    deleted: Statement,
    before: Tables,
    after: Tables,
    changed: nat,
    m: Matching,
)
    requires
        call_ensures(Database::clear_chat_cache_for_account, (account_id,), deleted),
        deleted@.step(before, after, changed, m),
    ensures
        removes(Table::Messages, with(Column::AccountId, account_id@), before, after, changed),
{
    lemma_with(deleted@->Delete_filter, Column::AccountId, account_id@, m);
    lemma_removes(
        Table::Messages,
        deleted@->Delete_filter,
        with(Column::AccountId, account_id@),
        before,
        after,
        changed,
        m,
    );
}

/// To count the messages of an account asks for the number of its messages.
pub proof fn counting_messages(
    account_id: &str,
    asked: Query,
    tables: Tables,
    answer: Seq<Seq<Cell>>,
    m: Matching,
)
    requires
        call_ensures(Database::chat_cache_count, (account_id,), asked),
        asked@.answered(tables, answer, m),
    ensures
        counts(answer, tables[Table::Messages], with(Column::AccountId, account_id@)),
{
    lemma_with(asked@->Count_filter, Column::AccountId, account_id@, m);
    lemma_counts(
        Table::Messages,
        asked@->Count_filter,
        with(Column::AccountId, account_id@),
        tables,
        answer,
        m,
    );
}

/// To get the latest message of a thread asks for the id of its newest message.
pub proof fn getting_the_latest_message(
    account_id: &str,
    thread_id: &str,
    asked: Query,
    tables: Tables,
    answer: Seq<Seq<Cell>>,
    m: Matching,
)
    requires
        call_ensures(Database::get_cached_chat_latest_message_id, (account_id, thread_id), asked),
        asked@.answered(tables, answer, m),
    ensures
        gives(
            answer,
            tables[Table::Messages],
            with_both(Column::AccountId, account_id@, Column::ThreadId, thread_id@),
            seq![Column::MessageId],
            Order::Descending(Column::CreatedAt),
            Some(1),
        ),
{
    lemma_with_both(
        asked@->Select_filter,
        Column::AccountId,
        account_id@,
        Column::ThreadId,
        thread_id@,
        m,
    );
    lemma_gives(
        asked@,
        with_both(Column::AccountId, account_id@, Column::ThreadId, thread_id@),
        tables,
        answer,
        m,
    );
}

/// Whether a statement changed any row.
pub proof fn changing_any(changed: usize, any: bool)
    requires
        call_ensures(Database::any_changed, (changed,), any),
    ensures
        any <==> changed != 0,
{
}

/// Whether an answer gives a column of the newest row of each group of the rows
/// that are wanted, the newest of them first.
pub open spec fn gives_newest(
    answer: Seq<Seq<Cell>>,
    rows: Seq<Row>,
    wanted: spec_fn(Row) -> bool,
    column: Column,
    group: Column,
    newest_by: Column,
    limit: int,
) -> bool {
    let all = rows.filter(wanted);
    exists|rn: Seq<int>, s: Seq<Row>|
        {
            &&& #[trigger] numbering(all, group, newest_by, rn)
            &&& #[trigger] arranged(within(all, rn, 1), Order::Descending(newest_by), s)
            &&& answer == projections(s.take(limited(Some(limit), s.len()) as int), seq![column])
        }
}

/// To get the history asks for the newest message of each thread of the account,
/// the newest first.
pub proof fn getting_the_history(
    account_id: &str,
    limit: i64,
    asked: Query,
    tables: Tables,
    answer: Seq<Seq<Cell>>,
    m: Matching,
)
    requires
        call_ensures(Database::get_cached_chat_history, (account_id, limit), asked),
        asked@.answered(tables, answer, m),
    ensures
        gives_newest(
            answer,
            tables[Table::Messages],
            with(Column::AccountId, account_id@),
            Column::MessageJson,
            Column::ThreadId,
            Column::CreatedAt,
            limit as int,
        ),
{
    let filter = asked@->LatestPerGroup_filter;
    lemma_with(filter, Column::AccountId, account_id@, m);
    lemma_filter_same(
        tables[Table::Messages],
        |row: Row| meets(row, filter, m),
        with(Column::AccountId, account_id@),
    );
}

/// To get the messages of a thread asks for them, newest first. With a message to
/// end before, it first asks when that was created.
pub proof fn getting_a_thread(
    account_id: &str,
    thread_id: &str,
    until_id: Option<&str>,
    limit: i64,
    step: ThreadStep,
    tables: Tables,
    answer: Seq<Seq<Cell>>,
    m: Matching,
)
    requires
        call_ensures(
            Database::get_cached_chat_thread_messages,
            (account_id, thread_id, until_id, limit),
            step,
        ),
        match step {
            ThreadStep::Anchor(asked) => asked@.answered(tables, answer, m),
            ThreadStep::Messages(asked) => asked@.answered(tables, answer, m),
            ThreadStep::Nothing => true,
        },
    ensures
        match until_id {
            Some(id) => step is Anchor && gives(
                answer,
                tables[Table::Messages],
                with_both(Column::AccountId, account_id@, Column::MessageId, id@),
                seq![Column::CreatedAt],
                Order::Unordered,
                None,
            ),
            None => step is Messages && gives(
                answer,
                tables[Table::Messages],
                with_both(Column::AccountId, account_id@, Column::ThreadId, thread_id@),
                seq![Column::MessageJson],
                Order::Descending(Column::CreatedAt),
                Some(limit as int),
            ),
        },
{
    match step {
        ThreadStep::Anchor(asked) => {
            let id = until_id->0;
            lemma_with_both(
                asked@->Select_filter,
                Column::AccountId,
                account_id@,
                Column::MessageId,
                id@,
                m,
            );
            lemma_gives(
                asked@,
                with_both(Column::AccountId, account_id@, Column::MessageId, id@),
                tables,
                answer,
                m,
            );
        },
        ThreadStep::Messages(asked) => {
            lemma_with_both(
                asked@->Select_filter,
                Column::AccountId,
                account_id@,
                Column::ThreadId,
                thread_id@,
                m,
            );
            lemma_gives(
                asked@,
                with_both(Column::AccountId, account_id@, Column::ThreadId, thread_id@),
                tables,
                answer,
                m,
            );
        },
        ThreadStep::Nothing => {},
    }
}

/// Whether a reply starts with a row that starts with a text.
pub open spec fn starts_with_text(reply: Result<Answer, NoteDeckError>, text: Seq<char>) -> bool {
    &&& reply matches Ok(answer)
    &&& answer.rows@.len() > 0
    &&& answer.rows@[0]@.len() > 0
    &&& answer.rows@[0]@[0] matches Value::Text(s)
    &&& s@ == text
}

proof fn lemma_starts(reply: Result<Answer, NoteDeckError>)
    ensures
        reply matches Ok(answer) ==> {
            &&& answer@.rows.len() == answer.rows@.len()
            &&& answer.rows@.len() > 0 ==> {
                &&& answer@.rows[0].len() == answer.rows@[0]@.len()
                &&& answer.rows@[0]@.len() > 0 ==> answer@.rows[0][0] == answer.rows@[0]@[0]@
            }
        },
{
    if let Ok(answer) = reply {
        if answer.rows@.len() > 0 {
            assert(answer@.rows[0] == answer.rows@[0].deep_view());
        }
    }
}

/// The messages of a thread that were created before a time.
pub open spec fn earlier_in_thread(
    account_id: Seq<char>,
    thread_id: Seq<char>,
    time: Seq<char>,
) -> spec_fn(Row) -> bool {
    |row: Row|
        {
            &&& row[Column::AccountId] == Cell::Text(account_id)
            &&& row[Column::ThreadId] == Cell::Text(thread_id)
            &&& less(row[Column::CreatedAt], Cell::Text(time))
        }
}

/// Once it is known when the message to end before was created, the messages of
/// the thread that were created earlier are asked for, newest first. Where it is
/// not known there are none.
pub proof fn ending_a_thread_before_a_message(
    account_id: &str,
    thread_id: &str,
    reply: Result<Answer, NoteDeckError>,
    limit: i64,
    step: ThreadStep,
    time: Seq<char>,
    tables: Tables,
    answer: Seq<Seq<Cell>>,
    m: Matching,
)
    requires
        call_ensures(
            Database::thread_anchor_reply,
            (account_id, thread_id, &reply, limit),
            step,
        ),
        step matches ThreadStep::Messages(asked) ==> asked@.answered(tables, answer, m),
    ensures
        (forall|s: Seq<char>| !starts_with_text(reply, s)) ==> step is Nothing,
        starts_with_text(reply, time) ==> step is Messages && gives(
            answer,
            tables[Table::Messages],
            earlier_in_thread(account_id@, thread_id@, time),
            seq![Column::MessageJson],
            Order::Descending(Column::CreatedAt),
            Some(limit as int),
        ),
{
    lemma_starts(reply);
    if let ThreadStep::Messages(asked) = step {
        let s = text_if_any(reply_seen(reply))->0;
        assert(starts_with_text(reply, s));
    }
    if starts_with_text(reply, time) {
        let asked = step->Messages_0;
        let a = is_text(Column::AccountId, account_id@);
        let b = is_text(Column::ThreadId, thread_id@);
        let c = ConditionView {
            column: Column::CreatedAt,
            test: Test::Less,
            value: Cell::Text(time),
        };
        assert(asked@->Select_filter =~= seq![a, b, c]);
        let wanted = earlier_in_thread(account_id@, thread_id@, time);
        assert forall|row: Row| #[trigger] meets(row, asked@->Select_filter, m) <==> wanted(
            row,
        ) by {
            lemma_meets_three(row, a, b, c, m);
        }
        lemma_gives(asked@, wanted, tables, answer, m);
    }
}

/// The statistics ask for the number of all messages, and for the bytes of the
/// pages of their table.
pub proof fn asking_for_statistics(
    asked: (Query, Query),
    tables: Tables,
    answer: Seq<Seq<Cell>>,
    m: Matching,
)
    requires
        call_ensures(Database::chat_cache_stats, (), asked),
        asked.0@.answered(tables, answer, m),
    ensures
        counts(answer, tables[Table::Messages], any()),
        asked.1 == (Query::Size { table: Table::Messages }),
{
    lemma_counts(Table::Messages, asked.0@->Count_filter, any(), tables, answer, m);
}

// ---- reactions ----

/// Whether two users are the same in all that is known of them.
pub open spec fn same_user(a: ChatReactionUser, b: ChatReactionUser) -> bool {
    &&& a.id@ == b.id@
    &&& a.name.deep_view() == b.name.deep_view()
    &&& a.username@ == b.username@
    &&& a.host.deep_view() == b.host.deep_view()
    &&& a.avatar_url.deep_view() == b.avatar_url.deep_view()
}

/// Whether two reactions are the same.
pub open spec fn same_reaction(a: ChatMessageReaction, b: ChatMessageReaction) -> bool {
    &&& a.reaction@ == b.reaction@
    &&& match (a.user, b.user) {
        (Some(x), Some(y)) => same_user(x, y),
        (None, None) => true,
        _ => false,
    }
}

/// Whether two messages are the same but for their reactions.
pub open spec fn same_but_reactions(a: ChatMessage, b: ChatMessage) -> bool {
    &&& a.id@ == b.id@
    &&& a.created_at@ == b.created_at@
    &&& a.from_user_id@ == b.from_user_id@
    &&& a.from_user.deep_view() == b.from_user.deep_view()
    &&& a.to_user_id.deep_view() == b.to_user_id.deep_view()
    &&& a.to_user.deep_view() == b.to_user.deep_view()
    &&& a.to_room_id.deep_view() == b.to_room_id.deep_view()
    &&& a.to_room.deep_view() == b.to_room.deep_view()
    &&& a.text.deep_view() == b.text.deep_view()
    &&& a.file_id.deep_view() == b.file_id.deep_view()
    &&& a.file.deep_view() == b.file.deep_view()
    &&& a.is_read == b.is_read
}

/// Whether a reaction is one that a user made.
pub open spec fn made_by(
    r: ChatMessageReaction,
    user_id: Seq<char>,
    reaction: Seq<char>,
) -> bool {
    r.reaction@ == reaction && (r.user matches Some(u) && u.id@ == user_id)
}

proof fn lemma_same_reaction(a: ChatMessageReaction, b: ChatMessageReaction)
    ensures
        a@ == b@ ==> same_reaction(a, b),
{
}

proof fn lemma_same_message(a: ChatMessage, b: ChatMessage, at: int, shift: int)
    requires
        a@.reactions.len() > at >= 0,
        b@.reactions.len() > at + shift >= 0,
        a@.reactions[at] == b@.reactions[at + shift],
    ensures
        same_reaction(a.reactions@[at], b.reactions@[at + shift]),
{
    assert(a@.reactions[at] == a.reactions@[at]@);
    assert(b@.reactions[at + shift] == b.reactions@[at + shift]@);
    lemma_same_reaction(a.reactions@[at], b.reactions@[at + shift]);
}

/// A reaction that is made stands behind the others, which stay as they are, and
/// its user is the whole reactor. Nothing else of the message changes.
pub proof fn making_a_reaction(
    message: ChatMessage,
    reactor: ChatReactionUser,
    reaction: &str,
    after: Option<ChatMessage>,
)
    requires
        call_ensures(ChatMessage::reacted, (message, &reactor, reaction, true), after),
    ensures
        after matches Some(changed) && {
            let n = message.reactions@.len() as int;
            &&& same_but_reactions(changed, message)
            &&& changed.reactions@.len() == n + 1
            &&& forall|i: int|
                0 <= i < n ==> same_reaction(
                    #[trigger] changed.reactions@[i],
                    message.reactions@[i],
                )
            &&& changed.reactions@[n].reaction@ == reaction@
            &&& changed.reactions@[n].user matches Some(user) && same_user(user, reactor)
        },
{
    let changed = after->0;
    let n = message.reactions@.len() as int;
    assert(changed@.reactions.len() == changed.reactions@.len());
    assert(message@.reactions.len() == message.reactions@.len());
    assert(changed@.reactions[n] == changed.reactions@[n]@);
    assert forall|i: int| 0 <= i < n implies same_reaction(
        #[trigger] changed.reactions@[i],
        message.reactions@[i],
    ) by {
        lemma_same_message(changed, message, i, 0);
    }
}

/// A reaction that is taken back is the first that the user made of it. The others
/// stay as they are, and nothing else of the message changes. Where the user made
/// none, there is no change.
pub proof fn taking_a_reaction_back(
    message: ChatMessage,
    reactor: ChatReactionUser,
    reaction: &str,
    after: Option<ChatMessage>,
)
    requires
        call_ensures(ChatMessage::reacted, (message, &reactor, reaction, false), after),
    ensures
        after is None <==> forall|i: int|
            0 <= i < message.reactions@.len() ==> !made_by(
                #[trigger] message.reactions@[i],
                reactor.id@,
                reaction@,
            ),
        after matches Some(changed) ==> exists|at: int|
            {
                &&& 0 <= at < message.reactions@.len()
                &&& made_by(#[trigger] message.reactions@[at], reactor.id@, reaction@)
                &&& forall|i: int|
                    0 <= i < at ==> !made_by(
                        #[trigger] message.reactions@[i],
                        reactor.id@,
                        reaction@,
                    )
                &&& same_but_reactions(changed, message)
                &&& changed.reactions@.len() == message.reactions@.len() - 1
                &&& forall|i: int|
                    0 <= i < at ==> same_reaction(
                        #[trigger] changed.reactions@[i],
                        message.reactions@[i],
                    )
                &&& forall|i: int|
                    at <= i < changed.reactions@.len() ==> same_reaction(
                        #[trigger] changed.reactions@[i],
                        message.reactions@[i + 1],
                    )
            },
{
    let seen = message@.reactions;
    assert(seen.len() == message.reactions@.len());
    assert forall|i: int| 0 <= i < seen.len() implies (made_by(
        #[trigger] message.reactions@[i],
        reactor.id@,
        reaction@,
    ) <==> is_reaction_of(seen[i], reactor@.id, reaction@)) by {
        assert(seen[i] == message.reactions@[i]@);
    }
    lemma_first_reaction(seen, reactor@.id, reaction@);
    let at = first_reaction(seen, reactor@.id, reaction@);
    if at < seen.len() {
        assert(made_by(message.reactions@[at], reactor.id@, reaction@));
        let changed = after->0;
        assert(changed@.reactions.len() == changed.reactions@.len());
        assert forall|i: int| 0 <= i < at implies same_reaction(
            #[trigger] changed.reactions@[i],
            message.reactions@[i],
        ) by {
            lemma_same_message(changed, message, i, 0);
        }
        assert forall|i: int| at <= i < changed.reactions@.len() implies same_reaction(
            #[trigger] changed.reactions@[i],
            message.reactions@[i + 1],
        ) by {
            lemma_same_message(changed, message, i, 1);
        }
        assert forall|i: int| 0 <= i < at implies !made_by(
            #[trigger] message.reactions@[i],
            reactor.id@,
            reaction@,
        ) by {
            assert(!is_reaction_of(seen[i], reactor@.id, reaction@));
        }
    } else {
        assert forall|i: int| 0 <= i < message.reactions@.len() implies !made_by(
            #[trigger] message.reactions@[i],
            reactor.id@,
            reaction@,
        ) by {
            assert(!is_reaction_of(seen[i], reactor@.id, reaction@));
        }
    }
}

/// To apply a reaction asks for the JSON of the message of the account.
pub proof fn applying_a_reaction(
    account_id: &str,
    message_id: &str,
    step: ReactionStep,
    tables: Tables,
    answer: Seq<Seq<Cell>>,
    m: Matching,
)
    requires
        call_ensures(Database::apply_chat_message_reaction, (account_id, message_id), step),
        step matches ReactionStep::Find(asked) ==> asked@.answered(tables, answer, m),
    ensures
        step is Find,
        gives(
            answer,
            tables[Table::Messages],
            with_both(Column::AccountId, account_id@, Column::MessageId, message_id@),
            seq![Column::MessageJson],
            Order::Unordered,
            None,
        ),
{
    let asked = step->Find_0;
    lemma_with_both(
        asked@->Select_filter,
        Column::AccountId,
        account_id@,
        Column::MessageId,
        message_id@,
        m,
    );
    lemma_gives(
        asked@,
        with_both(Column::AccountId, account_id@, Column::MessageId, message_id@),
        tables,
        answer,
        m,
    );
}

/// Where the JSON of the message is found it is read, and otherwise the reaction
/// is not applied.
pub proof fn finding_the_message(
    reply: Result<Answer, NoteDeckError>,
    step: ReactionStep,
    text: Seq<char>,
)
    requires
        call_ensures(Database::reaction_found, (&reply,), step),
    ensures
        (forall|s: Seq<char>| !starts_with_text(reply, s)) ==> step is Unapplied,
        starts_with_text(reply, text) ==> (step matches ReactionStep::Read(json) && json@ == text),
{
    lemma_starts(reply);
    if step !is Unapplied {
        let s = text_if_any(reply_seen(reply))->0;
        assert(starts_with_text(reply, s));
    }
}

/// Where the message was read, what is to be written is the message as the
/// reaction changes it, with the JSON that it had. Where it was not read, or the
/// reaction changes nothing, the reaction is not applied.
pub proof fn changing_the_message(
    message: Option<ChatMessage>,
    json: String,
    reactor: ChatReactionUser,
    reaction: &str,
    is_react: bool,
    step: ReactionStep,
    after: Option<ChatMessage>,
)
    requires
        call_ensures(
            Database::reaction_read,
            (message, json, &reactor, reaction, is_react),
            step,
        ),
        message matches Some(m) ==> call_ensures(
            ChatMessage::reacted,
            (m, &reactor, reaction, is_react),
            after,
        ),
    ensures
        message is None ==> step is Unapplied,
        message is Some && after is None ==> step is Unapplied,
        message is Some && after is Some ==> (step matches ReactionStep::Write {
            message: written,
            json: old,
        } && written@ == after->0@ && same_but_reactions(written, after->0) && old@ == json@
            && written.reactions@.len() == after->0.reactions@.len() && forall|i: int|
            0 <= i < written.reactions@.len() ==> same_reaction(
                #[trigger] written.reactions@[i],
                after->0.reactions@[i],
            )),
{
    if message is Some && after is Some {
        if let ReactionStep::Write { message: written, json: old } = step {
            let changed = after->0;
            assert(written@.reactions.len() == written.reactions@.len());
            assert(changed@.reactions.len() == changed.reactions@.len());
            assert forall|i: int| 0 <= i < written.reactions@.len() implies same_reaction(
                #[trigger] written.reactions@[i],
                changed.reactions@[i],
            ) by {
                lemma_same_message(written, changed, i, 0);
            }
        }
    }
}

/// The new JSON is stored for the message of the account, or, where it could not
/// be written, the JSON that the message had.
pub proof fn storing_the_message(
    account_id: &str,
    message_id: &str,
    new_json: Option<String>,
    json: String,
    step: ReactionStep,
    before: Tables,
    after: Tables,
    changed: nat,
    m: Matching,
)
    requires
        call_ensures(
            Database::reaction_written,
            (account_id, message_id, new_json, json),
            step,
        ),
        step matches ReactionStep::Store(stored) ==> stored@.step(before, after, changed, m),
    ensures
        step is Store,
        sets(
            Table::Messages,
            with_both(Column::AccountId, account_id@, Column::MessageId, message_id@),
            Column::MessageJson,
            Cell::Text(
                match new_json {
                    Some(s) => s@,
                    None => json@,
                },
            ),
            before,
            after,
            changed,
        ),
{
    let stored = step->Store_0;
    lemma_with_both(
        stored@->Update_filter,
        Column::AccountId,
        account_id@,
        Column::MessageId,
        message_id@,
        m,
    );
    lemma_sets(
        Table::Messages,
        stored@->Update_change,
        stored@->Update_filter,
        with_both(Column::AccountId, account_id@, Column::MessageId, message_id@),
        before,
        after,
        changed,
        m,
    );
}

} // verus!
