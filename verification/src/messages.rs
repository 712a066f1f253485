//! The cache of chat messages.
use vstd::prelude::*;
use crate::accounts::{delete_by, deletion_by};
use crate::chat::{
    reacted, thread_key, ChatMessage, ChatMessageView, ChatReactionUser, ChatRecord, ChatRecordView,
};
use crate::database::{Database, Transaction};
use crate::decode::{decodable_rows, seen, Answer, AnswerView};
use crate::error::{DatabaseErrorView, NoteDeckError};
use crate::notes::text_or_empty;
use crate::sql::{
    assign, is_text, Assignment, AssignmentView, Condition, ConditionView, Order, Query, QueryView,
    Statement, StatementView, Test,
};
use crate::value::{Cell, Column, Table, Value};

verus! {

/// What each column of a message's row holds when the message is cached at
/// `now` for an account, in the thread `thread` of the kind `kind`.
pub open spec fn message_values(
    record: ChatRecordView,
    account_id: Seq<char>,
    server_host: Seq<char>,
    thread: Seq<char>,
    kind: Seq<char>,
    now: int,
) -> Seq<AssignmentView> {
    seq![
        assign(Column::MessageId, Cell::Text(record.message.id)),
        assign(Column::AccountId, Cell::Text(account_id)),
        assign(Column::ServerHost, Cell::Text(server_host)),
        assign(Column::ThreadId, Cell::Text(thread)),
        assign(Column::ThreadKind, Cell::Text(kind)),
        assign(Column::FromUserId, Cell::Text(record.message.from_user_id)),
        assign(Column::CreatedAt, Cell::Text(record.message.created_at)),
        assign(Column::MessageJson, Cell::Text(text_or_empty(record.json))),
        assign(Column::CachedAt, Cell::Integer(now)),
    ]
}

/// The statement that caches a message. A message that the account has cached
/// before keeps its server and takes over the rest.
pub open spec fn message_upsert(
    record: ChatRecordView,
    account_id: Seq<char>,
    server_host: Seq<char>,
    thread: Seq<char>,
    kind: Seq<char>,
    now: int,
) -> StatementView {
    StatementView::Upsert {
        table: Table::Messages,
        values: message_values(record, account_id, server_host, thread, kind, now),
        key: seq![Column::MessageId, Column::AccountId],
        update: seq![
            Column::ThreadId,
            Column::ThreadKind,
            Column::FromUserId,
            Column::CreatedAt,
            Column::MessageJson,
            Column::CachedAt,
        ],
    }
}

/// The statements that cache messages: one for each message that has a thread,
/// in order.
pub open spec fn message_upserts(
    records: Seq<ChatRecordView>,
    account_id: Seq<char>,
    account_user_id: Seq<char>,
    server_host: Seq<char>,
    now: int,
) -> Seq<StatementView>
    decreases records.len(),
{
    if records.len() == 0 {
        Seq::empty()
    } else {
        let head = message_upserts(
            records.drop_last(),
            account_id,
            account_user_id,
            server_host,
            now,
        );
        match thread_key(records.last().message, account_user_id) {
            Some((thread, kind)) => head.push(
                message_upsert(records.last(), account_id, server_host, thread, kind, now),
            ),
            None => head,
        }
    }
}

/// The conditions that pick one message of an account.
pub open spec fn is_message(account_id: Seq<char>, message_id: Seq<char>) -> Seq<ConditionView> {
    seq![is_text(Column::AccountId, account_id), is_text(Column::MessageId, message_id)]
}

/// The conditions that a message belongs to a thread of an account.
pub open spec fn in_thread(account_id: Seq<char>, thread_id: Seq<char>) -> Seq<ConditionView> {
    seq![is_text(Column::AccountId, account_id), is_text(Column::ThreadId, thread_id)]
}

/// The query for one column of the messages that meet `filter`.
pub open spec fn message_query(
    column: Column,
    filter: Seq<ConditionView>,
    order: Order,
    limit: Option<int>,
) -> QueryView {
    QueryView::Select { table: Table::Messages, columns: seq![column], filter, order, limit }
}

/// The query for the messages of a thread, newest first, all of them or those
/// created before a time.
pub open spec fn thread_query(
    account_id: Seq<char>,
    thread_id: Seq<char>,
    before: Option<Seq<char>>,
    limit: int,
) -> QueryView {
    message_query(
        Column::MessageJson,
        match before {
            Some(at) => in_thread(account_id, thread_id).push(
                ConditionView {
                    column: Column::CreatedAt,
                    test: Test::Less,
                    value: Cell::Text(at),
                },
            ),
            None => in_thread(account_id, thread_id),
        },
        Order::Descending(Column::CreatedAt),
        Some(limit),
    )
}

/// The query for the newest message of each thread, newest first.
pub open spec fn history_query(account_id: Seq<char>, limit: int) -> QueryView {
    QueryView::LatestPerGroup {
        table: Table::Messages,
        column: Column::MessageJson,
        filter: seq![is_text(Column::AccountId, account_id)],
        group: Column::ThreadId,
        newest_by: Column::CreatedAt,
        limit,
    }
}

/// The text that an answer gives, whatever stood in the way of it.
pub open spec fn text_if_any(reply: Result<AnswerView, DatabaseErrorView>) -> Option<Seq<char>> {
    match reply {
        Ok(answer) => match answer.one::<String>() {
            Ok(s) => Some(s),
            Err(_) => None,
        },
        Err(_) => None,
    }
}

/// The statement that stores a message's JSON in place of the JSON it had.
pub open spec fn message_rewrite(
    account_id: Seq<char>,
    message_id: Seq<char>,
    json: Seq<char>,
) -> StatementView {
    StatementView::Update {
        table: Table::Messages,
        change: assign(Column::MessageJson, Cell::Text(json)),
        filter: is_message(account_id, message_id),
    }
}

/// What is to be done for a reaction. All of it is one transaction, which takes
/// effect when the reaction was stored.
#[derive(Debug, Clone)]
pub enum ReactionStep {
    /// Ask for the JSON of the message.
    Find(Query),
    /// Read the message from its JSON.
    Read(String),
    /// Write the changed message as JSON. The JSON that it had comes with it.
    Write { message: ChatMessage, json: String },
    /// Store the JSON. The reaction is applied where that changes a row.
    Store(Statement),
    /// Nothing: the reaction is not applied.
    Unapplied,
}

#[verifier::ext_equal]
pub enum ReactionStepView {
    Find(QueryView),
    Read(Seq<char>),
    Write { message: ChatMessageView, json: Seq<char> },
    Store(StatementView),
    Unapplied,
}

impl View for ReactionStep {
    type V = ReactionStepView;

    open spec fn view(&self) -> ReactionStepView {
        match self {
            ReactionStep::Find(q) => ReactionStepView::Find(q@),
            ReactionStep::Read(json) => ReactionStepView::Read(json@),
            ReactionStep::Write { message, json } => ReactionStepView::Write {
                message: message@,
                json: json@,
            },
            ReactionStep::Store(s) => ReactionStepView::Store(s@),
            ReactionStep::Unapplied => ReactionStepView::Unapplied,
        }
    }
}

/// What is to be done for the messages of a thread.
#[derive(Debug, Clone)]
pub enum ThreadStep {
    /// Ask when the message was created before which the others are wanted.
    Anchor(Query),
    /// Ask for the messages.
    Messages(Query),
    /// There are no messages to ask for.
    Nothing,
}

#[verifier::ext_equal]
pub enum ThreadStepView {
    Anchor(QueryView),
    Messages(QueryView),
    Nothing,
}

impl View for ThreadStep {
    type V = ThreadStepView;

    open spec fn view(&self) -> ThreadStepView {
        match self {
            ThreadStep::Anchor(q) => ThreadStepView::Anchor(q@),
            ThreadStep::Messages(q) => ThreadStepView::Messages(q@),
            ThreadStep::Nothing => ThreadStepView::Nothing,
        }
    }
}

/// The statistics that two answers give: how many messages, and about how many
/// bytes. Where there are no messages, or the bytes cannot be had, they are none.
pub open spec fn chat_stats(
    count: Result<i64, DatabaseErrorView>,
    size: Result<AnswerView, DatabaseErrorView>,
) -> Result<(i64, i64), DatabaseErrorView> {
    match count {
        Err(e) => Err(e),
        Ok(n) => Ok(
            (
                n,
                match size {
                    Ok(answer) => match answer.one::<i64>() {
                        Ok(bytes) => if n == 0 {
                            0
                        } else {
                            bytes
                        },
                        Err(_) => 0,
                    },
                    Err(_) => 0,
                },
            ),
        ),
    }
}

fn query(column: Column, filter: Vec<Condition>, order: Order, limit: Option<i64>) -> (r: Query)
    ensures
        r@ == message_query(
            column,
            filter.deep_view(),
            order,
            match limit {
                Some(n) => Some(n as int),
                None => None,
            },
        ),
{
    let columns: Vec<Column> = vec![column];
    assert(columns@ =~= seq![column]);
    Query::Select { table: Table::Messages, columns, filter, order, limit }
}

fn upsert(
    record: &ChatRecord,
    account_id: &str,
    server_host: &str,
    thread: String,
    kind: &str,
    now: i64,
) -> (r: Statement)
    ensures
        r@ == message_upsert(record@, account_id@, server_host@, thread@, kind@, now as int),
{
    let json: String = match &record.json {
        Some(s) => s.clone(),
        None => "".to_owned(),
    };
    let values: Vec<Assignment> = vec![
        Assignment::new(Column::MessageId, Value::text(record.message.id.as_str())),
        Assignment::new(Column::AccountId, Value::text(account_id)),
        Assignment::new(Column::ServerHost, Value::text(server_host)),
        Assignment::new(Column::ThreadId, Value::Text(thread)),
        Assignment::new(Column::ThreadKind, Value::text(kind)),
        Assignment::new(Column::FromUserId, Value::text(record.message.from_user_id.as_str())),
        Assignment::new(Column::CreatedAt, Value::text(record.message.created_at.as_str())),
        Assignment::new(Column::MessageJson, Value::Text(json)),
        Assignment::new(Column::CachedAt, Value::Integer(now)),
    ];
    assert(values.deep_view() =~= message_values(
        record@,
        account_id@,
        server_host@,
        thread@,
        kind@,
        now as int,
    ));
    let r = Statement::Upsert {
        table: Table::Messages,
        values,
        key: vec![Column::MessageId, Column::AccountId],
        update: vec![
            Column::ThreadId,
            Column::ThreadKind,
            Column::FromUserId,
            Column::CreatedAt,
            Column::MessageJson,
            Column::CachedAt,
        ],
    };
    assert(r@ =~= message_upsert(
        record@,
        account_id@,
        server_host@,
        thread@,
        kind@,
        now as int,
    ));
    r
}

fn message_filter(account_id: &str, message_id: &str) -> (r: Vec<Condition>)
    ensures
        r.deep_view() == is_message(account_id@, message_id@),
{
    let r: Vec<Condition> = vec![
        Condition::is_text(Column::AccountId, account_id),
        Condition::is_text(Column::MessageId, message_id),
    ];
    assert(r.deep_view() =~= is_message(account_id@, message_id@));
    r
}

fn thread_filter(account_id: &str, thread_id: &str) -> (r: Vec<Condition>)
    ensures
        r.deep_view() == in_thread(account_id@, thread_id@),
{
    let r: Vec<Condition> = vec![
        Condition::is_text(Column::AccountId, account_id),
        Condition::is_text(Column::ThreadId, thread_id),
    ];
    assert(r.deep_view() =~= in_thread(account_id@, thread_id@));
    r
}

/// A reply as it is seen in contracts.
pub open spec fn reply_seen(reply: Result<Answer, NoteDeckError>) -> Result<
    AnswerView,
    DatabaseErrorView,
> {
    match reply {
        Ok(answer) => Ok(answer@),
        Err(e) => Err(e@),
    }
}

fn read_if_any(reply: &Result<Answer, NoteDeckError>) -> (r: Option<String>)
    ensures
        r.deep_view() == text_if_any(reply_seen(*reply)),
{
    match reply {
        Ok(answer) => match answer.one::<String>() {
            Ok(s) => Some(s),
            Err(_) => None,
        },
        Err(_) => None,
    }
}

impl Database {
    /// Caches messages for an account at the time `now`, in seconds, and says
    /// how many rows are written. Messages without a thread are left out.
    pub fn cache_chat_messages(
        records: &Vec<ChatRecord>,
        account_id: &str,
        account_user_id: &str,
        server_host: &str,
        now: i64,
    ) -> (r: (Transaction, usize))
        ensures
            r.0@ == message_upserts(
                records.deep_view(),
                account_id@,
                account_user_id@,
                server_host@,
                now as int,
            ),
            r.1 == r.0@.len(),
    {
        let ghost all = records.deep_view();
        let mut statements: Vec<Statement> = Vec::new();
        let mut i: usize = 0;
        assert(statements.deep_view() =~= Seq::<StatementView>::empty());
        while i < records.len()
            invariant
                i <= records@.len(),
                all == records.deep_view(),
                statements.deep_view() == message_upserts(
                    all.take(i as int),
                    account_id@,
                    account_user_id@,
                    server_host@,
                    now as int,
                ),
            decreases records@.len() - i,
        {
            assert(all.take(i + 1).drop_last() =~= all.take(i as int));
            assert(all.take(i + 1).last() == records@[i as int]@);
            let record = &records[i];
            if let Some((thread, kind)) = Database::derive_thread_key(
                &record.message,
                account_user_id,
            ) {
                let ghost before = statements.deep_view();
                let statement = upsert(record, account_id, server_host, thread, kind, now);
                statements.push(statement);
                assert(statements.deep_view() =~= before.push(statement@));
            }
            i += 1;
        }
        assert(all.take(all.len() as int) =~= all);
        let written: usize = statements.len();
        (Transaction { statements }, written)
    }

    /// Caches one message for an account at the time `now`, in seconds, and
    /// says whether a row is written.
    pub fn cache_chat_message(
        record: &ChatRecord,
        account_id: &str,
        account_user_id: &str,
        server_host: &str,
        now: i64,
    ) -> (r: (Transaction, bool))
        ensures
            match thread_key(record@.message, account_user_id@) {
                Some((thread, kind)) => r.1 && r.0@ == seq![
                    message_upsert(record@, account_id@, server_host@, thread, kind, now as int),
                ],
                None => !r.1 && r.0@ == Seq::<StatementView>::empty(),
            },
    {
        match Database::derive_thread_key(&record.message, account_user_id) {
            Some((thread, kind)) => {
                let statements: Vec<Statement> = vec![
                    upsert(record, account_id, server_host, thread, kind, now),
                ];
                let transaction = Transaction { statements };
                assert(transaction@ =~= seq![
                    message_upsert(
                        record@,
                        account_id@,
                        server_host@,
                        thread@,
                        kind@,
                        now as int,
                    ),
                ]);
                (transaction, true)
            },
            None => {
                let transaction = Transaction { statements: Vec::new() };
                assert(transaction@ =~= Seq::<StatementView>::empty());
                (transaction, false)
            },
        }
    }

    /// Deletes a message of an account.
    pub fn delete_cached_chat_message(account_id: &str, message_id: &str) -> (r: Statement)
        ensures
            r@ == (StatementView::Delete {
                table: Table::Messages,
                filter: is_message(account_id@, message_id@),
            }),
    {
        Statement::Delete { table: Table::Messages, filter: message_filter(account_id, message_id) }
    }

    /// Whether a statement that changed this many rows changed any.
    pub fn any_changed(changed: usize) -> (r: bool)
        ensures
            r == (changed > 0),
    {
        changed > 0
    }

    /// Starts to add a reaction to a message, or to take it back: the JSON of the
    /// message is asked for.
    pub fn apply_chat_message_reaction(account_id: &str, message_id: &str) -> (r: ReactionStep)
        ensures
            r@ == ReactionStepView::Find(
                message_query(
                    Column::MessageJson,
                    is_message(account_id@, message_id@),
                    Order::Unordered,
                    None,
                ),
            ),
    {
        ReactionStep::Find(
            query(
                Column::MessageJson,
                message_filter(account_id, message_id),
                Order::Unordered,
                None,
            ),
        )
    }

    /// What to do once the JSON was asked for. Where it is not to be had, the
    /// reaction is not applied.
    pub fn reaction_found(reply: &Result<Answer, NoteDeckError>) -> (r: ReactionStep)
        ensures
            r@ == match text_if_any(reply_seen(*reply)) {
                Some(json) => ReactionStepView::Read(json),
                None => ReactionStepView::Unapplied,
            },
    {
        match read_if_any(reply) {
            Some(json) => ReactionStep::Read(json),
            None => ReactionStep::Unapplied,
        }
    }

    /// What to do once a message was read from its JSON. Where the JSON was not
    /// that of a message, or has no such reaction to take back, the reaction is
    /// not applied.
    pub fn reaction_read(
        message: Option<ChatMessage>,
        json: String,
        reactor: &ChatReactionUser,
        reaction: &str,
        is_react: bool,
    ) -> (r: ReactionStep)
        ensures
            r@ == match message {
                Some(m) => match reacted(m@, reactor@, reaction@, is_react) {
                    Some(changed) => ReactionStepView::Write { message: changed, json: json@ },
                    None => ReactionStepView::Unapplied,
                },
                None => ReactionStepView::Unapplied,
            },
    {
        match message {
            Some(m) => match m.reacted(reactor, reaction, is_react) {
                Some(changed) => ReactionStep::Write { message: changed, json },
                None => ReactionStep::Unapplied,
            },
            None => ReactionStep::Unapplied,
        }
    }

    /// What to do once the changed message was written as JSON: store it, or,
    /// where it cannot be written, the JSON that the message had.
    pub fn reaction_written(
        account_id: &str,
        message_id: &str,
        new_json: Option<String>,
        json: String,
    ) -> (r: ReactionStep)
        ensures
            r@ == ReactionStepView::Store(
                message_rewrite(
                    account_id@,
                    message_id@,
                    match new_json.deep_view() {
                        Some(s) => s,
                        None => json@,
                    },
                ),
            ),
    {
        let stored: String = match new_json {
            Some(s) => s,
            None => json,
        };
        ReactionStep::Store(
            Statement::Update {
                table: Table::Messages,
                change: Assignment::new(Column::MessageJson, Value::Text(stored)),
                filter: message_filter(account_id, message_id),
            },
        )
    }

    /// The newest message of each thread of an account, newest first.
    pub fn get_cached_chat_history(account_id: &str, limit: i64) -> (r: Query)
        ensures
            r@ == history_query(account_id@, limit as int),
    {
        let filter: Vec<Condition> = vec![Condition::is_text(Column::AccountId, account_id)];
        assert(filter.deep_view() =~= seq![is_text(Column::AccountId, account_id@)]);
        Query::LatestPerGroup {
            table: Table::Messages,
            column: Column::MessageJson,
            filter,
            group: Column::ThreadId,
            newest_by: Column::CreatedAt,
            limit,
        }
    }

    /// The JSON of the messages of an answer. Rows that cannot be read are
    /// passed over.
    pub fn messages_reply(answer: &Answer) -> (r: Vec<String>)
        ensures
            r.deep_view() == decodable_rows::<String>(answer@.rows),
    {
        answer.readable::<String>()
    }

    /// The messages of a thread, newest first: all, or those created before the
    /// message `until_id`.
    pub fn get_cached_chat_thread_messages(
        account_id: &str,
        thread_id: &str,
        until_id: Option<&str>,
        limit: i64,
    ) -> (r: ThreadStep)
        ensures
            r@ == match until_id.deep_view() {
                Some(id) => ThreadStepView::Anchor(
                    message_query(
                        Column::CreatedAt,
                        is_message(account_id@, id),
                        Order::Unordered,
                        None,
                    ),
                ),
                None => ThreadStepView::Messages(
                    thread_query(account_id@, thread_id@, None, limit as int),
                ),
            },
    {
        match until_id {
            Some(id) => ThreadStep::Anchor(
                query(Column::CreatedAt, message_filter(account_id, id), Order::Unordered, None),
            ),
            None => ThreadStep::Messages(
                query(
                    Column::MessageJson,
                    thread_filter(account_id, thread_id),
                    Order::Descending(Column::CreatedAt),
                    Some(limit),
                ),
            ),
        }
    }

    /// What to do once it is known when the message was created before which
    /// the others are wanted. Where that is not to be had there are none.
    pub fn thread_anchor_reply(
        account_id: &str,
        thread_id: &str,
        reply: &Result<Answer, NoteDeckError>,
        limit: i64,
    ) -> (r: ThreadStep)
        ensures
            r@ == match text_if_any(reply_seen(*reply)) {
                Some(at) => ThreadStepView::Messages(
                    thread_query(account_id@, thread_id@, Some(at), limit as int),
                ),
                None => ThreadStepView::Nothing,
            },
    {
        match read_if_any(reply) {
            Some(at) => {
                let ghost time = at@;
                let mut filter = thread_filter(account_id, thread_id);
                let ghost before = filter.deep_view();
                let condition = Condition {
                    column: Column::CreatedAt,
                    test: Test::Less,
                    value: Value::Text(at),
                };
                filter.push(condition);
                assert(filter.deep_view() =~= before.push(condition@));
                ThreadStep::Messages(
                    query(
                        Column::MessageJson,
                        filter,
                        Order::Descending(Column::CreatedAt),
                        Some(limit),
                    ),
                )
            },
            None => ThreadStep::Nothing,
        }
    }

    /// The id of the newest message of a thread.
    pub fn get_cached_chat_latest_message_id(account_id: &str, thread_id: &str) -> (r: Query)
        ensures
            r@ == message_query(
                Column::MessageId,
                in_thread(account_id@, thread_id@),
                Order::Descending(Column::CreatedAt),
                Some(1),
            ),
    {
        query(
            Column::MessageId,
            thread_filter(account_id, thread_id),
            Order::Descending(Column::CreatedAt),
            Some(1),
        )
    }

    /// The id of the answer, if it has one.
    pub fn get_cached_chat_latest_message_id_reply(answer: &Answer) -> (r: Result<
        Option<String>,
        NoteDeckError,
    >)
        ensures
            seen(r) == answer@.first::<String>(),
    {
        answer.first::<String>()
    }

    /// Deletes all messages of an account.
    pub fn clear_chat_cache_for_account(account_id: &str) -> (r: Statement)
        ensures
            r@ == deletion_by(Table::Messages, Column::AccountId, account_id@),
    {
        delete_by(Table::Messages, Column::AccountId, account_id)
    }

    /// How many messages an account has cached.
    pub fn chat_cache_count(account_id: &str) -> (r: Query)
        ensures
            r@ == (QueryView::Count {
                table: Table::Messages,
                filter: seq![is_text(Column::AccountId, account_id@)],
            }),
    {
        let filter: Vec<Condition> = vec![Condition::is_text(Column::AccountId, account_id)];
        assert(filter.deep_view() =~= seq![is_text(Column::AccountId, account_id@)]);
        Query::Count { table: Table::Messages, filter }
    }

    /// How many messages there are, and how many bytes the pages of their table
    /// have: two queries.
    pub fn chat_cache_stats() -> (r: (Query, Query))
        ensures
            r.0@ == (QueryView::Count { table: Table::Messages, filter: Seq::empty() }),
            r.1@ == (QueryView::Size { table: Table::Messages }),
    {
        let filter: Vec<Condition> = Vec::new();
        assert(filter.deep_view() =~= Seq::<ConditionView>::empty());
        (Query::Count { table: Table::Messages, filter }, Query::Size { table: Table::Messages })
    }

    /// How many messages there are, and about how many bytes they take. Where
    /// there are none, or the bytes cannot be had, they take none.
    pub fn chat_cache_stats_reply(
        count: &Answer,
        size: &Result<Answer, NoteDeckError>,
    ) -> (r: Result<(i64, i64), NoteDeckError>)
        ensures
            seen(r) == chat_stats(count@.one::<i64>(), reply_seen(*size)),
    {
        let messages = count.one::<i64>()?;
        if messages == 0 {
            return Ok((0, 0));
        }
        let bytes: i64 = match size {
            Ok(answer) => match answer.one::<i64>() {
                Ok(n) => n,
                Err(_) => 0,
            },
            Err(_) => 0,
        };
        Ok((messages, bytes))
    }
}

} // verus!
