//! Threads of chat messages, and reactions.
use vstd::prelude::*;
use crate::chat::{
    first_reaction, is_reaction_of, lemma_first_reaction, reacted, thread_key, ChatMessageView,
    ChatReactionUserView, ChatRecordView,
};
use crate::decode::complete;
use crate::error::DatabaseErrorView;
use crate::laws::keys::{messages_respect_keys, runs_keep_keys};
use crate::laws::numbers::{kept_places, lemma_group_within, lemma_kept_places};
use crate::laws::rows::{
    lemma_answer_contains, lemma_answer_rows, lemma_arranged, lemma_filter_distinct,
    lemma_filter_from, lemma_filter_keeps, lemma_filter_one, lemma_filter_same, lemma_filter_twice,
    lemma_meets_text, lemma_one_per_key, lemma_overwritten, lemma_row_of, lemma_runs_one,
    lemma_select_all, lemma_upserted_filter, lemma_upserted_others, lemma_upserted_row, not_ahead,
    ordered,
};
use crate::messages::{
    chat_stats, history_query, in_thread, is_message, message_query, message_rewrite,
    message_upsert, message_upserts, message_values, thread_query,
};
use crate::notes::text_or_empty;
use crate::sql::{is_text, ConditionView, Order, QueryView, StatementView};
use crate::tables::{
    agree, arranged, distinct, group_of, has_key, in_group, key_of, keyed, less, limited, meets,
    numbering, projected, projections, row_of, runs, selected, size_answered, text_less, total_size,
    transacted, upserted, within, Matching, Pages, Row, Tables,
};
use crate::value::{Cell, Column, Table};

verus! {

/// A message has a thread if and only if it goes to a room or to a user.
pub proof fn only_messages_to_nobody_have_no_thread(m: ChatMessageView, account_user_id: Seq<char>)
    ensures
        thread_key(m, account_user_id) is None <==> m.to_room_id is None && m.to_user_id is None,
{
}

/// A message to a room belongs to the room's thread, whoever looks at it and
/// whatever user it names besides.
pub proof fn a_room_is_one_thread(
    m: ChatMessageView,
    n: ChatMessageView,
    one: Seq<char>,
    other: Seq<char>,
)
    requires
        m.to_room_id is Some,
        n.to_room_id is Some,
    ensures
        thread_key(m, one) == thread_key(n, other) <==> m.to_room_id == n.to_room_id,
{
    reveal_strlit("r:");
    let a = m.to_room_id->0;
    let b = n.to_room_id->0;
    if thread_key(m, one) == thread_key(n, other) {
        assert(("r:"@ + a).skip(2) =~= a);
        assert(("r:"@ + b).skip(2) =~= b);
    }
}

/// Both sides of a conversation are one thread: what the account's user writes
/// to a partner and what the partner writes back.
pub proof fn both_directions_are_one_thread(
    sent: ChatMessageView,
    received: ChatMessageView,
    me: Seq<char>,
    partner: Seq<char>,
)
    requires
        sent.to_room_id is None,
        sent.from_user_id == me,
        sent.to_user_id == Some(partner),
        received.to_room_id is None,
        received.from_user_id == partner,
        received.to_user_id == Some(me),
    ensures
        thread_key(sent, me) == thread_key(received, me),
{
}

/// A room and a conversation are never one thread, whatever their ids are.
pub proof fn rooms_and_conversations_stay_apart(
    m: ChatMessageView,
    n: ChatMessageView,
    account_user_id: Seq<char>,
)
    requires
        m.to_room_id is Some,
        n.to_room_id is None,
        n.to_user_id is Some,
    ensures
        ({
            let (room, room_kind) = thread_key(m, account_user_id)->0;
            let (conversation, conversation_kind) = thread_key(n, account_user_id)->0;
            room != conversation && room_kind != conversation_kind
        }),
{
    reveal_strlit("r:");
    reveal_strlit("u:");
    reveal_strlit("room");
    reveal_strlit("dm");
    let (room, room_kind) = thread_key(m, account_user_id)->0;
    let (conversation, conversation_kind) = thread_key(n, account_user_id)->0;
    assert(room[0] == 'r');
    assert(conversation[0] == 'u');
    assert("room"@.len() == 4);
    assert("dm"@.len() == 2);
}

/// A reaction that is made is there, behind the others, and its user is the whole
/// reactor.
pub proof fn a_reaction_is_added_last(
    m: ChatMessageView,
    reactor: ChatReactionUserView,
    reaction: Seq<char>,
)
    ensures
        reacted(m, reactor, reaction, true) is Some,
        ({
            let after = reacted(m, reactor, reaction, true)->0;
            &&& after.reactions.drop_last() == m.reactions
            &&& is_reaction_of(after.reactions.last(), reactor.id, reaction)
            &&& after.reactions.last().user == Some(reactor)
            &&& after.reactions.last().reaction == reaction
            &&& after == (ChatMessageView { reactions: after.reactions, ..m })
        }),
{
    let after = reacted(m, reactor, reaction, true)->0;
    assert(after.reactions.drop_last() =~= m.reactions);
}

/// Taking back a reaction that the user had not made before undoes it.
pub proof fn taking_a_reaction_back_undoes_it(
    m: ChatMessageView,
    reactor: ChatReactionUserView,
    reaction: Seq<char>,
)
    requires
        forall|i: int|
            0 <= i < m.reactions.len() ==> !is_reaction_of(
                #[trigger] m.reactions[i],
                reactor.id,
                reaction,
            ),
    ensures
        reacted(reacted(m, reactor, reaction, true)->0, reactor, reaction, false) == Some(m),
{
    let with = reacted(m, reactor, reaction, true)->0;
    lemma_first_reaction(with.reactions, reactor.id, reaction);
    let at = first_reaction(with.reactions, reactor.id, reaction);
    let last = with.reactions.len() - 1;
    assert(is_reaction_of(with.reactions[last], reactor.id, reaction));
    if at < last {
        assert(with.reactions[at] == m.reactions[at]);
    }
    assert(with.reactions.remove(last) =~= m.reactions);
    assert((ChatMessageView { reactions: m.reactions, ..with }) =~= m);
}

/// Taking back a reaction takes away one, the first of the user's, and leaves
/// the others in their order. Where the user made none, nothing changes.
pub proof fn taking_a_reaction_back_removes_one(
    m: ChatMessageView,
    reactor: ChatReactionUserView,
    reaction: Seq<char>,
)
    ensures
        reacted(m, reactor, reaction, false) is None <==> forall|i: int|
            0 <= i < m.reactions.len() ==> !is_reaction_of(
                #[trigger] m.reactions[i],
                reactor.id,
                reaction,
            ),
        reacted(m, reactor, reaction, false) matches Some(after) ==> exists|at: int|
            {
                &&& 0 <= at < m.reactions.len()
                &&& #[trigger] is_reaction_of(m.reactions[at], reactor.id, reaction)
                &&& forall|k: int|
                    0 <= k < at ==> !is_reaction_of(
                        #[trigger] m.reactions[k],
                        reactor.id,
                        reaction,
                    )
                &&& after == (ChatMessageView { reactions: m.reactions.remove(at), ..m })
            },
{
    lemma_first_reaction(m.reactions, reactor.id, reaction);
    let at = first_reaction(m.reactions, reactor.id, reaction);
    if at < m.reactions.len() {
        assert(is_reaction_of(m.reactions[at], reactor.id, reaction));
    }
}

/// Whether a row is a message of a thread of an account.
pub open spec fn is_in_thread(row: Row, account_id: Seq<char>, thread_id: Seq<char>) -> bool {
    row[Column::AccountId] == Cell::Text(account_id) && row[Column::ThreadId] == Cell::Text(
        thread_id,
    )
}

/// Whether a row is a message of an account.
pub open spec fn is_the_message(row: Row, account_id: Seq<char>, message_id: Seq<char>) -> bool {
    row[Column::AccountId] == Cell::Text(account_id) && row[Column::MessageId] == Cell::Text(
        message_id,
    )
}

proof fn lemma_in_thread(row: Row, account_id: Seq<char>, thread_id: Seq<char>, m: Matching)
    ensures
        meets(row, in_thread(account_id, thread_id), m) <==> is_in_thread(
            row,
            account_id,
            thread_id,
        ),
{
    let filter = in_thread(account_id, thread_id);
    if meets(row, filter, m) {
        assert(filter[0].holds(row, m));
        assert(filter[1].holds(row, m));
    }
}

proof fn lemma_is_message(row: Row, account_id: Seq<char>, message_id: Seq<char>, m: Matching)
    ensures
        meets(row, is_message(account_id, message_id), m) <==> is_the_message(
            row,
            account_id,
            message_id,
        ),
{
    let filter = is_message(account_id, message_id);
    if meets(row, filter, m) {
        assert(filter[0].holds(row, m));
        assert(filter[1].holds(row, m));
    }
}

proof fn lemma_message_row(
    record: ChatRecordView,
    account_id: Seq<char>,
    server_host: Seq<char>,
    thread: Seq<char>,
    kind: Seq<char>,
    now: int,
)
    ensures
        ({
            let row = row_of(message_values(record, account_id, server_host, thread, kind, now));
            &&& row[Column::MessageId] == Cell::Text(record.message.id)
            &&& row[Column::AccountId] == Cell::Text(account_id)
            &&& row[Column::ServerHost] == Cell::Text(server_host)
            &&& row[Column::ThreadId] == Cell::Text(thread)
            &&& row[Column::ThreadKind] == Cell::Text(kind)
            &&& row[Column::FromUserId] == Cell::Text(record.message.from_user_id)
            &&& row[Column::CreatedAt] == Cell::Text(record.message.created_at)
            &&& row[Column::MessageJson] == Cell::Text(text_or_empty(record.json))
            &&& row[Column::CachedAt] == Cell::Integer(now)
        }),
{
    let values = message_values(record, account_id, server_host, thread, kind, now);
    lemma_row_of(values);
    assert(values[0].column == Column::MessageId);
    assert(values[1].column == Column::AccountId);
    assert(values[2].column == Column::ServerHost);
    assert(values[3].column == Column::ThreadId);
    assert(values[4].column == Column::ThreadKind);
    assert(values[5].column == Column::FromUserId);
    assert(values[6].column == Column::CreatedAt);
    assert(values[7].column == Column::MessageJson);
    assert(values[8].column == Column::CachedAt);
}

/// A message that was cached is in its thread, as it was cached last.
pub proof fn a_cached_message_is_in_its_thread(
    record: ChatRecordView,
    account_id: Seq<char>,
    account_user_id: Seq<char>,
    server_host: Seq<char>,
    now: int,
    before: Tables,
    after: Tables,
    changed: nat,
    limit: int,
    answer: Seq<Seq<Cell>>,
    m: Matching,
)
    requires
        thread_key(record.message, account_user_id) is Some,
        ({
            let (thread, kind) = thread_key(record.message, account_user_id)->0;
            &&& message_upsert(record, account_id, server_host, thread, kind, now).step(
                before,
                after,
                changed,
                m,
            )
            &&& thread_query(account_id, thread, None, limit).answered(after, answer, m)
        }),
        limit < 0 || answer.len() < limit,
    ensures
        answer.contains(seq![Cell::Text(text_or_empty(record.json))]),
{
    let (thread, kind) = thread_key(record.message, account_user_id)->0;
    let new = row_of(message_values(record, account_id, server_host, thread, kind, now));
    let key = seq![Column::MessageId, Column::AccountId];
    let update = seq![
        Column::ThreadId,
        Column::ThreadKind,
        Column::FromUserId,
        Column::CreatedAt,
        Column::MessageJson,
        Column::CachedAt,
    ];
    lemma_message_row(record, account_id, server_host, thread, kind, now);
    assert(key[1] == Column::AccountId);
    assert(update[0] == Column::ThreadId);
    assert(update[4] == Column::MessageJson);
    let row = lemma_upserted_row(before[Table::Messages], new, key, update);
    assert(row[Column::AccountId] == new[Column::AccountId]);
    assert(row[Column::ThreadId] == new[Column::ThreadId]);
    assert(row[Column::MessageJson] == new[Column::MessageJson]);
    lemma_in_thread(row, account_id, thread, m);
    let columns = seq![Column::MessageJson];
    let s = lemma_answer_rows(
        Table::Messages,
        columns,
        in_thread(account_id, thread),
        Order::Descending(Column::CreatedAt),
        Some(limit),
        after,
        answer,
        m,
    );
    assert(s.contains(row));
    lemma_answer_contains(s, columns, answer, row);
    assert(projected(row, columns) =~= seq![Cell::Text(text_or_empty(record.json))]);
}

/// Messages without a thread are not stored, and the others are, one row each.
pub proof fn as_many_rows_as_messages_with_a_thread(
    records: Seq<ChatRecordView>,
    account_id: Seq<char>,
    account_user_id: Seq<char>,
    server_host: Seq<char>,
    now: int,
)
    ensures
        message_upserts(records, account_id, account_user_id, server_host, now).len()
            == records.filter(
            |r: ChatRecordView| r.message.to_room_id is Some || r.message.to_user_id is Some,
        ).len(),
    decreases records.len(),
{
    reveal(Seq::filter);
    if records.len() > 0 {
        as_many_rows_as_messages_with_a_thread(
            records.drop_last(),
            account_id,
            account_user_id,
            server_host,
            now,
        );
    }
}

/// Whether a row holds a message as it was cached for an account at `now`.
pub open spec fn holds_message(
    row: Row,
    record: ChatRecordView,
    account_id: Seq<char>,
    account_user_id: Seq<char>,
    now: int,
) -> bool {
    &&& thread_key(record.message, account_user_id) matches Some((thread, kind))
    &&& is_the_message(row, account_id, record.message.id)
    &&& is_in_thread(row, account_id, thread)
    &&& row[Column::ThreadKind] == Cell::Text(kind)
    &&& row[Column::FromUserId] == Cell::Text(record.message.from_user_id)
    &&& row[Column::CreatedAt] == Cell::Text(record.message.created_at)
    &&& row[Column::MessageJson] == Cell::Text(text_or_empty(record.json))
    &&& row[Column::CachedAt] == Cell::Integer(now)
}

proof fn lemma_messages_are_there(
    records: Seq<ChatRecordView>,
    account_id: Seq<char>,
    account_user_id: Seq<char>,
    server_host: Seq<char>,
    now: int,
    before: Tables,
    after: Tables,
    changed: Seq<nat>,
    i: int,
    m: Matching,
)
    requires
        runs(
            message_upserts(records, account_id, account_user_id, server_host, now),
            before,
            after,
            changed,
            m,
        ),
        0 <= i < records.len(),
        thread_key(records[i].message, account_user_id) is Some,
        forall|j: int|
            i < j < records.len() && thread_key(records[j].message, account_user_id) is Some ==> (
            #[trigger] records[j]).message.id != records[i].message.id,
    ensures
        exists|row: Row| #[trigger]
            after[Table::Messages].contains(row) && holds_message(
                row,
                records[i],
                account_id,
                account_user_id,
                now,
            ),
    decreases records.len(),
{
    let batch = message_upserts(records, account_id, account_user_id, server_host, now);
    let rest = records.drop_last();
    let head = message_upserts(rest, account_id, account_user_id, server_host, now);
    let last = records.last();
    assert forall|j: int|
        i < j < rest.len() && thread_key(rest[j].message, account_user_id) is Some implies (
    #[trigger] rest[j]).message.id != records[i].message.id by {
        assert(records[j].message.id != records[i].message.id);
    }
    match thread_key(last.message, account_user_id) {
        None => {
            lemma_messages_are_there(
                rest,
                account_id,
                account_user_id,
                server_host,
                now,
                before,
                after,
                changed,
                i,
                m,
            );
        },
        Some((thread, kind)) => {
            let middle = choose|middle: Tables|
                {
                    &&& runs(batch.drop_last(), before, middle, changed.drop_last(), m)
                    &&& #[trigger] batch.last().step(middle, after, changed.last(), m)
                };
            assert(batch.drop_last() =~= head);
            let rows = middle[Table::Messages];
            let new = row_of(message_values(last, account_id, server_host, thread, kind, now));
            let key = seq![Column::MessageId, Column::AccountId];
            let update = seq![
                Column::ThreadId,
                Column::ThreadKind,
                Column::FromUserId,
                Column::CreatedAt,
                Column::MessageJson,
                Column::CachedAt,
            ];
            lemma_message_row(last, account_id, server_host, thread, kind, now);
            assert(after[Table::Messages] == upserted(rows, new, key, update));
            if i == records.len() - 1 {
                assert(key[0] == Column::MessageId);
                assert(key[1] == Column::AccountId);
                assert(update[0] == Column::ThreadId);
                assert(update[1] == Column::ThreadKind);
                assert(update[2] == Column::FromUserId);
                assert(update[3] == Column::CreatedAt);
                assert(update[4] == Column::MessageJson);
                assert(update[5] == Column::CachedAt);
                let row = lemma_upserted_row(rows, new, key, update);
                assert(row[Column::MessageId] == new[Column::MessageId]);
                assert(row[Column::AccountId] == new[Column::AccountId]);
                assert(row[Column::ThreadId] == new[Column::ThreadId]);
                assert(row[Column::ThreadKind] == new[Column::ThreadKind]);
                assert(row[Column::FromUserId] == new[Column::FromUserId]);
                assert(row[Column::CreatedAt] == new[Column::CreatedAt]);
                assert(row[Column::MessageJson] == new[Column::MessageJson]);
                assert(row[Column::CachedAt] == new[Column::CachedAt]);
                assert(holds_message(row, records[i], account_id, account_user_id, now));
            } else {
                lemma_messages_are_there(
                    rest,
                    account_id,
                    account_user_id,
                    server_host,
                    now,
                    before,
                    middle,
                    changed.drop_last(),
                    i,
                    m,
                );
                let row = choose|row: Row| #[trigger]
                    rows.contains(row) && holds_message(
                        row,
                        records[i],
                        account_id,
                        account_user_id,
                        now,
                    );
                if agree(row, new, key) {
                    assert(row[key[0]] == new[key[0]]);
                    assert(records[records.len() - 1].message.id == records[i].message.id);
                    assert(false);
                }
                lemma_upserted_others(rows, new, key, update, row);
            }
        },
    }
}

/// Whether a row is that of none of the messages that have a thread.
pub open spec fn of_other_messages(
    records: Seq<ChatRecordView>,
    account_id: Seq<char>,
    account_user_id: Seq<char>,
) -> spec_fn(Row) -> bool {
    |row: Row|
        forall|i: int|
            0 <= i < records.len() && thread_key(
                records[i].message,
                account_user_id,
            ) is Some ==> !is_the_message(row, account_id, (#[trigger] records[i]).message.id)
}

proof fn lemma_other_messages(
    records: Seq<ChatRecordView>,
    account_id: Seq<char>,
    account_user_id: Seq<char>,
    server_host: Seq<char>,
    now: int,
    before: Tables,
    after: Tables,
    changed: Seq<nat>,
    m: Matching,
)
    requires
        runs(
            message_upserts(records, account_id, account_user_id, server_host, now),
            before,
            after,
            changed,
            m,
        ),
    ensures
        after[Table::Messages].filter(of_other_messages(records, account_id, account_user_id))
            == before[Table::Messages].filter(
            of_other_messages(records, account_id, account_user_id),
        ),
        forall|t: Table| t != Table::Messages ==> #[trigger] after[t] == before[t],
    decreases records.len(),
{
    if records.len() > 0 {
        let batch = message_upserts(records, account_id, account_user_id, server_host, now);
        let rest = records.drop_last();
        let last = records.last();
        let head = message_upserts(rest, account_id, account_user_id, server_host, now);
        let p = of_other_messages(records, account_id, account_user_id);
        let q = of_other_messages(rest, account_id, account_user_id);
        let counts = thread_key(last.message, account_user_id) is Some;
        let r = |row: Row| counts ==> !is_the_message(row, account_id, last.message.id);
        assert forall|row: Row| #[trigger] p(row) == (q(row) && r(row)) by {
            if p(row) {
                assert(counts ==> !is_the_message(
                    row,
                    account_id,
                    records[records.len() - 1].message.id,
                ));
                assert forall|i: int|
                    0 <= i < rest.len() && thread_key(
                        rest[i].message,
                        account_user_id,
                    ) is Some implies !is_the_message(
                    row,
                    account_id,
                    (#[trigger] rest[i]).message.id,
                ) by {
                    assert(!is_the_message(row, account_id, records[i].message.id));
                }
            }
            if q(row) && r(row) {
                assert forall|i: int|
                    0 <= i < records.len() && thread_key(
                        records[i].message,
                        account_user_id,
                    ) is Some implies !is_the_message(
                    row,
                    account_id,
                    (#[trigger] records[i]).message.id,
                ) by {
                    if i < rest.len() {
                        assert(!is_the_message(row, account_id, rest[i].message.id));
                    }
                }
            }
        }
        match thread_key(last.message, account_user_id) {
            None => {
                lemma_other_messages(
                    rest,
                    account_id,
                    account_user_id,
                    server_host,
                    now,
                    before,
                    after,
                    changed,
                    m,
                );
                lemma_filter_twice(after[Table::Messages], q, r, p);
            },
            Some((thread, kind)) => {
                let middle = choose|middle: Tables|
                    {
                        &&& runs(batch.drop_last(), before, middle, changed.drop_last(), m)
                        &&& #[trigger] batch.last().step(middle, after, changed.last(), m)
                    };
                assert(batch.drop_last() =~= head);
                lemma_other_messages(
                    rest,
                    account_id,
                    account_user_id,
                    server_host,
                    now,
                    before,
                    middle,
                    changed.drop_last(),
                    m,
                );
                let rows = middle[Table::Messages];
                let new = row_of(
                    message_values(last, account_id, server_host, thread, kind, now),
                );
                let key = seq![Column::MessageId, Column::AccountId];
                let update = seq![
                    Column::ThreadId,
                    Column::ThreadKind,
                    Column::FromUserId,
                    Column::CreatedAt,
                    Column::MessageJson,
                    Column::CachedAt,
                ];
                lemma_message_row(last, account_id, server_host, thread, kind, now);
                assert forall|row: Row| #[trigger] agree(row, new, key) implies !p(row) by {
                    assert(row[key[0]] == new[key[0]]);
                    assert(row[key[1]] == new[key[1]]);
                    assert(!r(row));
                }
                lemma_upserted_filter(rows, new, key, update, p);
                lemma_filter_twice(rows, q, r, p);
            },
        }
        lemma_filter_twice(before[Table::Messages], q, r, p);
    }
}

/// Whether two rows are those of one message of one account.
pub open spec fn same_message(a: Row, b: Row) -> bool {
    a[Column::MessageId] == b[Column::MessageId] && a[Column::AccountId] == b[Column::AccountId]
}

/// Whether a row has the server that its message had in `rows`, or, where it was
/// not there, `server_host`.
pub open spec fn keeps_server(row: Row, rows: Seq<Row>, server_host: Seq<char>) -> bool {
    if exists|old_row: Row| #[trigger] rows.contains(old_row) && same_message(old_row, row) {
        exists|old_row: Row|
            {
                &&& #[trigger] rows.contains(old_row)
                &&& same_message(old_row, row)
                &&& row[Column::ServerHost] == old_row[Column::ServerHost]
            }
    } else {
        row[Column::ServerHost] == Cell::Text(server_host)
    }
}

spec fn message_key() -> Seq<Column> {
    seq![Column::MessageId, Column::AccountId]
}

spec fn message_update() -> Seq<Column> {
    seq![
        Column::ThreadId,
        Column::ThreadKind,
        Column::FromUserId,
        Column::CreatedAt,
        Column::MessageJson,
        Column::CachedAt,
    ]
}

/// What stands in a table before and after a row was written by the key of
/// messages: the same rows, of the same messages.
proof fn lemma_written_from(rows: Seq<Row>, new: Row, k: int)
    requires
        0 <= k < upserted(rows, new, message_key(), message_update()).len(),
    ensures
        k < rows.len() ==> {
            let row = upserted(rows, new, message_key(), message_update())[k];
            same_message(rows[k], row) && row[Column::ServerHost] == rows[k][Column::ServerHost]
        },
        k >= rows.len() ==> {
            &&& upserted(rows, new, message_key(), message_update())[k] == new
            &&& !has_key(rows, new, message_key())
        },
{
    if k < rows.len() {
        lemma_overwritten(rows[k], new, message_update(), Column::MessageId);
        lemma_overwritten(rows[k], new, message_update(), Column::AccountId);
        lemma_overwritten(rows[k], new, message_update(), Column::ServerHost);
    }
}

proof fn lemma_messages_stay(
    records: Seq<ChatRecordView>,
    account_id: Seq<char>,
    account_user_id: Seq<char>,
    server_host: Seq<char>,
    now: int,
    before: Tables,
    after: Tables,
    changed: Seq<nat>,
    m: Matching,
)
    requires
        runs(
            message_upserts(records, account_id, account_user_id, server_host, now),
            before,
            after,
            changed,
            m,
        ),
    ensures
        forall|old_row: Row| #[trigger]
            before[Table::Messages].contains(old_row) ==> exists|row: Row| #[trigger]
                after[Table::Messages].contains(row) && same_message(old_row, row),
    decreases records.len(),
{
    let batch = message_upserts(records, account_id, account_user_id, server_host, now);
    if records.len() == 0 {
        assert forall|old_row: Row| #[trigger]
            before[Table::Messages].contains(old_row) implies exists|row: Row| #[trigger]
            after[Table::Messages].contains(row) && same_message(old_row, row) by {
            assert(after[Table::Messages].contains(old_row) && same_message(old_row, old_row));
        }
    } else {
        let rest = records.drop_last();
        let last = records.last();
        let head = message_upserts(rest, account_id, account_user_id, server_host, now);
        match thread_key(last.message, account_user_id) {
            None => {
                lemma_messages_stay(
                    rest,
                    account_id,
                    account_user_id,
                    server_host,
                    now,
                    before,
                    after,
                    changed,
                    m,
                );
            },
            Some((thread, kind)) => {
                let middle = choose|middle: Tables|
                    {
                        &&& runs(batch.drop_last(), before, middle, changed.drop_last(), m)
                        &&& #[trigger] batch.last().step(middle, after, changed.last(), m)
                    };
                assert(batch.drop_last() =~= head);
                lemma_messages_stay(
                    rest,
                    account_id,
                    account_user_id,
                    server_host,
                    now,
                    before,
                    middle,
                    changed.drop_last(),
                    m,
                );
                let rows = middle[Table::Messages];
                let all = after[Table::Messages];
                let new = row_of(
                    message_values(last, account_id, server_host, thread, kind, now),
                );
                assert forall|old_row: Row| #[trigger]
                    before[Table::Messages].contains(old_row) implies exists|row: Row| #[trigger]
                    all.contains(row) && same_message(old_row, row) by {
                    let row = choose|row: Row| #[trigger]
                        rows.contains(row) && same_message(old_row, row);
                    let k = choose|k: int| 0 <= k < rows.len() && rows[k] == row;
                    lemma_written_from(rows, new, k);
                    assert(all.contains(all[k]) && same_message(old_row, all[k]));
                }
            },
        }
    }
}

proof fn lemma_servers(
    records: Seq<ChatRecordView>,
    account_id: Seq<char>,
    account_user_id: Seq<char>,
    server_host: Seq<char>,
    now: int,
    before: Tables,
    after: Tables,
    changed: Seq<nat>,
    row: Row,
    m: Matching,
)
    requires
        runs(
            message_upserts(records, account_id, account_user_id, server_host, now),
            before,
            after,
            changed,
            m,
        ),
        after[Table::Messages].contains(row),
    ensures
        keeps_server(row, before[Table::Messages], server_host),
    decreases records.len(),
{
    let batch = message_upserts(records, account_id, account_user_id, server_host, now);
    let all = after[Table::Messages];
    let old_rows = before[Table::Messages];
    if records.len() == 0 {
        assert(old_rows.contains(row) && same_message(row, row));
    } else {
        let rest = records.drop_last();
        let last = records.last();
        let head = message_upserts(rest, account_id, account_user_id, server_host, now);
        match thread_key(last.message, account_user_id) {
            None => {
                lemma_servers(
                    rest,
                    account_id,
                    account_user_id,
                    server_host,
                    now,
                    before,
                    after,
                    changed,
                    row,
                    m,
                );
            },
            Some((thread, kind)) => {
                let middle = choose|middle: Tables|
                    {
                        &&& runs(batch.drop_last(), before, middle, changed.drop_last(), m)
                        &&& #[trigger] batch.last().step(middle, after, changed.last(), m)
                    };
                assert(batch.drop_last() =~= head);
                let rows = middle[Table::Messages];
                let new = row_of(
                    message_values(last, account_id, server_host, thread, kind, now),
                );
                lemma_message_row(last, account_id, server_host, thread, kind, now);
                let k = choose|k: int| 0 <= k < all.len() && all[k] == row;
                lemma_written_from(rows, new, k);
                if k < rows.len() {
                    let earlier = rows[k];
                    assert(rows.contains(earlier));
                    lemma_servers(
                        rest,
                        account_id,
                        account_user_id,
                        server_host,
                        now,
                        before,
                        middle,
                        changed.drop_last(),
                        earlier,
                        m,
                    );
                    if exists|old_row: Row| #[trigger]
                        old_rows.contains(old_row) && same_message(old_row, row) {
                        let any = choose|old_row: Row| #[trigger]
                            old_rows.contains(old_row) && same_message(old_row, row);
                        assert(old_rows.contains(any) && same_message(any, earlier));
                        let old_row = choose|old_row: Row|
                            {
                                &&& #[trigger] old_rows.contains(old_row)
                                &&& same_message(old_row, earlier)
                                &&& earlier[Column::ServerHost] == old_row[Column::ServerHost]
                            };
                        assert(old_rows.contains(old_row) && same_message(old_row, row));
                    } else {
                        assert forall|old_row: Row| #[trigger]
                            old_rows.contains(old_row) implies !same_message(old_row, earlier) by {
                            assert(!same_message(old_row, row));
                        }
                    }
                } else {
                    lemma_messages_stay(
                        rest,
                        account_id,
                        account_user_id,
                        server_host,
                        now,
                        before,
                        middle,
                        changed.drop_last(),
                        m,
                    );
                    assert forall|old_row: Row| #[trigger]
                        old_rows.contains(old_row) implies !same_message(old_row, row) by {
                        let other = choose|other: Row| #[trigger]
                            rows.contains(other) && same_message(old_row, other);
                        let i = choose|i: int| 0 <= i < rows.len() && rows[i] == other;
                        if same_message(old_row, row) {
                            assert(agree(rows[i], new, message_key()));
                        }
                    }
                }
            },
        }
    }
}

/// When messages were cached together, each that has a thread is there. Of
/// several with one id the last that has a thread counts. A row that was there
/// keeps its server, and a new one has that of the call.
pub proof fn all_cached_messages_are_there(
    records: Seq<ChatRecordView>,
    account_id: Seq<char>,
    account_user_id: Seq<char>,
    server_host: Seq<char>,
    now: int,
    before: Tables,
    after: Tables,
    changed: Seq<nat>,
    i: int,
    m: Matching,
)
    requires
        runs(
            message_upserts(records, account_id, account_user_id, server_host, now),
            before,
            after,
            changed,
            m,
        ),
        0 <= i < records.len(),
        thread_key(records[i].message, account_user_id) is Some,
        forall|j: int|
            i < j < records.len() && thread_key(records[j].message, account_user_id) is Some ==> (
            #[trigger] records[j]).message.id != records[i].message.id,
    ensures
        exists|row: Row| #[trigger]
            after[Table::Messages].contains(row) && holds_message(
                row,
                records[i],
                account_id,
                account_user_id,
                now,
            ) && keeps_server(row, before[Table::Messages], server_host),
{
    lemma_messages_are_there(
        records,
        account_id,
        account_user_id,
        server_host,
        now,
        before,
        after,
        changed,
        i,
        m,
    );
    let row = choose|row: Row| #[trigger]
        after[Table::Messages].contains(row) && holds_message(
            row,
            records[i],
            account_id,
            account_user_id,
            now,
        );
    lemma_servers(
        records,
        account_id,
        account_user_id,
        server_host,
        now,
        before,
        after,
        changed,
        row,
        m,
    );
}

/// Messages are cached all or none. Where caching fails, the tables are as they
/// were. Where it succeeds, as many rows are written as there are messages with
/// a thread, and each of these has one row for the account, which holds it as it
/// was cached; of several with one id the last that has a thread counts. A row
/// that was there keeps its server, and a new one has that of the call. All other
/// rows are as they were, in their order, those of other accounts with the same
/// ids among them, and so are the other tables.
pub proof fn messages_are_cached_all_or_none(
    records: Seq<ChatRecordView>,
    account_id: Seq<char>,
    account_user_id: Seq<char>,
    server_host: Seq<char>,
    now: int,
    outcome: Result<Seq<nat>, DatabaseErrorView>,
    before: Tables,
    after: Tables,
    m: Matching,
)
    requires
        keyed(before),
        transacted(
            message_upserts(records, account_id, account_user_id, server_host, now),
            outcome,
            before,
            after,
            m,
        ),
    ensures
        outcome is Err ==> after == before,
        outcome matches Ok(changed) ==> {
            &&& changed.len() == records.filter(
                |r: ChatRecordView| r.message.to_room_id is Some || r.message.to_user_id is Some,
            ).len()
            &&& after[Table::Messages].filter(
                of_other_messages(records, account_id, account_user_id),
            ) == before[Table::Messages].filter(
                of_other_messages(records, account_id, account_user_id),
            )
            &&& forall|t: Table| t != Table::Messages ==> #[trigger] after[t] == before[t]
            &&& forall|i: int|
                0 <= i < records.len() && thread_key(records[i].message, account_user_id) is Some
                    && (forall|j: int|
                    i < j < records.len() && thread_key(
                        records[j].message,
                        account_user_id,
                    ) is Some ==> (#[trigger] records[j]).message.id != records[i].message.id)
                    ==> {
                    &&& exists|row: Row| #[trigger]
                        after[Table::Messages].contains(row) && holds_message(
                            row,
                            #[trigger] records[i],
                            account_id,
                            account_user_id,
                            now,
                        ) && keeps_server(row, before[Table::Messages], server_host)
                    &&& after[Table::Messages].filter(
                        |row: Row| is_the_message(row, account_id, records[i].message.id),
                    ).len() == 1
                }
        },
{
    if let Ok(changed) = outcome {
        let batch = message_upserts(records, account_id, account_user_id, server_host, now);
        let all = after[Table::Messages];
        let key = key_of(Table::Messages);
        as_many_rows_as_messages_with_a_thread(
            records,
            account_id,
            account_user_id,
            server_host,
            now,
        );
        lemma_other_messages(
            records,
            account_id,
            account_user_id,
            server_host,
            now,
            before,
            after,
            changed,
            m,
        );
        messages_respect_keys(
            records,
            account_id,
            account_user_id,
            server_host,
            now,
            Seq::empty(),
            Seq::empty(),
        );
        runs_keep_keys(batch, before, after, changed, m);
        assert(distinct(all, key));
        assert forall|i: int|
            0 <= i < records.len() && thread_key(records[i].message, account_user_id) is Some && (
            forall|j: int|
                i < j < records.len() && thread_key(records[j].message, account_user_id) is Some
                    ==> (#[trigger] records[j]).message.id != records[i].message.id) implies {
            &&& exists|row: Row| #[trigger]
                all.contains(row) && holds_message(
                    row,
                    #[trigger] records[i],
                    account_id,
                    account_user_id,
                    now,
                ) && keeps_server(row, before[Table::Messages], server_host)
            &&& all.filter(
                |row: Row| is_the_message(row, account_id, records[i].message.id),
            ).len() == 1
        } by {
            all_cached_messages_are_there(
                records,
                account_id,
                account_user_id,
                server_host,
                now,
                before,
                after,
                changed,
                i,
                m,
            );
            let row = choose|row: Row| #[trigger]
                all.contains(row) && holds_message(
                    row,
                    records[i],
                    account_id,
                    account_user_id,
                    now,
                ) && keeps_server(row, before[Table::Messages], server_host);
            let at = choose|k: int| 0 <= k < all.len() && all[k] == row;
            let p = |row: Row| is_the_message(row, account_id, records[i].message.id);
            assert forall|k: int| 0 <= k < all.len() implies (p(#[trigger] all[k]) <==> k
                == at) by {
                if p(all[k]) {
                    assert(agree(all[k], all[at], key));
                    assert(agree(all[at], all[at], key));
                    lemma_one_per_key(all, row, key, k, at);
                }
            }
            lemma_filter_one(all, p, at);
        }
    }
}

/// No messages are written as no rows.
pub proof fn no_messages_write_no_rows(
    account_id: Seq<char>,
    account_user_id: Seq<char>,
    server_host: Seq<char>,
    now: int,
)
    ensures
        message_upserts(Seq::empty(), account_id, account_user_id, server_host, now).len() == 0,
{
}

/// The statistics give the number of messages of all accounts, and the bytes of
/// the pages that hold them. Without messages both are none, though the table
/// has a page.
pub proof fn the_statistics_count_messages_and_bytes(
    tables: Tables,
    pages: Pages,
    count: Seq<Seq<Cell>>,
    size: Seq<Seq<Cell>>,
    m: Matching,
)
    requires
        (QueryView::Count { table: Table::Messages, filter: Seq::empty() }).answered(
            tables,
            count,
            m,
        ),
        size_answered(Table::Messages, pages, size),
        tables[Table::Messages].len() <= i64::MAX,
        total_size(pages[Table::Messages]) <= i64::MAX,
    ensures
        (QueryView::Size { table: Table::Messages }).answered(tables, size, m),
        chat_stats(complete(count).one::<i64>(), Ok(complete(size))) == Ok::<
            (i64, i64),
            DatabaseErrorView,
        >(
            (
                tables[Table::Messages].len() as i64,
                if tables[Table::Messages].len() == 0 {
                    0
                } else {
                    total_size(pages[Table::Messages]) as i64
                },
            ),
        ),
{
    lemma_select_all(tables[Table::Messages], m);
    assert(count[0][0] == Cell::Integer(tables[Table::Messages].len() as int));
    assert(size[0][0] == Cell::Integer(total_size(pages[Table::Messages]) as int));
}

/// The messages of a thread come newest first, and no more than were asked for.
/// With a time, all of them are older than it. Where there is room no such message
/// is missing, and where there is not, none that is missing is newer than one that
/// is there.
pub proof fn a_thread_is_newest_first(
    account_id: Seq<char>,
    thread_id: Seq<char>,
    before: Option<Seq<char>>,
    limit: int,
    tables: Tables,
    answer: Seq<Seq<Cell>>,
    m: Matching,
) -> (s: Seq<Row>)
    requires
        thread_query(account_id, thread_id, before, limit).answered(tables, answer, m),
    ensures
        answer == projections(s, seq![Column::MessageJson]),
        forall|i: int|
            0 <= i < s.len() ==> tables[Table::Messages].contains(#[trigger] s[i]) && is_in_thread(
                s[i],
                account_id,
                thread_id,
            ) && (before matches Some(at) ==> less(s[i][Column::CreatedAt], Cell::Text(at))),
        ordered(s, Order::Descending(Column::CreatedAt)),
        limit >= 0 ==> s.len() <= limit,
        limit < 0 || s.len() < limit ==> forall|row: Row|
            tables[Table::Messages].contains(row) && is_in_thread(row, account_id, thread_id) && (
            before matches Some(at) ==> less(row[Column::CreatedAt], Cell::Text(at)))
                ==> #[trigger] s.contains(row),
        forall|row: Row|
            tables[Table::Messages].contains(row) && is_in_thread(row, account_id, thread_id) && (
            before matches Some(at) ==> less(row[Column::CreatedAt], Cell::Text(at)))
                && !#[trigger] s.contains(row) ==> not_ahead(
                row,
                s,
                Order::Descending(Column::CreatedAt),
            ),
{
    let filter = thread_query(account_id, thread_id, before, limit)->Select_filter;
    let s = lemma_answer_rows(
        Table::Messages,
        seq![Column::MessageJson],
        filter,
        Order::Descending(Column::CreatedAt),
        Some(limit),
        tables,
        answer,
        m,
    );
    assert forall|row: Row| #[trigger] meets(row, filter, m) <==> is_in_thread(
        row,
        account_id,
        thread_id,
    ) && (before matches Some(at) ==> less(row[Column::CreatedAt], Cell::Text(at))) by {
        lemma_in_thread(row, account_id, thread_id, m);
        if before is Some {
            let whole = in_thread(account_id, thread_id);
            assert(filter.drop_last() =~= whole);
            if meets(row, filter, m) {
                assert(filter[2].holds(row, m));
                assert forall|i: int| 0 <= i < whole.len() implies (#[trigger] whole[i]).holds(
                    row,
                    m,
                ) by {
                    assert(filter[i].holds(row, m));
                }
            }
        }
    }
    s
}

/// The id of the newest message of a thread is that of a message than which no
/// message of the thread is newer. A thread without messages has none.
pub proof fn the_latest_message_is_the_newest(
    account_id: Seq<char>,
    thread_id: Seq<char>,
    tables: Tables,
    answer: Seq<Seq<Cell>>,
    m: Matching,
)
    requires
        message_query(
            Column::MessageId,
            in_thread(account_id, thread_id),
            Order::Descending(Column::CreatedAt),
            Some(1),
        ).answered(tables, answer, m),
    ensures
        answer.len() == 0 ==> forall|row: Row| #[trigger]
            tables[Table::Messages].contains(row) ==> !is_in_thread(row, account_id, thread_id),
        answer.len() > 0 ==> answer.len() == 1 && exists|row: Row|
            {
                &&& #[trigger] tables[Table::Messages].contains(row)
                &&& is_in_thread(row, account_id, thread_id)
                &&& answer[0] == seq![row[Column::MessageId]]
                &&& forall|other: Row| #[trigger]
                    tables[Table::Messages].contains(other) && is_in_thread(
                        other,
                        account_id,
                        thread_id,
                    ) ==> !less(row[Column::CreatedAt], other[Column::CreatedAt])
            },
{
    let table = tables[Table::Messages];
    let filter = in_thread(account_id, thread_id);
    let columns = seq![Column::MessageId];
    let rows = selected(table, filter, m);
    let p = |row: Row| meets(row, filter, m);
    let s = choose|s: Seq<Row>|
        {
            &&& #[trigger] arranged(rows, Order::Descending(Column::CreatedAt), s)
            &&& answer == projections(s.take(limited(Some(1), s.len()) as int), columns)
        };
    lemma_arranged(rows, Order::Descending(Column::CreatedAt), s);
    assert forall|row: Row| table.contains(row) && is_in_thread(
        row,
        account_id,
        thread_id,
    ) implies #[trigger] s.contains(row) by {
        lemma_in_thread(row, account_id, thread_id, m);
        let k = choose|k: int| 0 <= k < table.len() && table[k] == row;
        lemma_filter_keeps(table, p, k);
        let i = choose|i: int| 0 <= i < rows.len() && rows[i] == row;
        assert(rows.contains(row));
    }
    if answer.len() == 0 {
        assert(s.len() == 0);
        assert forall|row: Row| #[trigger] table.contains(row) implies !is_in_thread(
            row,
            account_id,
            thread_id,
        ) by {
            if is_in_thread(row, account_id, thread_id) {
                assert(s.contains(row));
            }
        }
    } else {
        let row = s[0];
        assert(s.contains(row));
        assert(rows.contains(row));
        let k = choose|k: int| 0 <= k < rows.len() && rows[k] == row;
        lemma_filter_from(table, p, k);
        lemma_in_thread(row, account_id, thread_id, m);
        assert(table.contains(row));
        assert(answer[0] == projected(row, columns));
        assert(projected(row, columns) =~= seq![row[Column::MessageId]]);
        assert forall|other: Row| #[trigger] table.contains(other) && is_in_thread(
            other,
            account_id,
            thread_id,
        ) implies !less(row[Column::CreatedAt], other[Column::CreatedAt]) by {
            assert(s.contains(other));
            let j = choose|j: int| 0 <= j < s.len() && s[j] == other;
            if j > 0 {
                assert(!less(s[0][Column::CreatedAt], s[j][Column::CreatedAt]));
            } else {
                lemma_less_irreflexive(row[Column::CreatedAt]);
            }
        }
    }
}

proof fn lemma_text_less_irreflexive(s: Seq<char>)
    ensures
        !text_less(s, s),
    decreases s.len(),
{
    if s.len() > 0 {
        lemma_text_less_irreflexive(s.drop_first());
    }
}

proof fn lemma_less_irreflexive(c: Cell)
    ensures
        !less(c, c),
{
    if let Cell::Text(s) = c {
        lemma_text_less_irreflexive(s);
    }
}

/// Storing a message's JSON anew changes that column of that message and
/// nothing else, and reports a row if and only if the message is there.
pub proof fn rewriting_a_message_touches_it_alone(
    account_id: Seq<char>,
    message_id: Seq<char>,
    json: Seq<char>,
    before: Tables,
    after: Tables,
    changed: nat,
    m: Matching,
)
    requires
        message_rewrite(account_id, message_id, json).step(before, after, changed, m),
    ensures
        after[Table::Messages].len() == before[Table::Messages].len(),
        forall|i: int|
            0 <= i < after[Table::Messages].len() ==> #[trigger] after[Table::Messages][i] == (
            if is_the_message(before[Table::Messages][i], account_id, message_id) {
                before[Table::Messages][i].insert(Column::MessageJson, Cell::Text(json))
            } else {
                before[Table::Messages][i]
            }),
        changed > 0 <==> exists|i: int|
            0 <= i < before[Table::Messages].len() && is_the_message(
                #[trigger] before[Table::Messages][i],
                account_id,
                message_id,
            ),
        forall|t: Table| t != Table::Messages ==> #[trigger] after[t] == before[t],
{
    let rows = before[Table::Messages];
    let filter = is_message(account_id, message_id);
    assert forall|row: Row| #[trigger] meets(row, filter, m) <==> is_the_message(
        row,
        account_id,
        message_id,
    ) by {
        lemma_is_message(row, account_id, message_id, m);
    }
    lemma_any_selected(rows, filter, m);
    if changed > 0 {
        let i = choose|i: int| 0 <= i < rows.len() && meets(#[trigger] rows[i], filter, m);
        assert(is_the_message(rows[i], account_id, message_id));
    }
    if exists|i: int|
        0 <= i < rows.len() && is_the_message(#[trigger] rows[i], account_id, message_id) {
        let i = choose|i: int|
            0 <= i < rows.len() && is_the_message(#[trigger] rows[i], account_id, message_id);
        assert(meets(rows[i], filter, m));
    }
}

/// A reaction that is applied is stored: once the JSON of the changed message
/// is stored, the message reads as the changed one, and a row is reported.
pub proof fn an_applied_reaction_is_stored(
    account_id: Seq<char>,
    message_id: Seq<char>,
    at: int,
    message: ChatMessageView,
    reactor: ChatReactionUserView,
    reaction: Seq<char>,
    is_react: bool,
    read: spec_fn(Seq<char>) -> Option<ChatMessageView>,
    write: spec_fn(ChatMessageView) -> Seq<char>,
    before: Tables,
    after: Tables,
    changed: nat,
    m: Matching,
)
    requires
        0 <= at < before[Table::Messages].len(),
        is_the_message(before[Table::Messages][at], account_id, message_id),
        before[Table::Messages][at][Column::MessageJson] matches Cell::Text(json) && read(json)
            == Some(message),
        reacted(message, reactor, reaction, is_react) is Some,
        forall|x: ChatMessageView| read(#[trigger] write(x)) == Some(x),
        message_rewrite(
            account_id,
            message_id,
            write(reacted(message, reactor, reaction, is_react)->0),
        ).step(before, after, changed, m),
    ensures
        changed > 0,
        after[Table::Messages][at][Column::MessageJson] matches Cell::Text(json) && read(json)
            == reacted(message, reactor, reaction, is_react),
{
    rewriting_a_message_touches_it_alone(
        account_id,
        message_id,
        write(reacted(message, reactor, reaction, is_react)->0),
        before,
        after,
        changed,
        m,
    );
}

/// A reaction is stored all or not at all. Where storing it fails, the tables
/// are as they were. Where it succeeds, the JSON of the message is the new one,
/// and nothing else has changed.
pub proof fn a_reaction_is_stored_all_or_not_at_all(
    account_id: Seq<char>,
    message_id: Seq<char>,
    json: Seq<char>,
    outcome: Result<Seq<nat>, DatabaseErrorView>,
    before: Tables,
    after: Tables,
    m: Matching,
)
    requires
        transacted(
            seq![message_rewrite(account_id, message_id, json)],
            outcome,
            before,
            after,
            m,
        ),
    ensures
        outcome is Err ==> after == before,
        outcome is Ok ==> {
            &&& after[Table::Messages].len() == before[Table::Messages].len()
            &&& forall|i: int|
                0 <= i < after[Table::Messages].len() ==> #[trigger] after[Table::Messages][i] == (
                if is_the_message(before[Table::Messages][i], account_id, message_id) {
                    before[Table::Messages][i].insert(Column::MessageJson, Cell::Text(json))
                } else {
                    before[Table::Messages][i]
                })
            &&& forall|t: Table| t != Table::Messages ==> #[trigger] after[t] == before[t]
        },
{
    if let Ok(changed) = outcome {
        let statement = message_rewrite(account_id, message_id, json);
        lemma_runs_one(statement, before, after, changed, m);
        rewriting_a_message_touches_it_alone(
            account_id,
            message_id,
            json,
            before,
            after,
            changed[0],
            m,
        );
    }
}

proof fn lemma_any_selected(rows: Seq<Row>, filter: Seq<ConditionView>, m: Matching)
    ensures
        selected(rows, filter, m).len() > 0 <==> exists|i: int|
            0 <= i < rows.len() && meets(#[trigger] rows[i], filter, m),
{
    let p = |row: Row| meets(row, filter, m);
    if selected(rows, filter, m).len() > 0 {
        lemma_filter_from(rows, p, 0);
        let k = choose|k: int| 0 <= k < rows.len() && rows[k] == rows.filter(p)[0];
        assert(meets(rows[k], filter, m));
    }
    if exists|i: int| 0 <= i < rows.len() && meets(#[trigger] rows[i], filter, m) {
        let i = choose|i: int| 0 <= i < rows.len() && meets(#[trigger] rows[i], filter, m);
        lemma_filter_keeps(rows, p, i);
    }
}

/// Deleting a message deletes it for the account alone, and reports a row if
/// and only if the message was there.
pub proof fn deleting_a_message_deletes_it_alone(
    account_id: Seq<char>,
    message_id: Seq<char>,
    before: Tables,
    after: Tables,
    changed: nat,
    m: Matching,
)
    requires
        (StatementView::Delete {
            table: Table::Messages,
            filter: is_message(account_id, message_id),
        }).step(before, after, changed, m),
    ensures
        after[Table::Messages] == before[Table::Messages].filter(
            |row: Row| !is_the_message(row, account_id, message_id),
        ),
        changed > 0 <==> exists|i: int|
            0 <= i < before[Table::Messages].len() && is_the_message(
                #[trigger] before[Table::Messages][i],
                account_id,
                message_id,
            ),
        forall|t: Table| t != Table::Messages ==> #[trigger] after[t] == before[t],
{
    let rows = before[Table::Messages];
    let filter = is_message(account_id, message_id);
    assert forall|row: Row| #[trigger] meets(row, filter, m) <==> is_the_message(
        row,
        account_id,
        message_id,
    ) by {
        lemma_is_message(row, account_id, message_id, m);
    }
    lemma_filter_same(
        rows,
        |row: Row| !meets(row, filter, m),
        |row: Row| !is_the_message(row, account_id, message_id),
    );
    lemma_any_selected(rows, filter, m);
    if changed > 0 {
        let i = choose|i: int| 0 <= i < rows.len() && meets(#[trigger] rows[i], filter, m);
        assert(is_the_message(rows[i], account_id, message_id));
    }
    if exists|i: int|
        0 <= i < rows.len() && is_the_message(#[trigger] rows[i], account_id, message_id) {
        let i = choose|i: int|
            0 <= i < rows.len() && is_the_message(#[trigger] rows[i], account_id, message_id);
        assert(meets(rows[i], filter, m));
    }
}

/// Whether a row is a message of the thread of `row` in an account, than which
/// none of the thread is newer.
pub open spec fn is_newest_of_thread(
    newest: Row,
    row: Row,
    account_id: Seq<char>,
    table: Seq<Row>,
) -> bool {
    &&& newest[Column::AccountId] == Cell::Text(account_id)
    &&& newest[Column::ThreadId] == row[Column::ThreadId]
    &&& forall|other: Row| #[trigger]
        table.contains(other) && other[Column::AccountId] == Cell::Text(account_id)
            && other[Column::ThreadId] == row[Column::ThreadId] ==> !less(
            newest[Column::CreatedAt],
            other[Column::CreatedAt],
        )
}

/// The history holds one message for each thread, than which none of the
/// thread is newer, newest first and no more than were asked for. Where there is
/// room, no thread is missing, and where there is not, a thread that is missing
/// has a newest message that is not newer than one of the history.
pub proof fn the_history_is_one_message_for_each_thread(
    account_id: Seq<char>,
    limit: int,
    tables: Tables,
    answer: Seq<Seq<Cell>>,
    m: Matching,
) -> (s: Seq<Row>)
    requires
        history_query(account_id, limit).answered(tables, answer, m),
        keyed(tables),
    ensures
        answer == projections(s, seq![Column::MessageJson]),
        forall|i: int|
            0 <= i < s.len() ==> tables[Table::Messages].contains(#[trigger] s[i])
                && s[i][Column::AccountId] == Cell::Text(account_id),
        forall|i: int, j: int|
            0 <= i < j < s.len() ==> (#[trigger] s[i])[Column::ThreadId] != (
            #[trigger] s[j])[Column::ThreadId],
        forall|i: int, row: Row|
            #![trigger s[i], tables[Table::Messages].contains(row)]
            0 <= i < s.len() && tables[Table::Messages].contains(row) && row[Column::AccountId]
                == Cell::Text(account_id) && row[Column::ThreadId] == s[i][Column::ThreadId]
                ==> !less(s[i][Column::CreatedAt], row[Column::CreatedAt]),
        ordered(s, Order::Descending(Column::CreatedAt)),
        limit >= 0 ==> s.len() <= limit,
        limit < 0 || s.len() < limit ==> forall|row: Row| #[trigger]
            tables[Table::Messages].contains(row) && row[Column::AccountId] == Cell::Text(
                account_id,
            ) ==> exists|i: int|
                0 <= i < s.len() && (#[trigger] s[i])[Column::ThreadId] == row[Column::ThreadId],
        forall|row: Row| #[trigger]
            tables[Table::Messages].contains(row) && row[Column::AccountId] == Cell::Text(
                account_id,
            ) && (forall|i: int|
                0 <= i < s.len() ==> (#[trigger] s[i])[Column::ThreadId] != row[Column::ThreadId])
                ==> exists|newest: Row|
                {
                    &&& tables[Table::Messages].contains(newest)
                    &&& is_newest_of_thread(newest, row, account_id, tables[Table::Messages])
                    &&& #[trigger] not_ahead(newest, s, Order::Descending(Column::CreatedAt))
                },
{
    let table = tables[Table::Messages];
    let filter = seq![is_text(Column::AccountId, account_id)];
    let columns = seq![Column::MessageJson];
    let p = |row: Row| meets(row, filter, m);
    let rows = selected(table, filter, m);
    let order = Order::Descending(Column::CreatedAt);
    let (rn, all) = choose|rn: Seq<int>, s: Seq<Row>|
        {
            &&& #[trigger] numbering(rows, Column::ThreadId, Column::CreatedAt, rn)
            &&& #[trigger] arranged(within(rows, rn, 1), order, s)
            &&& answer == projections(s.take(limited(Some(limit), s.len()) as int), columns)
        };
    let newest = within(rows, rn, 1);
    let at = kept_places(rn, 1);
    lemma_kept_places(rows, rn, 1);
    lemma_arranged(newest, order, all);
    let n = limited(Some(limit), all.len()) as int;
    let s = all.take(n);
    // Every row of the account is among the numbered ones.
    assert forall|row: Row| #[trigger] table.contains(row) && row[Column::AccountId] == Cell::Text(
        account_id,
    ) implies rows.contains(row) by {
        lemma_meets_text(row, Column::AccountId, account_id, m);
        let k = choose|k: int| 0 <= k < table.len() && table[k] == row;
        lemma_filter_keeps(table, p, k);
        let i = choose|i: int| 0 <= i < rows.len() && rows[i] == row;
        assert(rows.contains(rows[i]));
    }
    // Where the rows of the history stand among the numbered ones.
    assert forall|i: int| 0 <= i < all.len() implies exists|k: int|
        0 <= k < rows.len() && rows[k] == (#[trigger] all[i]) && rn[k] == 1 by {
        assert(all.contains(all[i]));
        assert(newest.contains(all[i]));
        let q = choose|q: int| 0 <= q < newest.len() && newest[q] == all[i];
        assert(rn[at[q]] <= 1);
        assert(1 <= rn[at[q]]);
        assert(rows[at[q]] == all[i]);
    }
    assert forall|i: int| 0 <= i < s.len() implies table.contains(#[trigger] s[i])
        && s[i][Column::AccountId] == Cell::Text(account_id) by {
        let k = choose|k: int| 0 <= k < rows.len() && rows[k] == all[i] && rn[k] == 1;
        lemma_filter_from(table, p, k);
        lemma_meets_text(s[i], Column::AccountId, account_id, m);
    }
    // The rows differ, so two of one thread would have one number.
    lemma_all_differ(table, filter, rn, all, m);
    assert forall|i: int, j: int| 0 <= i < j < s.len() implies (#[trigger] s[i])[Column::ThreadId]
        != (#[trigger] s[j])[Column::ThreadId] by {
        let a = choose|k: int| 0 <= k < rows.len() && rows[k] == all[i] && rn[k] == 1;
        let b = choose|k: int| 0 <= k < rows.len() && rows[k] == all[j] && rn[k] == 1;
        assert(all[i] != all[j]);
        if rows[a][Column::ThreadId] == rows[b][Column::ThreadId] {
            assert(rn[a] != rn[b]);
        }
    }
    assert forall|i: int, row: Row|
        #![trigger s[i], table.contains(row)]
        0 <= i < s.len() && table.contains(row) && row[Column::AccountId] == Cell::Text(account_id)
            && row[Column::ThreadId] == s[i][Column::ThreadId] implies !less(
        s[i][Column::CreatedAt],
        row[Column::CreatedAt],
    ) by {
        let a = choose|k: int| 0 <= k < rows.len() && rows[k] == all[i] && rn[k] == 1;
        assert(rows.contains(row));
        let b = choose|k: int| 0 <= k < rows.len() && rows[k] == row;
        if less(rows[a][Column::CreatedAt], rows[b][Column::CreatedAt]) {
            assert(rn[b] < rn[a]);
        }
    }
    // Every thread has its row, in the history or beyond its end.
    assert forall|row: Row| #[trigger]
        table.contains(row) && row[Column::AccountId] == Cell::Text(account_id) implies exists|
        i: int,
    |
        0 <= i < all.len() && (#[trigger] all[i])[Column::ThreadId] == row[Column::ThreadId] by {
        let thread = row[Column::ThreadId];
        assert(rows.contains(row));
        let b = choose|k: int| 0 <= k < rows.len() && rows[k] == row;
        lemma_filter_keeps(rows, in_group(Column::ThreadId, thread), b);
        lemma_group_within(rows, Column::ThreadId, Column::CreatedAt, rn, 1, thread);
        lemma_filter_from(newest, in_group(Column::ThreadId, thread), 0);
        let q = choose|q: int|
            0 <= q < newest.len() && newest[q] == group_of(newest, Column::ThreadId, thread)[0];
        assert(newest.contains(newest[q]));
        assert(all.contains(newest[q]));
        let i = choose|i: int| 0 <= i < all.len() && all[i] == newest[q];
        assert(all[i][Column::ThreadId] == thread);
    }
    if limit < 0 || s.len() < limit {
        assert(s =~= all);
    }
    assert forall|row: Row| #[trigger]
        table.contains(row) && row[Column::AccountId] == Cell::Text(account_id) && (forall|i: int|
            0 <= i < s.len() ==> (#[trigger] s[i])[Column::ThreadId] != row[Column::ThreadId])
        implies exists|newest: Row|
        {
            &&& table.contains(newest)
            &&& is_newest_of_thread(newest, row, account_id, table)
            &&& #[trigger] not_ahead(newest, s, order)
        } by {
        let j = choose|j: int|
            0 <= j < all.len() && (#[trigger] all[j])[Column::ThreadId] == row[Column::ThreadId];
        if j < n {
            assert(s[j][Column::ThreadId] == row[Column::ThreadId]);
        }
        let top = all[j];
        let a = choose|k: int| 0 <= k < rows.len() && rows[k] == all[j] && rn[k] == 1;
        lemma_filter_from(table, p, a);
        lemma_meets_text(top, Column::AccountId, account_id, m);
        assert(table.contains(top));
        assert forall|other: Row| #[trigger]
            table.contains(other) && other[Column::AccountId] == Cell::Text(account_id)
                && other[Column::ThreadId] == row[Column::ThreadId] implies !less(
            top[Column::CreatedAt],
            other[Column::CreatedAt],
        ) by {
            assert(rows.contains(other));
            let b = choose|k: int| 0 <= k < rows.len() && rows[k] == other;
            if less(rows[a][Column::CreatedAt], rows[b][Column::CreatedAt]) {
                assert(rn[b] < rn[a]);
            }
        }
        assert forall|i: int| 0 <= i < s.len() implies s[i] == #[trigger] all[i] && i < j by {}
        assert(not_ahead(top, s, order));
    }
    s
}

proof fn lemma_all_differ(
    table: Seq<Row>,
    filter: Seq<ConditionView>,
    rn: Seq<int>,
    all: Seq<Row>,
    m: Matching,
)
    requires
        distinct(table, key_of(Table::Messages)),
        rn.len() == selected(table, filter, m).len(),
        all.to_multiset() == within(selected(table, filter, m), rn, 1).to_multiset(),
    ensures
        forall|i: int, j: int| 0 <= i < j < all.len() ==> #[trigger] all[i] != #[trigger] all[j],
{
    let key = key_of(Table::Messages);
    let rows = selected(table, filter, m);
    let newest = within(rows, rn, 1);
    lemma_filter_distinct(table, |row: Row| meets(row, filter, m), key);
    lemma_kept_places(rows, rn, 1);
    let at = kept_places(rn, 1);
    assert(newest.no_duplicates()) by {
        assert forall|i: int, j: int| 0 <= i < newest.len() && 0 <= j < newest.len() && i
            != j implies newest[i] != newest[j] by {
            let a = at[i];
            let b = at[j];
            if a < b {
                assert(!agree(rows[a], rows[b], key));
            } else {
                assert(b < a) by {
                    if i < j {
                        assert(at[i] < at[j]);
                    } else {
                        assert(at[j] < at[i]);
                    }
                }
                assert(!agree(rows[b], rows[a], key));
            }
        }
    }
    newest.lemma_multiset_has_no_duplicates();
    all.lemma_multiset_has_no_duplicates_conv();
}

} // verus!
