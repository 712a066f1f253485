//! One row for each key: one account for each user of a host, one note and one
//! message for each account, one detection for each host, one summary for each
//! page. No operation ever leaves two.
use vstd::prelude::*;
use crate::accounts::{account_deletion, account_upsert, token_clearing};
use crate::chat::ChatRecordView;
use crate::database::Transaction;
use crate::error::DatabaseErrorView;
use crate::eviction::eviction;
use crate::laws::rows::{lemma_filter_distinct, lemma_upserted_distinct};
use crate::lifecycle::token_stripping;
use crate::messages::{message_rewrite, message_upserts};
use crate::notes::note_upsert;
use crate::records::{AccountView, NoteRecordView, ServerDetectionView, SummaryRowView};
use crate::servers::detection_upsert;
use crate::sql::StatementView;
use crate::summaries::summary_upsert;
use crate::tables::{
    agree, distinct, key_of, keyed, meets, numbering, row_of, runs, updated, within, Matching, Row,
    Tables,
};
use crate::value::{Column, Table};

verus! {

/// Whether a statement goes by its table's key: it writes rows by it and
/// overwrites none of its columns.
pub open spec fn respects_key(statement: StatementView) -> bool {
    match statement {
        StatementView::Upsert { table, key, update, .. } => {
            &&& key == key_of(table)
            &&& forall|i: int| 0 <= i < key.len() ==> !update.contains(#[trigger] key[i])
        },
        StatementView::Update { table, change, .. } => !key_of(table).contains(change.column),
        StatementView::Delete { .. } => true,
        StatementView::DeleteBeyond { .. } => true,
    }
}

proof fn lemma_within_distinct(rows: Seq<Row>, rn: Seq<int>, keep: int, key: Seq<Column>)
    requires
        distinct(rows, key),
        rn.len() == rows.len(),
    ensures
        distinct(within(rows, rn, keep), key),
        forall|i: int|
            0 <= i < within(rows, rn, keep).len() ==> rows.contains(
                #[trigger] within(rows, rn, keep)[i],
            ),
    decreases rows.len(),
{
    if rows.len() > 0 {
        let rest = rows.drop_last();
        let head = within(rest, rn.drop_last(), keep);
        assert forall|i: int, j: int| 0 <= i < j < rest.len() implies !agree(
            #[trigger] rest[i],
            #[trigger] rest[j],
            key,
        ) by {
            assert(!agree(rows[i], rows[j], key));
        }
        lemma_within_distinct(rest, rn.drop_last(), keep, key);
        let all = within(rows, rn, keep);
        assert forall|i: int| 0 <= i < all.len() implies rows.contains(#[trigger] all[i]) by {
            if i < head.len() {
                assert(rest.contains(head[i]));
                let k = choose|k: int| 0 <= k < rest.len() && rest[k] == head[i];
                assert(rows[k] == all[i]);
            } else {
                assert(rows[rows.len() - 1] == all[i]);
            }
        }
        assert forall|i: int, j: int| 0 <= i < j < all.len() implies !agree(
            #[trigger] all[i],
            #[trigger] all[j],
            key,
        ) by {
            if j < head.len() {
                assert(!agree(head[i], head[j], key));
            } else {
                assert(rest.contains(head[i]));
                let k = choose|k: int| 0 <= k < rest.len() && rest[k] == head[i];
                assert(!agree(rows[k], rows[rows.len() - 1], key));
            }
        }
    }
}

/// Tables without rows have one row for each key at most.
pub proof fn empty_tables_have_no_key_twice(tables: Tables)
    requires
        forall|table: Table| #[trigger] tables[table] == Seq::<Row>::empty(),
    ensures
        keyed(tables),
{
}

/// A statement that goes by the keys leaves one row for each key.
pub proof fn a_step_keeps_keys(
    statement: StatementView,
    before: Tables,
    after: Tables,
    changed: nat,
    m: Matching,
)
    requires
        keyed(before),
        respects_key(statement),
        statement.step(before, after, changed, m),
    ensures
        keyed(after),
{
    let table = statement.table();
    let key = key_of(table);
    let rows = before[table];
    assert(distinct(rows, key));
    match statement {
        StatementView::Upsert { values, update, .. } => {
            lemma_upserted_distinct(rows, row_of(values), key, update);
        },
        StatementView::Update { change, filter, .. } => {
            let new = updated(rows, change, filter, m);
            assert forall|i: int, j: int| 0 <= i < j < new.len() implies !agree(
                #[trigger] new[i],
                #[trigger] new[j],
                key,
            ) by {
                assert(!agree(rows[i], rows[j], key));
                let k = choose|k: int| 0 <= k < key.len() && rows[i][#[trigger] key[k]]
                    != rows[j][key[k]];
                assert(key.contains(key[k]));
                assert(new[i][key[k]] != new[j][key[k]]);
            }
        },
        StatementView::Delete { filter, .. } => {
            lemma_filter_distinct(rows, |row: Row| !meets(row, filter, m), key);
        },
        StatementView::DeleteBeyond { group, newest_by, keep, .. } => {
            let rn = choose|rn: Seq<int>|
                #[trigger] numbering(rows, group, newest_by, rn) && after[table]
                    == within(rows, rn, keep);
            lemma_within_distinct(rows, rn, keep, key);
        },
    }
    assert forall|t: Table| distinct(#[trigger] after[t], key_of(t)) by {
        if t != table {
            assert(after[t] == before[t]);
            assert(distinct(before[t], key_of(t)));
        }
    }
}

/// Statements that go by the keys leave one row for each key, however many of
/// them run.
pub proof fn runs_keep_keys(
    batch: Seq<StatementView>,
    before: Tables,
    after: Tables,
    changed: Seq<nat>,
    m: Matching,
)
    requires
        keyed(before),
        forall|i: int| 0 <= i < batch.len() ==> respects_key(#[trigger] batch[i]),
        runs(batch, before, after, changed, m),
    ensures
        keyed(after),
    decreases batch.len(),
{
    if batch.len() > 0 {
        let middle = choose|middle: Tables|
            {
                &&& runs(batch.drop_last(), before, middle, changed.drop_last(), m)
                &&& #[trigger] batch.last().step(middle, after, changed.last(), m)
            };
        runs_keep_keys(batch.drop_last(), before, middle, changed.drop_last(), m);
        assert(respects_key(batch[batch.len() - 1]));
        a_step_keeps_keys(batch.last(), middle, after, changed.last(), m);
    }
}

/// A transaction that goes by the keys leaves one row for each key, whether it
/// succeeds or fails. Where it fails, the tables are as they were.
pub proof fn transactions_keep_keys(
    transaction: Transaction,
    outcome: Result<Seq<nat>, DatabaseErrorView>,
    before: Tables,
    after: Tables,
    m: Matching,
)
    requires
        keyed(before),
        forall|i: int| 0 <= i < transaction@.len() ==> respects_key(#[trigger] transaction@[i]),
        transaction.ended(outcome, before, after, m),
    ensures
        keyed(after),
        outcome is Err ==> after == before,
{
    if let Ok(changed) = outcome {
        runs_keep_keys(transaction@, before, after, changed, m);
    }
}

/// Storing and updating accounts goes by the keys.
pub proof fn accounts_respect_keys(a: AccountView, id: Seq<char>)
    ensures
        respects_key(account_upsert(a)),
        respects_key(token_clearing(id)),
        respects_key(token_stripping()),
        forall|i: int| 0 <= i < account_deletion(id).len() ==> respects_key(
            #[trigger] account_deletion(id)[i],
        ),
{
}

/// Storing detections, notes and summaries goes by the keys.
pub proof fn caches_respect_keys(
    d: ServerDetectionView,
    note: NoteRecordView,
    timeline_type: Seq<char>,
    now: int,
    url: Seq<char>,
    row: SummaryRowView,
    expires_at: int,
)
    ensures
        respects_key(detection_upsert(d)),
        respects_key(note_upsert(note, timeline_type, now)),
        respects_key(summary_upsert(url, row, expires_at)),
{
}

/// Storing and changing messages goes by the keys.
pub proof fn messages_respect_keys(
    records: Seq<ChatRecordView>,
    account_id: Seq<char>,
    account_user_id: Seq<char>,
    server_host: Seq<char>,
    now: int,
    message_id: Seq<char>,
    json: Seq<char>,
)
    ensures
        respects_key(message_rewrite(account_id, message_id, json)),
        forall|i: int|
            0 <= i < message_upserts(records, account_id, account_user_id, server_host, now).len()
                ==> respects_key(
                #[trigger] message_upserts(
                    records,
                    account_id,
                    account_user_id,
                    server_host,
                    now,
                )[i],
            ),
    decreases records.len(),
{
    if records.len() > 0 {
        messages_respect_keys(
            records.drop_last(),
            account_id,
            account_user_id,
            server_host,
            now,
            message_id,
            json,
        );
        let head = message_upserts(
            records.drop_last(),
            account_id,
            account_user_id,
            server_host,
            now,
        );
        assert forall|i: int|
            0 <= i < message_upserts(records, account_id, account_user_id, server_host, now).len()
            implies respects_key(
            #[trigger] message_upserts(records, account_id, account_user_id, server_host, now)[i],
        ) by {
            if i < head.len() {
                assert(respects_key(head[i]));
            }
        }
    }
}

/// Evictions go by the keys.
pub proof fn evictions_respect_keys(
    table: Table,
    per_account_limit: Option<i64>,
    ttl_days: Option<i64>,
    now: int,
)
    ensures
        forall|i: int|
            0 <= i < eviction(table, per_account_limit, ttl_days, now).len() ==> respects_key(
                #[trigger] eviction(table, per_account_limit, ttl_days, now)[i],
            ),
{
}

} // verus!
