//! Calls for evictions.
use vstd::prelude::*;
use crate::config::{ChatEvictionConfig, EvictionConfig};
use crate::database::{total, Database, Transaction};
use crate::eviction::eviction;
use crate::laws::evictions::{an_eviction_leaves_what_its_limits_allow, is_evicted, of_account};
use crate::sql::StatementView;
use crate::tables::{runs, Matching, Row, Tables};
use crate::value::{Cell, Column, Table};

verus! {

/// Whether every row of a table says when it was cached.
pub open spec fn dated(rows: Seq<Row>) -> bool {
    forall|i: int|
        0 <= i < rows.len() ==> (#[trigger] rows[i])[Column::CachedAt] is Integer
}

/// Whether a table is left with what two limits allow, and nothing else changes:
/// no account has more rows than the limit on number, whether or not there is one
/// on age, and no row is older than the limit on age, whether or not there is one
/// on number. No other row goes.
pub open spec fn evicts(
    table: Table,
    per_account_limit: Option<i64>,
    ttl_days: Option<i64>,
    now: int,
    before: Tables,
    after: Tables,
) -> bool {
    &&& is_evicted(before[table], after[table], per_account_limit, ttl_days, now)
    &&& per_account_limit matches Some(limit) ==> forall|account_id: Cell|
        (#[trigger] of_account(after[table], account_id)).len() <= if limit < 0 {
            0
        } else {
            limit as int
        }
    &&& ttl_days matches Some(days) ==> forall|i: int|
        0 <= i < after[table].len() ==> now - days * 86_400 <= (
        #[trigger] after[table][i])[Column::CachedAt]->Integer_0
    &&& forall|t: Table| t != table ==> #[trigger] after[t] == before[t]
}

pub(crate) proof fn lemma_evicts(
    table: Table,
    per_account_limit: Option<i64>,
    ttl_days: Option<i64>,
    now: int,
    batch: Seq<StatementView>,
    before: Tables,
    after: Tables,
    changed: Seq<nat>,
    m: Matching,
)
    requires
        batch == eviction(table, per_account_limit, ttl_days, now),
        runs(batch, before, after, changed, m),
        dated(before[table]),
    ensures
        evicts(table, per_account_limit, ttl_days, now, before, after),
{
    an_eviction_leaves_what_its_limits_allow(
        table,
        per_account_limit,
        ttl_days,
        now,
        before,
        after,
        changed,
        m,
    );
}

/// To clean up the notes leaves of them what the configuration allows.
pub proof fn cleaning_up_notes(
    config: EvictionConfig,
    now: i64,
    evicted: Transaction,
    before: Tables,
    after: Tables,
    changed: Seq<nat>,
    m: Matching,
)
    requires
        call_ensures(Database::cleanup_with_eviction, (&config, now), evicted),
        runs(evicted.statements.deep_view(), before, after, changed, m),
        dated(before[Table::Notes]),
    ensures
        evicts(
            Table::Notes,
            config.per_account_limit,
            config.ttl_days,
            now as int,
            before,
            after,
        ),
{
    lemma_evicts(
        Table::Notes,
        config.per_account_limit,
        config.ttl_days,
        now as int,
        evicted@,
        before,
        after,
        changed,
        m,
    );
}

/// To clean up the chat messages leaves of them what the configuration allows.
pub proof fn cleaning_up_messages(
    config: ChatEvictionConfig,
    now: i64,
    evicted: Transaction,
    before: Tables,
    after: Tables,
    changed: Seq<nat>,
    m: Matching,
)
    requires
        call_ensures(Database::cleanup_chat_with_eviction, (&config, now), evicted),
        runs(evicted.statements.deep_view(), before, after, changed, m),
        dated(before[Table::Messages]),
    ensures
        evicts(
            Table::Messages,
            config.per_account_limit,
            config.ttl_days,
            now as int,
            before,
            after,
        ),
{
    lemma_evicts(
        Table::Messages,
        config.per_account_limit,
        config.ttl_days,
        now as int,
        evicted@,
        before,
        after,
        changed,
        m,
    );
}

/// To clean up by default leaves each account a million notes, of any age.
pub proof fn cleaning_up_by_default(
    now: i64,
    evicted: Transaction,
    before: Tables,
    after: Tables,
    changed: Seq<nat>,
    m: Matching,
)
    requires
        call_ensures(Database::cleanup_cache, (now,), evicted),
        runs(evicted.statements.deep_view(), before, after, changed, m),
        dated(before[Table::Notes]),
    ensures
        evicts(Table::Notes, Some(1_000_000), None, now as int, before, after),
{
    assert(evicted@ =~= eviction(Table::Notes, Some(1_000_000), None, now as int));
    lemma_evicts(
        Table::Notes,
        Some(1_000_000),
        None,
        now as int,
        evicted@,
        before,
        after,
        changed,
        m,
    );
}

/// Where neither an age nor a number is limited, nothing is run.
pub proof fn cleaning_up_without_limits(
    config: EvictionConfig,
    chat_config: ChatEvictionConfig,
    now: i64,
    evicted: Transaction,
    chat_evicted: Transaction,
)
    requires
        call_ensures(Database::cleanup_with_eviction, (&config, now), evicted),
        call_ensures(Database::cleanup_chat_with_eviction, (&chat_config, now), chat_evicted),
    ensures
        config.per_account_limit is None && config.ttl_days is None
            ==> evicted.statements@.len() == 0,
        chat_config.per_account_limit is None && chat_config.ttl_days is None
            ==> chat_evicted.statements@.len() == 0,
{
    assert(evicted@.len() == evicted.statements@.len());
    assert(chat_evicted@.len() == chat_evicted.statements@.len());
}

proof fn lemma_sum(changed: Seq<usize>)
    ensures
        total(changed) == changed.fold_left(0int, |sum: int, n: usize| sum + n),
    decreases changed.len(),
{
    if changed.len() > 0 {
        lemma_sum(changed.drop_last());
    }
}

/// What is deleted in all is the sum of what each statement deleted.
pub proof fn adding_up_what_was_deleted(changed: Vec<usize>, sum: u64)
    requires
        call_ensures(Database::total_deleted, (&changed,), sum),
    ensures
        sum == changed@.fold_left(0int, |sum: int, n: usize| sum + n),
{
    lemma_sum(changed@);
}

} // verus!
