//! Removing what the caches are not to keep.
use vstd::prelude::*;
use crate::config::{ChatEvictionConfig, EvictionConfig};
use crate::database::{Database, Transaction};
use crate::sql::{Condition, ConditionView, Statement, StatementView, Test};
use crate::value::{Cell, Column, Table, Value};

verus! {

/// The seconds of a day.
pub const DAY: i64 = 86_400;

/// The time before which rows are too old.
pub open spec fn cutoff(now: int, ttl_days: int) -> int {
    now - ttl_days * DAY
}

/// Whether the time before which rows are too old is a 64-bit time, as is the
/// age that it stands for.
pub open spec fn cutoff_fits(now: i64, ttl_days: Option<i64>) -> bool {
    match ttl_days {
        Some(days) => {
            &&& i64::MIN <= days * DAY <= i64::MAX
            &&& i64::MIN <= cutoff(now as int, days as int) <= i64::MAX
        },
        None => true,
    }
}

/// The statement that deletes rows cached before a time.
pub open spec fn expiry(table: Table, before: int) -> StatementView {
    StatementView::Delete {
        table,
        filter: seq![
            ConditionView {
                column: Column::CachedAt,
                test: Test::Less,
                value: Cell::Integer(before),
            },
        ],
    }
}

/// The statement that leaves each account its `keep` rows cached last.
pub open spec fn cap(table: Table, keep: int) -> StatementView {
    StatementView::DeleteBeyond {
        table,
        group: Column::AccountId,
        newest_by: Column::CachedAt,
        keep,
    }
}

/// The statements of an eviction: first what is too old goes, then what is too
/// much for its account.
pub open spec fn eviction(
    table: Table,
    per_account_limit: Option<i64>,
    ttl_days: Option<i64>,
    now: int,
) -> Seq<StatementView> {
    (match ttl_days {
        Some(days) => seq![expiry(table, cutoff(now, days as int))],
        None => Seq::empty(),
    }) + (match per_account_limit {
        Some(keep) => seq![cap(table, keep as int)],
        None => Seq::empty(),
    })
}

fn evict(
    table: Table,
    per_account_limit: Option<i64>,
    ttl_days: Option<i64>,
    now: i64,
) -> (r: Transaction)
    requires
        cutoff_fits(now, ttl_days),
    ensures
        r@ == eviction(table, per_account_limit, ttl_days, now as int),
{
    let mut statements: Vec<Statement> = Vec::new();
    if let Some(days) = ttl_days {
        let before: i64 = now - days * DAY;
        let filter: Vec<Condition> = vec![
            Condition {
                column: Column::CachedAt,
                test: Test::Less,
                value: Value::Integer(before),
            },
        ];
        let statement = Statement::Delete { table, filter };
        assert(statement@ =~= expiry(table, cutoff(now as int, days as int)));
        statements.push(statement);
    }
    if let Some(keep) = per_account_limit {
        statements.push(
            Statement::DeleteBeyond {
                table,
                group: Column::AccountId,
                newest_by: Column::CachedAt,
                keep,
            },
        );
    }
    let r = Transaction { statements };
    assert(r@ =~= eviction(table, per_account_limit, ttl_days, now as int));
    r
}

impl Database {
    /// Evicts notes by the default configuration.
    pub fn cleanup_cache(now: i64) -> (r: Transaction)
        ensures
            r@ == seq![cap(Table::Notes, 1_000_000)],
    {
        let r = Database::cleanup_with_eviction(&EvictionConfig::default(), now);
        assert(r@ =~= seq![cap(Table::Notes, 1_000_000)]);
        r
    }

    /// Evicts notes at the time `now`, in seconds. Where neither an age nor a
    /// number is limited there is nothing to run.
    pub fn cleanup_with_eviction(config: &EvictionConfig, now: i64) -> (r: Transaction)
        requires
            cutoff_fits(now, config.ttl_days),
        ensures
            r@ == eviction(Table::Notes, config.per_account_limit, config.ttl_days, now as int),
    {
        evict(Table::Notes, config.per_account_limit, config.ttl_days, now)
    }

    /// Evicts chat messages at the time `now`, in seconds. Where neither an age
    /// nor a number is limited there is nothing to run.
    pub fn cleanup_chat_with_eviction(config: &ChatEvictionConfig, now: i64) -> (r: Transaction)
        requires
            cutoff_fits(now, config.ttl_days),
        ensures
            r@ == eviction(Table::Messages, config.per_account_limit, config.ttl_days, now as int),
    {
        evict(Table::Messages, config.per_account_limit, config.ttl_days, now)
    }
}

} // verus!
