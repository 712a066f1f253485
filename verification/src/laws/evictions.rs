//! What evictions remove and what they leave.
use vstd::prelude::*;
use crate::database::total;
use crate::error::DatabaseErrorView;
use crate::eviction::{cap, cutoff, eviction, expiry};
use crate::laws::numbers::{
    kept_places, lemma_group_within, lemma_kept_places, lemma_within_all, lemma_within_group,
};
use crate::laws::rows::{
    lemma_filter_everything, lemma_filter_from, lemma_filter_same, lemma_filter_split,
    lemma_runs_one, lemma_runs_two,
};
use crate::sql::{ConditionView, StatementView};
use crate::tables::{
    group_of, less, meets, numbering, runs, selected, transacted, unselected, within, Matching, Row,
    Tables,
};
use crate::value::{Cell, Column, Table};

verus! {

/// The rows of an account.
pub open spec fn of_account(rows: Seq<Row>, account_id: Cell) -> Seq<Row> {
    group_of(rows, Column::AccountId, account_id)
}

/// How many of `len` rows a limit leaves. A negative limit leaves none.
pub open spec fn capped(limit: int, len: nat) -> int {
    if limit <= 0 {
        0
    } else if limit <= len {
        limit
    } else {
        len as int
    }
}

/// Whether `rows` are those at the places `at`, in order.
pub open spec fn taken_from(rows: Seq<Row>, all: Seq<Row>, at: Seq<int>) -> bool {
    &&& at.len() == rows.len()
    &&& forall|i: int|
        0 <= i < at.len() ==> 0 <= #[trigger] at[i] < all.len() && rows[i] == all[at[i]]
    &&& forall|i: int, j: int| 0 <= i < j < at.len() ==> #[trigger] at[i] < #[trigger] at[j]
}

/// Without a limit on age and on number an eviction does nothing.
pub proof fn an_eviction_without_limits_does_nothing(
    table: Table,
    now: int,
    before: Tables,
    after: Tables,
    changed: Seq<nat>,
    m: Matching,
)
    requires
        runs(eviction(table, None, None, now), before, after, changed, m),
    ensures
        eviction(table, None, None, now) == Seq::<StatementView>::empty(),
        after == before,
        changed.len() == 0,
{
    assert(eviction(table, None, None, now) =~= Seq::<StatementView>::empty());
}

/// A limit on age removes the rows cached before the time, and only those. The
/// others stay as they are, in their order.
pub proof fn an_age_limit_removes_what_is_older(
    table: Table,
    time: int,
    before: Tables,
    after: Tables,
    changed: nat,
    m: Matching,
)
    requires
        expiry(table, time).step(before, after, changed, m),
        forall|i: int|
            0 <= i < before[table].len() ==> (
            #[trigger] before[table][i])[Column::CachedAt] is Integer,
    ensures
        after[table] == before[table].filter(
            |row: Row| time <= row[Column::CachedAt]->Integer_0,
        ),
        changed == before[table].len() - after[table].len(),
        forall|t: Table| t != table ==> #[trigger] after[t] == before[t],
{
    let rows = before[table];
    let filter = expiry(table, time)->Delete_filter;
    assert forall|i: int| 0 <= i < rows.len() implies !meets(#[trigger] rows[i], filter, m) == (time
        <= rows[i][Column::CachedAt]->Integer_0) by {
        if meets(rows[i], filter, m) {
            assert(filter[0].holds(rows[i], m));
        } else {
            assert(!filter[0].holds(rows[i], m));
        }
    }
    lemma_filter_same(
        rows,
        |row: Row| !meets(row, filter, m),
        |row: Row| time <= row[Column::CachedAt]->Integer_0,
    );
    lemma_deleted(rows, filter, m);
}

proof fn lemma_deleted(
    rows: Seq<Row>,
    filter: Seq<ConditionView>,
    m: Matching,
)
    ensures
        selected(rows, filter, m).len() + unselected(rows, filter, m).len() == rows.len(),
{
    lemma_filter_split(rows, |row: Row| meets(row, filter, m));
    let not = |row: Row| !meets(row, filter, m);
    let p = |row: Row| meets(row, filter, m);
    lemma_filter_same(rows, |row: Row| !p(row), not);
}

/// A limit on number leaves each account that many rows, or all it has where it
/// has fewer.
pub proof fn a_cap_counts_for_each_account(
    table: Table,
    limit: int,
    before: Tables,
    after: Tables,
    changed: nat,
    account_id: Cell,
    m: Matching,
)
    requires
        cap(table, limit).step(before, after, changed, m),
    ensures
        of_account(after[table], account_id).len() == capped(
            limit,
            of_account(before[table], account_id).len(),
        ),
        changed == before[table].len() - after[table].len(),
        forall|t: Table| t != table ==> #[trigger] after[t] == before[t],
{
    let rn = choose|rn: Seq<int>|
        #[trigger] numbering(before[table], Column::AccountId, Column::CachedAt, rn)
            && after[table] == within(before[table], rn, limit);
    lemma_group_within(
        before[table],
        Column::AccountId,
        Column::CachedAt,
        rn,
        limit,
        account_id,
    );
}

/// A limit on number leaves the newest rows: the rows that stay keep their
/// order, and no row that goes was cached after one of its account that stays.
pub proof fn a_cap_leaves_the_newest(
    table: Table,
    limit: int,
    before: Tables,
    after: Tables,
    changed: nat,
    m: Matching,
) -> (at: Seq<int>)
    requires
        cap(table, limit).step(before, after, changed, m),
    ensures
        taken_from(after[table], before[table], at),
        forall|gone: int, i: int|
            0 <= gone < before[table].len() && !at.contains(gone) && 0 <= i < at.len()
                && before[table][gone][Column::AccountId]
                == before[table][at[i]][Column::AccountId] ==> !less(
                #[trigger] before[table][at[i]][Column::CachedAt],
                #[trigger] before[table][gone][Column::CachedAt],
            ),
{
    let rows = before[table];
    let rn = choose|rn: Seq<int>|
        #[trigger] numbering(rows, Column::AccountId, Column::CachedAt, rn) && after[table]
            == within(rows, rn, limit);
    let at = kept_places(rn, limit);
    lemma_kept_places(rows, rn, limit);
    assert forall|gone: int, i: int|
        0 <= gone < rows.len() && !at.contains(gone) && 0 <= i < at.len()
            && rows[gone][Column::AccountId] == rows[at[i]][Column::AccountId] implies !less(
        #[trigger] rows[at[i]][Column::CachedAt],
        #[trigger] rows[gone][Column::CachedAt],
    ) by {
        let stays = at[i];
        assert(rn[stays] <= limit);
        assert(rn[gone] > limit);
        if less(rows[stays][Column::CachedAt], rows[gone][Column::CachedAt]) {
            assert(rn[gone] < rn[stays]);
        }
    }
    at
}

/// An account that has no more rows than the limit keeps them all, whatever
/// happens to others.
pub proof fn a_cap_spares_accounts_within_it(
    table: Table,
    limit: int,
    before: Tables,
    after: Tables,
    changed: nat,
    account_id: Cell,
    m: Matching,
)
    requires
        cap(table, limit).step(before, after, changed, m),
        of_account(before[table], account_id).len() <= limit,
    ensures
        of_account(after[table], account_id) == of_account(before[table], account_id),
{
    let rows = before[table];
    let rn = choose|rn: Seq<int>|
        #[trigger] numbering(rows, Column::AccountId, Column::CachedAt, rn) && after[table]
            == within(rows, rn, limit);
    lemma_within_group(rows, rn, limit, Column::AccountId, account_id);
}

/// Where no account has more rows than the limit, nothing happens.
pub proof fn a_cap_that_none_exceeds_does_nothing(
    table: Table,
    limit: int,
    before: Tables,
    after: Tables,
    changed: nat,
    m: Matching,
)
    requires
        cap(table, limit).step(before, after, changed, m),
        forall|i: int|
            0 <= i < before[table].len() ==> of_account(
                before[table],
                (#[trigger] before[table][i])[Column::AccountId],
            ).len() <= limit,
    ensures
        after[table] == before[table],
        changed == 0,
{
    let rows = before[table];
    let rn = choose|rn: Seq<int>|
        #[trigger] numbering(rows, Column::AccountId, Column::CachedAt, rn) && after[table]
            == within(rows, rn, limit);
    assert forall|i: int| 0 <= i < rn.len() implies #[trigger] rn[i] <= limit by {
        assert(of_account(rows, rows[i][Column::AccountId]).len() <= limit);
    }
    lemma_within_all(rows, rn, limit);
}

/// An eviction reports as many rows as it removed, and touches no other table.
pub proof fn an_eviction_reports_what_it_removed(
    table: Table,
    per_account_limit: Option<i64>,
    ttl_days: Option<i64>,
    now: int,
    before: Tables,
    after: Tables,
    changed: Seq<nat>,
    counts: Seq<usize>,
    m: Matching,
)
    requires
        runs(eviction(table, per_account_limit, ttl_days, now), before, after, changed, m),
        counts.len() == changed.len(),
        forall|i: int| 0 <= i < counts.len() ==> #[trigger] counts[i] == changed[i],
    ensures
        total(counts) == before[table].len() - after[table].len(),
        forall|t: Table| t != table ==> #[trigger] after[t] == before[t],
{
    let batch = eviction(table, per_account_limit, ttl_days, now);
    match (ttl_days, per_account_limit) {
        (None, None) => {
            an_eviction_without_limits_does_nothing(table, now, before, after, changed, m);
        },
        (Some(days), None) => {
            let a = expiry(table, cutoff(now, days as int));
            assert(batch =~= seq![a]);
            lemma_runs_one(a, before, after, changed, m);
            lemma_deleted(before[table], a->Delete_filter, m);
            assert(counts[0] == changed[0]);
            assert(total(counts.drop_last()) == 0);
        },
        (None, Some(limit)) => {
            let b = cap(table, limit as int);
            assert(batch =~= seq![b]);
            lemma_runs_one(b, before, after, changed, m);
            a_cap_counts_for_each_account(
                table,
                limit as int,
                before,
                after,
                changed[0],
                Cell::Null,
                m,
            );
            assert(counts[0] == changed[0]);
            assert(total(counts.drop_last()) == 0);
        },
        (Some(days), Some(limit)) => {
            let a = expiry(table, cutoff(now, days as int));
            let b = cap(table, limit as int);
            assert(batch =~= seq![a, b]);
            let middle = lemma_runs_two(a, b, before, after, changed, m);
            lemma_deleted(before[table], a->Delete_filter, m);
            a_cap_counts_for_each_account(
                table,
                limit as int,
                middle,
                after,
                changed[1],
                Cell::Null,
                m,
            );
            assert(counts[0] == changed[0]);
            assert(counts[1] == changed[1]);
            assert(total(counts.drop_last().drop_last()) == 0);
            assert(total(counts.drop_last()) == counts[0]);
        },
    }
}

/// An eviction removes all that it is to remove or nothing. Where it fails, the
/// tables are as they were. Where it succeeds, it reports as many rows as it
/// removed.
pub proof fn an_eviction_is_all_or_nothing(
    table: Table,
    per_account_limit: Option<i64>,
    ttl_days: Option<i64>,
    now: int,
    outcome: Result<Seq<nat>, DatabaseErrorView>,
    before: Tables,
    after: Tables,
    counts: Seq<usize>,
    m: Matching,
)
    requires
        transacted(
            eviction(table, per_account_limit, ttl_days, now),
            outcome,
            before,
            after,
            m,
        ),
        outcome matches Ok(changed) ==> counts.len() == changed.len() && forall|i: int|
            0 <= i < counts.len() ==> #[trigger] counts[i] == changed[i],
    ensures
        outcome is Err ==> after == before,
        outcome is Ok ==> {
            &&& total(counts) == before[table].len() - after[table].len()
            &&& forall|t: Table| t != table ==> #[trigger] after[t] == before[t]
        },
{
    if let Ok(changed) = outcome {
        an_eviction_reports_what_it_removed(
            table,
            per_account_limit,
            ttl_days,
            now,
            before,
            after,
            changed,
            counts,
            m,
        );
    }
}

proof fn lemma_expiry_again(
    table: Table,
    time: int,
    rows: Seq<Row>,
    m: Matching,
)
    requires
        forall|i: int|
            0 <= i < rows.len() ==> !meets(
                #[trigger] rows[i],
                expiry(table, time)->Delete_filter,
                m,
            ),
    ensures
        unselected(rows, expiry(table, time)->Delete_filter, m) == rows,
{
    let filter = expiry(table, time)->Delete_filter;
    lemma_filter_everything(rows, |row: Row| !meets(row, filter, m));
}

/// To evict again by the same limits at the same time does nothing.
pub proof fn evicting_again_does_nothing(
    table: Table,
    per_account_limit: Option<i64>,
    ttl_days: Option<i64>,
    now: int,
    before: Tables,
    after: Tables,
    changed: Seq<nat>,
    again: Tables,
    changed_again: Seq<nat>,
    m: Matching,
)
    requires
        runs(eviction(table, per_account_limit, ttl_days, now), before, after, changed, m),
        runs(eviction(table, per_account_limit, ttl_days, now), after, again, changed_again, m),
    ensures
        again[table] == after[table],
{
    let batch = eviction(table, per_account_limit, ttl_days, now);
    match (ttl_days, per_account_limit) {
        (None, None) => {
            an_eviction_without_limits_does_nothing(table, now, after, again, changed_again, m);
        },
        (Some(days), None) => {
            let a = expiry(table, cutoff(now, days as int));
            assert(batch =~= seq![a]);
            lemma_runs_one(a, before, after, changed, m);
            lemma_runs_one(a, after, again, changed_again, m);
            lemma_unexpired(table, cutoff(now, days as int), before, after, changed[0], m);
            lemma_expiry_again(table, cutoff(now, days as int), after[table], m);
        },
        (None, Some(limit)) => {
            let b = cap(table, limit as int);
            assert(batch =~= seq![b]);
            lemma_runs_one(b, before, after, changed, m);
            lemma_runs_one(b, after, again, changed_again, m);
            lemma_cap_again(
                table,
                limit as int,
                before,
                after,
                changed[0],
                again,
                changed_again[0],
                m,
            );
        },
        (Some(days), Some(limit)) => {
            let time = cutoff(now, days as int);
            let a = expiry(table, time);
            let b = cap(table, limit as int);
            assert(batch =~= seq![a, b]);
            let middle = lemma_runs_two(a, b, before, after, changed, m);
            let middle_again = lemma_runs_two(a, b, after, again, changed_again, m);
            lemma_unexpired(table, time, before, middle, changed[0], m);
            let at = a_cap_leaves_the_newest(table, limit as int, middle, after, changed[1], m);
            assert forall|i: int| 0 <= i < after[table].len() implies !meets(
                #[trigger] after[table][i],
                a->Delete_filter,
                m,
            ) by {
                assert(after[table][i] == middle[table][at[i]]);
            }
            lemma_expiry_again(table, time, after[table], m);
            assert(middle_again[table] == after[table]);
            lemma_cap_again(
                table,
                limit as int,
                middle,
                after,
                changed[1],
                again,
                changed_again[1],
                m,
            );
        },
    }
}

proof fn lemma_unexpired(
    table: Table,
    time: int,
    before: Tables,
    after: Tables,
    changed: nat,
    m: Matching,
)
    requires
        expiry(table, time).step(before, after, changed, m),
    ensures
        forall|i: int|
            0 <= i < after[table].len() ==> !meets(
                #[trigger] after[table][i],
                expiry(table, time)->Delete_filter,
                m,
            ),
{
    let filter = expiry(table, time)->Delete_filter;
    assert forall|i: int| 0 <= i < after[table].len() implies !meets(
        #[trigger] after[table][i],
        filter,
        m,
    ) by {
        lemma_filter_from(before[table], |row: Row| !meets(row, filter, m), i);
    }
}

proof fn lemma_cap_again(
    table: Table,
    limit: int,
    before: Tables,
    after: Tables,
    changed: nat,
    again: Tables,
    changed_again: nat,
    m: Matching,
)
    requires
        cap(table, limit).step(before, after, changed, m),
        cap(table, limit).changes(after[table], again[table], changed_again, m),
    ensures
        again[table] == after[table],
{
    let rows = after[table];
    let rn = choose|rn: Seq<int>|
        #[trigger] numbering(rows, Column::AccountId, Column::CachedAt, rn) && again[table]
            == within(rows, rn, limit);
    assert forall|i: int| 0 <= i < rn.len() implies #[trigger] rn[i] <= limit by {
        a_cap_counts_for_each_account(
            table,
            limit,
            before,
            after,
            changed,
            rows[i][Column::AccountId],
            m,
        );
        assert(1 <= rn[i] <= of_account(rows, rows[i][Column::AccountId]).len());
    }
    lemma_within_all(rows, rn, limit);
}

/// Whether a row is young enough to stay at `now`: it was cached no more than
/// `ttl_days` days of 86 400 seconds ago. Without a limit on age every row is.
pub open spec fn young_enough(ttl_days: Option<i64>, now: int) -> spec_fn(Row) -> bool {
    |row: Row|
        match ttl_days {
            Some(days) => now - days * 86_400 <= row[Column::CachedAt]->Integer_0,
            None => true,
        }
}

/// Whether `left` is what an eviction is to leave of `rows`. Of each account the
/// rows that are young enough stay, or, where they are more than the limit, as
/// many as the limit allows, and no row that goes was cached after one of its
/// account that stays. The rows that stay keep their order.
pub open spec fn is_evicted(
    rows: Seq<Row>,
    left: Seq<Row>,
    per_account_limit: Option<i64>,
    ttl_days: Option<i64>,
    now: int,
) -> bool {
    let young = rows.filter(young_enough(ttl_days, now));
    match per_account_limit {
        None => left == young,
        Some(limit) => {
            &&& forall|account_id: Cell|
                (#[trigger] of_account(left, account_id)).len() == capped(
                    limit as int,
                    of_account(young, account_id).len(),
                )
            &&& exists|at: Seq<int>|
                {
                    &&& #[trigger] taken_from(left, young, at)
                    &&& forall|gone: int, i: int|
                        0 <= gone < young.len() && !at.contains(gone) && 0 <= i < at.len()
                            && young[gone][Column::AccountId] == young[at[i]][Column::AccountId]
                            ==> !less(
                            #[trigger] young[at[i]][Column::CachedAt],
                            #[trigger] young[gone][Column::CachedAt],
                        )
                }
        },
    }
}

proof fn lemma_capped(
    table: Table,
    limit: i64,
    ttl_days: Option<i64>,
    now: int,
    rows: Seq<Row>,
    before: Tables,
    after: Tables,
    changed: nat,
    m: Matching,
)
    requires
        cap(table, limit as int).step(before, after, changed, m),
        before[table] == rows.filter(young_enough(ttl_days, now)),
    ensures
        is_evicted(rows, after[table], Some(limit), ttl_days, now),
        forall|t: Table| t != table ==> #[trigger] after[t] == before[t],
        forall|i: int|
            0 <= i < after[table].len() ==> before[table].contains(#[trigger] after[table][i]),
{
    assert forall|account_id: Cell|
        (#[trigger] of_account(after[table], account_id)).len() == capped(
            limit as int,
            of_account(before[table], account_id).len(),
        ) by {
        a_cap_counts_for_each_account(
            table,
            limit as int,
            before,
            after,
            changed,
            account_id,
            m,
        );
    }
    let at = a_cap_leaves_the_newest(table, limit as int, before, after, changed, m);
    assert(taken_from(after[table], before[table], at));
    assert forall|i: int| 0 <= i < after[table].len() implies before[table].contains(
        #[trigger] after[table][i],
    ) by {
        assert(after[table][i] == before[table][at[i]]);
    }
}

/// An eviction as a whole leaves what both limits allow, whichever of them are
/// given: no account has more rows than the limit on number, and no row is older
/// than the limit on age. It removes nothing else, and touches no other table.
pub proof fn an_eviction_leaves_what_its_limits_allow(
    table: Table,
    per_account_limit: Option<i64>,
    ttl_days: Option<i64>,
    now: int,
    before: Tables,
    after: Tables,
    changed: Seq<nat>,
    m: Matching,
)
    requires
        runs(eviction(table, per_account_limit, ttl_days, now), before, after, changed, m),
        forall|i: int|
            0 <= i < before[table].len() ==> (
            #[trigger] before[table][i])[Column::CachedAt] is Integer,
    ensures
        is_evicted(before[table], after[table], per_account_limit, ttl_days, now),
        per_account_limit matches Some(limit) ==> forall|account_id: Cell|
            (#[trigger] of_account(after[table], account_id)).len() <= if limit < 0 {
                0
            } else {
                limit as int
            },
        ttl_days matches Some(days) ==> forall|i: int|
            0 <= i < after[table].len() ==> now - days * 86_400 <= (
            #[trigger] after[table][i])[Column::CachedAt]->Integer_0,
        forall|t: Table| t != table ==> #[trigger] after[t] == before[t],
{
    let batch = eviction(table, per_account_limit, ttl_days, now);
    let rows = before[table];
    let young = rows.filter(young_enough(ttl_days, now));
    if ttl_days is None {
        lemma_filter_everything(rows, young_enough(ttl_days, now));
    }
    assert forall|i: int| 0 <= i < young.len() implies young_enough(ttl_days, now)(
        #[trigger] young[i],
    ) by {
        lemma_filter_from(rows, young_enough(ttl_days, now), i);
    }
    match (ttl_days, per_account_limit) {
        (None, None) => {
            assert(batch =~= Seq::<StatementView>::empty());
        },
        (Some(days), None) => {
            let a = expiry(table, cutoff(now, days as int));
            assert(batch =~= seq![a]);
            lemma_runs_one(a, before, after, changed, m);
            lemma_young(table, days, now, before, after, changed[0], m);
        },
        (None, Some(limit)) => {
            let b = cap(table, limit as int);
            assert(batch =~= seq![b]);
            lemma_runs_one(b, before, after, changed, m);
            lemma_capped(table, limit, ttl_days, now, rows, before, after, changed[0], m);
        },
        (Some(days), Some(limit)) => {
            let a = expiry(table, cutoff(now, days as int));
            let b = cap(table, limit as int);
            assert(batch =~= seq![a, b]);
            let middle = lemma_runs_two(a, b, before, after, changed, m);
            lemma_young(table, days, now, before, middle, changed[0], m);
            lemma_capped(table, limit, ttl_days, now, rows, middle, after, changed[1], m);
        },
    }
    if let Some(days) = ttl_days {
        assert forall|i: int| 0 <= i < after[table].len() implies now - days * 86_400 <= (
        #[trigger] after[table][i])[Column::CachedAt]->Integer_0 by {
            assert(young.contains(after[table][i]));
            let k = choose|k: int| 0 <= k < young.len() && young[k] == after[table][i];
            assert(young_enough(ttl_days, now)(young[k]));
        }
    }
}

proof fn lemma_young(
    table: Table,
    days: i64,
    now: int,
    before: Tables,
    after: Tables,
    changed: nat,
    m: Matching,
)
    requires
        expiry(table, cutoff(now, days as int)).step(before, after, changed, m),
        forall|i: int|
            0 <= i < before[table].len() ==> (
            #[trigger] before[table][i])[Column::CachedAt] is Integer,
    ensures
        after[table] == before[table].filter(young_enough(Some(days), now)),
        forall|t: Table| t != table ==> #[trigger] after[t] == before[t],
{
    let time = cutoff(now, days as int);
    an_age_limit_removes_what_is_older(table, time, before, after, changed, m);
    lemma_filter_same(
        before[table],
        |row: Row| time <= row[Column::CachedAt]->Integer_0,
        young_enough(Some(days), now),
    );
}

} // verus!
