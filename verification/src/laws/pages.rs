//! A summary is found for as long as it is good, and no longer.
use vstd::prelude::*;
use crate::decode::{complete, FromRow};
use crate::error::DatabaseErrorView;
use crate::laws::rows::{
    lemma_arranged, lemma_filter_distinct, lemma_filter_from, lemma_filter_nothing,
    lemma_filter_one, lemma_filter_same, lemma_filter_twice, lemma_meets_text, lemma_none_answered,
    lemma_one_answered, lemma_one_per_key, lemma_overwritten, lemma_row_of, lemma_upserted_filter,
    lemma_upserted_found,
};
use crate::records::{SummaryRow, SummaryRowView};
use crate::sql::{is_text, Order, StatementView};
use crate::summaries::{
    expired_by, expires_after, flag, summaries_query, summary_columns, summary_columns_with_url,
    summary_query, summary_reply, summary_upsert, summary_values,
};
use crate::tables::{
    agree, arranged, distinct, has_key, key_of, keyed, less, limited, meets, overwritten, projected,
    projections, row_of, runs, selected, unselected, Matching, Row, Tables,
};
use crate::value::{optional_integer, optional_text, Cell, Column, Table};

verus! {

/// What `row` holds in the columns of a summary.
spec fn holds_summary(row: Row, summary: SummaryRowView, expires_at: int) -> bool {
    &&& row[Column::Title] == optional_text(summary.title)
    &&& row[Column::Description] == optional_text(summary.description)
    &&& row[Column::Image] == optional_text(summary.thumbnail)
    &&& row[Column::SiteName] == optional_text(summary.sitename)
    &&& row[Column::Icon] == optional_text(summary.icon)
    &&& row[Column::PlayerUrl] == optional_text(summary.player_url)
    &&& row[Column::PlayerWidth] == optional_integer(summary.player_width)
    &&& row[Column::PlayerHeight] == optional_integer(summary.player_height)
    &&& row[Column::PlayerAllow] == optional_text(summary.player_allow)
    &&& row[Column::FinalUrl] == optional_text(summary.final_url)
    &&& row[Column::Sensitive] == flag(summary.sensitive)
    &&& row[Column::MediasJson] == optional_text(summary.medias_json)
    &&& row[Column::ExpiresAt] == Cell::Integer(expires_at)
}

proof fn lemma_summary_row(url: Seq<char>, summary: SummaryRowView, expires_at: int)
    ensures
        holds_summary(row_of(summary_values(url, summary, expires_at)), summary, expires_at),
        row_of(summary_values(url, summary, expires_at))[Column::Url] == Cell::Text(url),
{
    let values = summary_values(url, summary, expires_at);
    lemma_row_of(values);
    assert(values[0].column == Column::Url);
    assert(values[1].column == Column::Title);
    assert(values[2].column == Column::Description);
    assert(values[3].column == Column::Image);
    assert(values[4].column == Column::SiteName);
    assert(values[5].column == Column::Icon);
    assert(values[6].column == Column::PlayerUrl);
    assert(values[7].column == Column::PlayerWidth);
    assert(values[8].column == Column::PlayerHeight);
    assert(values[9].column == Column::PlayerAllow);
    assert(values[10].column == Column::FinalUrl);
    assert(values[11].column == Column::Sensitive);
    assert(values[12].column == Column::MediasJson);
    assert(values[13].column == Column::ExpiresAt);
}

proof fn lemma_summary_overwritten(
    old_row: Row,
    new: Row,
    summary: SummaryRowView,
    expires_at: int,
)
    requires
        holds_summary(new, summary, expires_at),
    ensures
        holds_summary(
            overwritten(old_row, new, summary_columns().push(Column::ExpiresAt)),
            summary,
            expires_at,
        ),
        overwritten(old_row, new, summary_columns().push(Column::ExpiresAt))[Column::Url]
            == old_row[Column::Url],
{
    let update = summary_columns().push(Column::ExpiresAt);
    assert forall|i: int| 0 <= i < update.len() implies overwritten(old_row, new, update)[
    #[trigger] update[i]] == new[update[i]] by {
        assert(update.contains(update[i]));
        lemma_overwritten(old_row, new, update, update[i]);
    }
    assert(update[0] == Column::Title);
    assert(update[1] == Column::Description);
    assert(update[2] == Column::Image);
    assert(update[3] == Column::SiteName);
    assert(update[4] == Column::Icon);
    assert(update[5] == Column::PlayerUrl);
    assert(update[6] == Column::PlayerWidth);
    assert(update[7] == Column::PlayerHeight);
    assert(update[8] == Column::PlayerAllow);
    assert(update[9] == Column::FinalUrl);
    assert(update[10] == Column::Sensitive);
    assert(update[11] == Column::MediasJson);
    assert(update[12] == Column::ExpiresAt);
    lemma_overwritten(old_row, new, update, Column::Url);
}

/// Whether a row is that of `url` and good at `at`.
spec fn good_at(row: Row, url: Seq<char>, at: int) -> bool {
    row[Column::Url] == Cell::Text(url) && less(Cell::Integer(at), row[Column::ExpiresAt])
}

proof fn lemma_summary_filter(row: Row, url: Seq<char>, at: int, m: Matching)
    ensures
        meets(row, seq![is_text(Column::Url, url), expires_after(at)], m) <==> good_at(
            row,
            url,
            at,
        ),
{
    let filter = seq![is_text(Column::Url, url), expires_after(at)];
    if meets(row, filter, m) {
        assert(filter[0].holds(row, m));
        assert(filter[1].holds(row, m));
    }
}

/// A summary that was stored until a time is found before it, as it was stored
/// last, and is not found at it or after it.
pub proof fn a_stored_summary_is_found_while_good(
    url: Seq<char>,
    summary: SummaryRowView,
    expires_at: int,
    before: Tables,
    after: Tables,
    changed: nat,
    at: int,
    found: Seq<Seq<Cell>>,
    m: Matching,
)
    requires
        keyed(before),
        summary_upsert(url, summary, expires_at).step(before, after, changed, m),
        summary_query(url, at).answered(after, found, m),
    ensures
        summary_reply(url, complete(found)) == Ok::<Option<SummaryRowView>, DatabaseErrorView>(
            if at < expires_at {
                Some(SummaryRowView { url, ..summary })
            } else {
                None
            },
        ),
{
    let rows = before[Table::Summaries];
    let new = row_of(summary_values(url, summary, expires_at));
    let key = seq![Column::Url];
    let update = summary_columns().push(Column::ExpiresAt);
    let by_url = seq![is_text(Column::Url, url)];
    let filter = seq![is_text(Column::Url, url), expires_after(at)];
    assert(distinct(rows, key_of(Table::Summaries)));
    lemma_summary_row(url, summary, expires_at);
    assert forall|row: Row| #[trigger] meets(row, by_url, m) <==> agree(row, new, key) by {
        lemma_meets_text(row, Column::Url, url, m);
        if agree(row, new, key) {
            assert(row[key[0]] == new[key[0]]);
        }
    }
    lemma_upserted_found(rows, new, key, update, by_url, m);
    let all = after[Table::Summaries];
    let row = selected(all, by_url, m)[0];
    assert(row[Column::Url] == Cell::Text(url) && holds_summary(row, summary, expires_at)) by {
        if has_key(rows, new, key) {
            let old_row = selected(rows, by_url, m)[0];
            lemma_filter_from(rows, |row: Row| meets(row, by_url, m), 0);
            assert(agree(old_row, new, key));
            assert(old_row[key[0]] == new[key[0]]);
            lemma_summary_overwritten(old_row, new, summary, expires_at);
        }
    }
    // The row is good, or none is.
    assert forall|i: int| 0 <= i < all.len() implies meets(#[trigger] all[i], filter, m) == (meets(
        all[i],
        by_url,
        m,
    ) && less(Cell::Integer(at), all[i][Column::ExpiresAt])) by {
        lemma_summary_filter(all[i], url, at, m);
        lemma_meets_text(all[i], Column::Url, url, m);
    }
    let good = |row: Row| less(Cell::Integer(at), row[Column::ExpiresAt]);
    lemma_filter_twice(
        all,
        |row: Row| meets(row, by_url, m),
        good,
        |row: Row| meets(row, filter, m),
    );
    assert(selected(all, by_url, m) =~= seq![row]);
    if at < expires_at {
        lemma_filter_one(seq![row], good, 0);
        lemma_one_answered(summary_query(url, at), row, after, found, m);
    } else {
        lemma_filter_nothing(seq![row], good);
        lemma_none_answered(summary_query(url, at), after, found, m);
    }
}

/// Whether a statement has nothing to do with the summary of `url` from `at` on:
/// it is on another table, stores the summary of another url, or deletes
/// summaries that have expired by then.
pub open spec fn leaves_summary(statement: StatementView, url: Seq<char>, at: int) -> bool {
    ||| statement.table() != Table::Summaries
    ||| exists|other: Seq<char>, summary: SummaryRowView, expires_at: int|
        {
            &&& other != url
            &&& statement == #[trigger] summary_upsert(other, summary, expires_at)
        }
    ||| exists|now: int|
        {
            &&& now <= at
            &&& statement == (StatementView::Delete {
                table: Table::Summaries,
                filter: seq![#[trigger] expired_by(now)],
            })
        }
}

proof fn lemma_summary_stays(
    statement: StatementView,
    before: Tables,
    after: Tables,
    changed: nat,
    url: Seq<char>,
    at: int,
    found: Seq<Seq<Cell>>,
    m: Matching,
)
    requires
        leaves_summary(statement, url, at),
        statement.step(before, after, changed, m),
    ensures
        summary_query(url, at).answered(before, found, m) == summary_query(url, at).answered(
            after,
            found,
            m,
        ),
{
    if statement.table() != Table::Summaries {
        assert(after[Table::Summaries] == before[Table::Summaries]);
    } else if exists|now: int|
        {
            &&& now <= at
            &&& statement == (StatementView::Delete {
                table: Table::Summaries,
                filter: seq![#[trigger] expired_by(now)],
            })
        } {
        let now = choose|now: int|
            {
                &&& now <= at
                &&& statement == (StatementView::Delete {
                    table: Table::Summaries,
                    filter: seq![#[trigger] expired_by(now)],
                })
            };
        deleting_expired_summaries_goes_unnoticed(now, before, after, changed, url, at, found, m);
    } else {
        let (other, summary, expires_at) = choose|
            other: Seq<char>,
            summary: SummaryRowView,
            expires_at: int,
        |
            {
                &&& other != url
                &&& statement == #[trigger] summary_upsert(other, summary, expires_at)
            };
        let rows = before[Table::Summaries];
        let new = row_of(summary_values(other, summary, expires_at));
        let key = seq![Column::Url];
        let update = summary_columns().push(Column::ExpiresAt);
        let filter = seq![is_text(Column::Url, url), expires_after(at)];
        let p = |row: Row| meets(row, filter, m);
        lemma_summary_row(other, summary, expires_at);
        assert forall|row: Row| #[trigger] agree(row, new, key) implies !p(row) by {
            assert(row[key[0]] == new[key[0]]);
            lemma_summary_filter(row, url, at, m);
        }
        lemma_upserted_filter(rows, new, key, update, p);
        assert(selected(after[Table::Summaries], filter, m) == selected(rows, filter, m));
    }
}

/// What reading a url gives from a time on does not depend on other urls that
/// are stored, on expired summaries that are deleted, nor on anything that is
/// done to other tables.
pub proof fn other_work_leaves_a_summary(
    batch: Seq<StatementView>,
    before: Tables,
    after: Tables,
    changed: Seq<nat>,
    url: Seq<char>,
    at: int,
    found: Seq<Seq<Cell>>,
    m: Matching,
)
    requires
        forall|i: int| 0 <= i < batch.len() ==> leaves_summary(#[trigger] batch[i], url, at),
        runs(batch, before, after, changed, m),
    ensures
        summary_query(url, at).answered(before, found, m) == summary_query(url, at).answered(
            after,
            found,
            m,
        ),
    decreases batch.len(),
{
    if batch.len() > 0 {
        let middle = choose|middle: Tables|
            {
                &&& runs(batch.drop_last(), before, middle, changed.drop_last(), m)
                &&& #[trigger] batch.last().step(middle, after, changed.last(), m)
            };
        assert forall|i: int| 0 <= i < batch.drop_last().len() implies leaves_summary(
            #[trigger] batch.drop_last()[i],
            url,
            at,
        ) by {
            assert(leaves_summary(batch[i], url, at));
        }
        assert(leaves_summary(batch[batch.len() - 1], url, at));
        other_work_leaves_a_summary(
            batch.drop_last(),
            before,
            middle,
            changed.drop_last(),
            url,
            at,
            found,
            m,
        );
        lemma_summary_stays(batch.last(), middle, after, changed.last(), url, at, found, m);
    }
}

/// A summary that was stored until a time is found before it, as it was stored,
/// and is not found at it or after it, whatever other urls were stored, expired
/// summaries deleted or other tables changed in between.
pub proof fn a_stored_summary_is_found_after_other_work(
    url: Seq<char>,
    summary: SummaryRowView,
    expires_at: int,
    before: Tables,
    stored: Tables,
    changed: nat,
    batch: Seq<StatementView>,
    after: Tables,
    changes: Seq<nat>,
    at: int,
    found: Seq<Seq<Cell>>,
    m: Matching,
)
    requires
        keyed(before),
        summary_upsert(url, summary, expires_at).step(before, stored, changed, m),
        forall|i: int| 0 <= i < batch.len() ==> leaves_summary(#[trigger] batch[i], url, at),
        runs(batch, stored, after, changes, m),
        summary_query(url, at).answered(after, found, m),
    ensures
        summary_reply(url, complete(found)) == Ok::<Option<SummaryRowView>, DatabaseErrorView>(
            if at < expires_at {
                Some(SummaryRowView { url, ..summary })
            } else {
                None
            },
        ),
{
    other_work_leaves_a_summary(batch, stored, after, changes, url, at, found, m);
    a_stored_summary_is_found_while_good(
        url,
        summary,
        expires_at,
        before,
        stored,
        changed,
        at,
        found,
        m,
    );
}

/// Whether a row is good at `at`.
pub open spec fn is_good(at: int) -> spec_fn(Row) -> bool {
    |row: Row| less(Cell::Integer(at), row[Column::ExpiresAt])
}

/// Loading summaries gives as many as are good, and no more than were asked for.
/// No two have one url, and each is what reading its url gives.
pub proof fn loaded_summaries_are_what_their_urls_give(
    at: int,
    limit: int,
    tables: Tables,
    loaded: Seq<Seq<Cell>>,
    m: Matching,
)
    requires
        keyed(tables),
        summaries_query(at, limit).answered(tables, loaded, m),
    ensures
        loaded.len() == limited(Some(limit), tables[Table::Summaries].filter(is_good(at)).len()),
        forall|i: int, j: int|
            0 <= i < j < loaded.len() ==> (#[trigger] loaded[i])[0] != (#[trigger] loaded[j])[0],
        forall|i: int, url: Seq<char>, found: Seq<Seq<Cell>>|
            #![trigger loaded[i], summary_query(url, at).answered(tables, found, m)]
            0 <= i < loaded.len() && loaded[i][0] == Cell::Text(url) && SummaryRow::decoded(
                loaded[i],
            ) is Ok && summary_query(url, at).answered(tables, found, m) ==> summary_reply(
                url,
                complete(found),
            ) == Ok::<Option<SummaryRowView>, DatabaseErrorView>(
                Some(SummaryRow::decoded(loaded[i])->Ok_0),
            ),
{
    let table = tables[Table::Summaries];
    let filter = seq![expires_after(at)];
    let columns = summary_columns_with_url();
    let key = key_of(Table::Summaries);
    let p = |row: Row| meets(row, filter, m);
    assert forall|row: Row| #[trigger] meets(row, filter, m) <==> is_good(at)(row) by {
        if meets(row, filter, m) {
            assert(filter[0].holds(row, m));
        }
    }
    lemma_filter_same(table, p, is_good(at));
    let good = selected(table, filter, m);
    assert(distinct(table, key));
    lemma_filter_distinct(table, p, key);
    let all = choose|s: Seq<Row>|
        {
            &&& #[trigger] arranged(good, Order::Unordered, s)
            &&& loaded == projections(s.take(limited(Some(limit), s.len()) as int), columns)
        };
    lemma_arranged(good, Order::Unordered, all);
    assert(good.no_duplicates()) by {
        assert forall|i: int, j: int|
            0 <= i < good.len() && 0 <= j < good.len() && i != j implies good[i] != good[j] by {
            if i < j {
                assert(!agree(good[i], good[j], key));
            } else {
                assert(!agree(good[j], good[i], key));
            }
        }
    }
    good.lemma_multiset_has_no_duplicates();
    all.lemma_multiset_has_no_duplicates_conv();
    assert forall|i: int| 0 <= i < all.len() implies good.contains(#[trigger] all[i]) by {
        assert(all.contains(all[i]));
    }
    assert forall|i: int, j: int| 0 <= i < j < loaded.len() implies (#[trigger] loaded[i])[0] != (
    #[trigger] loaded[j])[0] by {
        assert(loaded[i] == projected(all[i], columns));
        assert(loaded[j] == projected(all[j], columns));
        let k = choose|k: int| 0 <= k < good.len() && good[k] == all[i];
        let l = choose|l: int| 0 <= l < good.len() && good[l] == all[j];
        assert(all[i] != all[j]);
        if k < l {
            assert(!agree(good[k], good[l], key));
        } else {
            assert(!agree(good[l], good[k], key));
        }
    }
    assert forall|i: int, url: Seq<char>, found: Seq<Seq<Cell>>|
        #![trigger loaded[i], summary_query(url, at).answered(tables, found, m)]
        0 <= i < loaded.len() && loaded[i][0] == Cell::Text(url) && SummaryRow::decoded(
            loaded[i],
        ) is Ok && summary_query(url, at).answered(tables, found, m) implies summary_reply(
        url,
        complete(found),
    ) == Ok::<Option<SummaryRowView>, DatabaseErrorView>(
        Some(SummaryRow::decoded(loaded[i])->Ok_0),
    ) by {
        let row = all[i];
        assert(loaded[i] == projected(row, columns));
        let k = choose|k: int| 0 <= k < good.len() && good[k] == row;
        lemma_filter_from(table, p, k);
        let place = choose|n: int| 0 <= n < table.len() && table[n] == good[k];
        let by_url = seq![is_text(Column::Url, url), expires_after(at)];
        let q = |row: Row| meets(row, by_url, m);
        assert(row[Column::Url] == Cell::Text(url));
        assert forall|n: int| 0 <= n < table.len() implies (q(#[trigger] table[n]) <==> n
            == place) by {
            lemma_summary_filter(table[n], url, at, m);
            if q(table[n]) {
                assert(agree(table[n], table[place], key));
                assert(agree(table[place], table[place], key));
                lemma_one_per_key(table, row, key, n, place);
            }
        }
        lemma_filter_one(table, q, place);
        lemma_one_answered(summary_query(url, at), row, tables, found, m);
        assert forall|n: int| 0 <= n < summary_columns().len() implies #[trigger] found[0][n]
            == loaded[i][n + 1] by {
            assert(columns[n + 1] == summary_columns()[n]);
        }
    }
}

/// Deleting expired summaries changes nothing that can be found from then on.
pub proof fn deleting_expired_summaries_goes_unnoticed(
    now: int,
    before: Tables,
    after: Tables,
    changed: nat,
    url: Seq<char>,
    at: int,
    found: Seq<Seq<Cell>>,
    m: Matching,
)
    requires
        (StatementView::Delete { table: Table::Summaries, filter: seq![expired_by(now)] }).step(
            before,
            after,
            changed,
            m,
        ),
        now <= at,
    ensures
        summary_query(url, at).answered(before, found, m) == summary_query(url, at).answered(
            after,
            found,
            m,
        ),
{
    let rows = before[Table::Summaries];
    let filter = seq![is_text(Column::Url, url), expires_after(at)];
    let expired = seq![expired_by(now)];
    assert forall|i: int| 0 <= i < rows.len() implies meets(#[trigger] rows[i], filter, m) == (
    !meets(rows[i], expired, m) && meets(rows[i], filter, m)) by {
        if meets(rows[i], filter, m) && meets(rows[i], expired, m) {
            lemma_summary_filter(rows[i], url, at, m);
            assert(expired[0].holds(rows[i], m));
        }
    }
    lemma_filter_twice(
        rows,
        |row: Row| !meets(row, expired, m),
        |row: Row| meets(row, filter, m),
        |row: Row| meets(row, filter, m),
    );
    assert(after[Table::Summaries] == unselected(rows, expired, m));
    assert(selected(after[Table::Summaries], filter, m) == selected(rows, filter, m));
}

/// Deleting expired summaries leaves those that are good beyond the time, and
/// only those.
pub proof fn deleting_expired_summaries_leaves_the_good_ones(
    now: int,
    before: Tables,
    after: Tables,
    changed: nat,
    m: Matching,
)
    requires
        (StatementView::Delete { table: Table::Summaries, filter: seq![expired_by(now)] }).step(
            before,
            after,
            changed,
            m,
        ),
        forall|i: int|
            0 <= i < before[Table::Summaries].len() ==> (
            #[trigger] before[Table::Summaries][i])[Column::ExpiresAt] is Integer,
    ensures
        after[Table::Summaries] == before[Table::Summaries].filter(
            |row: Row| now < row[Column::ExpiresAt]->Integer_0,
        ),
{
    let rows = before[Table::Summaries];
    let expired = seq![expired_by(now)];
    assert forall|i: int| 0 <= i < rows.len() implies !meets(#[trigger] rows[i], expired, m) == (now
        < rows[i][Column::ExpiresAt]->Integer_0) by {
        if meets(rows[i], expired, m) {
            assert(expired[0].holds(rows[i], m));
        } else {
            assert(!expired_by(now).holds(rows[i], m));
        }
    }
    lemma_filter_same(
        rows,
        |row: Row| !meets(row, expired, m),
        |row: Row| now < row[Column::ExpiresAt]->Integer_0,
    );
}

} // verus!
