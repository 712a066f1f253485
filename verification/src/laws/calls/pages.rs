//! Calls for page summaries.
use vstd::prelude::*;
use crate::database::Database;
use crate::laws::calls::{
    any, gives, has_columns, holds_text, lemma_gives, lemma_meets_one, lemma_meets_two,
    lemma_removes, lemma_row_columns, puts, removes,
};
use crate::laws::rows::lemma_row_of;
use crate::records::SummaryRow;
use crate::sql::{is_text, AssignmentView, Order, Query, Statement};
use crate::summaries::{
    expired_by, expires_after, summary_columns, summary_columns_with_url, summary_values,
};
use crate::tables::{arranged, limited, meets, projections, row_of, Matching, Row, Tables};
use crate::value::{Cell, Column, Table};

verus! {

/// The columns that are read of a summary, in their order.
pub open spec fn read_columns() -> Seq<Column> {
    seq![
        Column::Title,
        Column::Description,
        Column::Image,
        Column::SiteName,
        Column::Icon,
        Column::PlayerUrl,
        Column::PlayerWidth,
        Column::PlayerHeight,
        Column::PlayerAllow,
        Column::FinalUrl,
        Column::Sensitive,
        Column::MediasJson,
    ]
}

/// The columns that are read of summaries of many urls, in their order.
pub open spec fn read_columns_with_url() -> Seq<Column> {
    seq![
        Column::Url,
        Column::Title,
        Column::Description,
        Column::Image,
        Column::SiteName,
        Column::Icon,
        Column::PlayerUrl,
        Column::PlayerWidth,
        Column::PlayerHeight,
        Column::PlayerAllow,
        Column::FinalUrl,
        Column::Sensitive,
        Column::MediasJson,
    ]
}

/// The columns of a summary.
pub open spec fn written_columns() -> Seq<Column> {
    seq![
        Column::Url,
        Column::Title,
        Column::Description,
        Column::Image,
        Column::SiteName,
        Column::Icon,
        Column::PlayerUrl,
        Column::PlayerWidth,
        Column::PlayerHeight,
        Column::PlayerAllow,
        Column::FinalUrl,
        Column::Sensitive,
        Column::MediasJson,
        Column::ExpiresAt,
    ]
}

/// Whether a cell holds an optional size: null where there is none.
pub open spec fn holds_size(cell: Cell, size: Option<u32>) -> bool {
    match size {
        Some(n) => cell == Cell::Integer(n as int),
        None => cell == Cell::Null,
    }
}

/// Whether a row holds the summary of a url until a time, all of it.
pub open spec fn holds_page(row: Row, url: Seq<char>, page: SummaryRow, expires_at: int) -> bool {
    &&& has_columns(row, written_columns())
    &&& row[Column::Url] == Cell::Text(url)
    &&& holds_text(row[Column::Title], page.title)
    &&& holds_text(row[Column::Description], page.description)
    &&& holds_text(row[Column::Image], page.thumbnail)
    &&& holds_text(row[Column::SiteName], page.sitename)
    &&& holds_text(row[Column::Icon], page.icon)
    &&& holds_text(row[Column::PlayerUrl], page.player_url)
    &&& holds_size(row[Column::PlayerWidth], page.player_width)
    &&& holds_size(row[Column::PlayerHeight], page.player_height)
    &&& holds_text(row[Column::PlayerAllow], page.player_allow)
    &&& holds_text(row[Column::FinalUrl], page.final_url)
    &&& row[Column::Sensitive] == Cell::Integer(
        if page.sensitive {
            1
        } else {
            0
        },
    )
    &&& holds_text(row[Column::MediasJson], page.medias_json)
    &&& row[Column::ExpiresAt] == Cell::Integer(expires_at)
}

/// To store a summary puts a row with all of it, in place of the one that its url
/// had. It is good for as many seconds as are given.
pub proof fn storing_a_summary(
    url: &str,
    page: SummaryRow,
    ttl_secs: i64,
    now: i64,
    stored: Statement,
    before: Tables,
    after: Tables,
    changed: nat,
    m: Matching,
) -> (new: Row)
    requires
        call_ensures(Database::cache_summary, (url, &page, ttl_secs, now), stored),
        stored@.step(before, after, changed, m),
    ensures
        holds_page(new, url@, page, now + ttl_secs),
        puts(
            Table::Summaries,
            new,
            seq![Column::Url],
            seq![
                Column::Title,
                Column::Description,
                Column::Image,
                Column::SiteName,
                Column::Icon,
                Column::PlayerUrl,
                Column::PlayerWidth,
                Column::PlayerHeight,
                Column::PlayerAllow,
                Column::FinalUrl,
                Column::Sensitive,
                Column::MediasJson,
                Column::ExpiresAt,
            ],
            before,
            after,
        ),
        changed == 1,
{
    let values = summary_values(url@, page@, now + ttl_secs);
    lemma_row_of(values);
    assert(values.map_values(|a: AssignmentView| a.column) =~= written_columns());
    lemma_row_columns(values, written_columns());
    assert(values[0].column == Column::Url);
    assert(values[1].column == Column::Title);
    assert(values[2].column == Column::Description);
    assert(values[3].column == Column::Image);
    assert(values[4].column == Column::SiteName);
    assert(values[5].column == Column::Icon);
    assert(values[6].column == Column::PlayerUrl);
    assert(values[7].column == Column::PlayerWidth);
    assert(values[8].column == Column::PlayerHeight);
    assert(values[9].column == Column::PlayerAllow);
    assert(values[10].column == Column::FinalUrl);
    assert(values[11].column == Column::Sensitive);
    assert(values[12].column == Column::MediasJson);
    assert(values[13].column == Column::ExpiresAt);
    assert(summary_columns().push(Column::ExpiresAt) =~= seq![
        Column::Title,
        Column::Description,
        Column::Image,
        Column::SiteName,
        Column::Icon,
        Column::PlayerUrl,
        Column::PlayerWidth,
        Column::PlayerHeight,
        Column::PlayerAllow,
        Column::FinalUrl,
        Column::Sensitive,
        Column::MediasJson,
        Column::ExpiresAt,
    ]);
    row_of(values)
}

/// The summaries that are good beyond a time.
pub open spec fn good(now: int) -> spec_fn(Row) -> bool {
    |row: Row| row[Column::ExpiresAt] matches Cell::Integer(until) && now < until
}

/// The summaries that are not good beyond a time.
pub open spec fn over(now: int) -> spec_fn(Row) -> bool {
    |row: Row| row[Column::ExpiresAt] matches Cell::Integer(until) && until <= now
}

/// The summary of a url, where it is good beyond a time.
pub open spec fn good_of(url: Seq<char>, now: int) -> spec_fn(Row) -> bool {
    |row: Row|
        row[Column::Url] == Cell::Text(url) && (row[Column::ExpiresAt] matches Cell::Integer(until)
            && now < until)
}

/// To get the summary of a url asks for the one that is still good.
pub proof fn getting_a_summary(
    url: &str,
    now: i64,
    asked: Query,
    tables: Tables,
    answer: Seq<Seq<Cell>>,
    m: Matching,
)
    requires
        call_ensures(Database::get_cached_summary, (url, now), asked),
        asked@.answered(tables, answer, m),
    ensures
        gives(
            answer,
            tables[Table::Summaries],
            good_of(url@, now as int),
            read_columns(),
            Order::Unordered,
            None,
        ),
{
    assert forall|row: Row| #[trigger]
        meets(row, asked@->Select_filter, m) <==> good_of(url@, now as int)(row) by {
        lemma_meets_two(row, is_text(Column::Url, url@), expires_after(now as int), m);
    }
    assert(summary_columns() =~= read_columns());
    lemma_gives(asked@, good_of(url@, now as int), tables, answer, m);
}

/// To load summaries asks for those that are still good, and for no more than the
/// limit, where the limit is a 64-bit number with a sign. A greater limit is none.
pub proof fn loading_summaries(
    limit: usize,
    now: i64,
    asked: Query,
    tables: Tables,
    answer: Seq<Seq<Cell>>,
    m: Matching,
)
    requires
        call_ensures(Database::load_summary_cache, (limit, now), asked),
        asked@.answered(tables, answer, m),
    ensures
        gives(
            answer,
            tables[Table::Summaries],
            good(now as int),
            read_columns_with_url(),
            Order::Unordered,
            if limit <= i64::MAX {
                Some(limit as int)
            } else {
                None
            },
        ),
{
    assert forall|row: Row| #[trigger]
        meets(row, asked@->Select_filter, m) <==> good(now as int)(row) by {
        lemma_meets_one(row, expires_after(now as int), m);
    }
    assert(summary_columns_with_url() =~= read_columns_with_url());
    lemma_gives(asked@, good(now as int), tables, answer, m);
    if limit > i64::MAX {
        assert forall|n: nat| limited(asked@->Select_limit, n) == #[trigger] limited(
            None::<int>,
            n,
        ) by {}
        let rows = tables[Table::Summaries].filter(good(now as int));
        let s = choose|s: Seq<Row>|
            {
                &&& #[trigger] arranged(rows, Order::Unordered, s)
                &&& answer == projections(
                    s.take(limited(asked@->Select_limit, s.len()) as int),
                    read_columns_with_url(),
                )
            };
        assert(limited(asked@->Select_limit, s.len()) == limited(None::<int>, s.len()));
    }
}

/// To clean up deletes the summaries that are not good any more.
pub proof fn deleting_expired_summaries(
    now: i64,
    deleted: Statement,
    before: Tables,
    after: Tables,
    changed: nat,
    m: Matching,
)
    requires
        call_ensures(Database::cleanup_expired_ogp, (now,), deleted),
        deleted@.step(before, after, changed, m),
    ensures
        removes(Table::Summaries, over(now as int), before, after, changed),
{
    assert forall|row: Row| #[trigger]
        meets(row, deleted@->Delete_filter, m) <==> over(now as int)(row) by {
        lemma_meets_one(row, expired_by(now as int), m);
    }
    lemma_removes(
        Table::Summaries,
        deleted@->Delete_filter,
        over(now as int),
        before,
        after,
        changed,
        m,
    );
}

/// To clear the summaries deletes all of them.
pub proof fn clearing_all_summaries(
    deleted: Statement,
    before: Tables,
    after: Tables,
    changed: nat,
    m: Matching,
)
    requires
        call_ensures(Database::clear_ogp_cache, (), deleted),
        deleted@.step(before, after, changed, m),
    ensures
        removes(Table::Summaries, any(), before, after, changed),
{
    lemma_removes(
        Table::Summaries,
        deleted@->Delete_filter,
        any(),
        before,
        after,
        changed,
        m,
    );
}

} // verus!
