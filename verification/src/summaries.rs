//! The cache of page summaries.
use vstd::prelude::*;
use crate::database::Database;
use crate::decode::{row_to_summary, seen, summary_in, Answer, AnswerView};
use crate::error::{DatabaseErrorView, NoteDeckError};
use crate::records::{SummaryRow, SummaryRowView};
use crate::sql::{
    assign, is_text, Assignment, AssignmentView, Condition, ConditionView, Order, Query, QueryView,
    Statement, StatementView, Test,
};
use crate::value::{optional_integer, optional_text, Cell, Column, Table, Value};

verus! {

/// The columns of a summary, in the order in which they are read.
pub open spec fn summary_columns() -> Seq<Column> {
    seq![
        Column::Title,
        Column::Description,
        Column::Image,
        Column::SiteName,
        Column::Icon,
        Column::PlayerUrl,
        Column::PlayerWidth,
        Column::PlayerHeight,
        Column::PlayerAllow,
        Column::FinalUrl,
        Column::Sensitive,
        Column::MediasJson,
    ]
}

/// The columns of a summary with its url before them.
pub open spec fn summary_columns_with_url() -> Seq<Column> {
    seq![Column::Url] + summary_columns()
}

/// The cell of a truth value.
pub open spec fn flag(b: bool) -> Cell {
    Cell::Integer(
        if b {
            1
        } else {
            0
        },
    )
}

/// What each column of a summary's row holds when `row` is stored for `url`
/// until `expires_at`.
pub open spec fn summary_values(url: Seq<char>, row: SummaryRowView, expires_at: int) -> Seq<
    AssignmentView,
> {
    seq![
        assign(Column::Url, Cell::Text(url)),
        assign(Column::Title, optional_text(row.title)),
        assign(Column::Description, optional_text(row.description)),
        assign(Column::Image, optional_text(row.thumbnail)),
        assign(Column::SiteName, optional_text(row.sitename)),
        assign(Column::Icon, optional_text(row.icon)),
        assign(Column::PlayerUrl, optional_text(row.player_url)),
        assign(Column::PlayerWidth, optional_integer(row.player_width)),
        assign(Column::PlayerHeight, optional_integer(row.player_height)),
        assign(Column::PlayerAllow, optional_text(row.player_allow)),
        assign(Column::FinalUrl, optional_text(row.final_url)),
        assign(Column::Sensitive, flag(row.sensitive)),
        assign(Column::MediasJson, optional_text(row.medias_json)),
        assign(Column::ExpiresAt, Cell::Integer(expires_at)),
    ]
}

/// The statement that stores a summary, in place of the one that its url had.
pub open spec fn summary_upsert(
    url: Seq<char>,
    row: SummaryRowView,
    expires_at: int,
) -> StatementView {
    StatementView::Upsert {
        table: Table::Summaries,
        values: summary_values(url, row, expires_at),
        key: seq![Column::Url],
        update: summary_columns().push(Column::ExpiresAt),
    }
}

/// The condition that a summary is good beyond a time.
pub open spec fn expires_after(now: int) -> ConditionView {
    ConditionView { column: Column::ExpiresAt, test: Test::Greater, value: Cell::Integer(now) }
}

/// The condition that a summary is not good beyond a time.
pub open spec fn expired_by(now: int) -> ConditionView {
    ConditionView { column: Column::ExpiresAt, test: Test::AtMost, value: Cell::Integer(now) }
}

/// The query for the summary of `url` that is good at `now`.
pub open spec fn summary_query(url: Seq<char>, now: int) -> QueryView {
    QueryView::Select {
        table: Table::Summaries,
        columns: summary_columns(),
        filter: seq![is_text(Column::Url, url), expires_after(now)],
        order: Order::Unordered,
        limit: None,
    }
}

/// The query for `limit` summaries that are good at `now`.
pub open spec fn summaries_query(now: int, limit: int) -> QueryView {
    QueryView::Select {
        table: Table::Summaries,
        columns: summary_columns_with_url(),
        filter: seq![expires_after(now)],
        order: Order::Unordered,
        limit: Some(limit),
    }
}

/// The summary that an answer gives for `url`, if it has a row.
pub open spec fn summary_reply(url: Seq<char>, answer: AnswerView) -> Result<
    Option<SummaryRowView>,
    DatabaseErrorView,
> {
    if answer.rows.len() > 0 {
        match summary_in(url, answer.rows[0], 0) {
            Ok(row) => Ok(Some(row)),
            Err(e) => Err(e),
        }
    } else {
        match answer.failure {
            Some(e) => Err(e),
            None => Ok(None),
        }
    }
}

/// `n` as a 64-bit integer with a sign: the same number, or, beyond the
/// largest of them, a negative one.
pub open spec fn signed(n: usize) -> int {
    if n <= i64::MAX {
        n as int
    } else {
        n - usize::MAX - 1
    }
}

fn to_signed(n: usize) -> (r: i64)
    ensures
        r == signed(n),
{
    if n as u64 <= 0x7fff_ffff_ffff_ffff {
        n as i64
    } else {
        -1 - ((usize::MAX - n) as i64)
    }
}

fn columns() -> (r: Vec<Column>)
    ensures
        r@ == summary_columns(),
{
    let r: Vec<Column> = vec![
        Column::Title,
        Column::Description,
        Column::Image,
        Column::SiteName,
        Column::Icon,
        Column::PlayerUrl,
        Column::PlayerWidth,
        Column::PlayerHeight,
        Column::PlayerAllow,
        Column::FinalUrl,
        Column::Sensitive,
        Column::MediasJson,
    ];
    assert(r@ =~= summary_columns());
    r
}

impl Database {
    /// Stores the summary of `url` for `ttl_secs` seconds from `now` on.
    pub fn cache_summary(url: &str, row: &SummaryRow, ttl_secs: i64, now: i64) -> (r: Statement)
        requires
            i64::MIN <= now + ttl_secs <= i64::MAX,
        ensures
            r@ == summary_upsert(url@, row@, now + ttl_secs),
    {
        let sensitive: i64 = if row.sensitive {
            1
        } else {
            0
        };
        let values: Vec<Assignment> = vec![
            Assignment::new(Column::Url, Value::text(url)),
            Assignment::new(Column::Title, Value::optional_text(&row.title)),
            Assignment::new(Column::Description, Value::optional_text(&row.description)),
            Assignment::new(Column::Image, Value::optional_text(&row.thumbnail)),
            Assignment::new(Column::SiteName, Value::optional_text(&row.sitename)),
            Assignment::new(Column::Icon, Value::optional_text(&row.icon)),
            Assignment::new(Column::PlayerUrl, Value::optional_text(&row.player_url)),
            Assignment::new(Column::PlayerWidth, Value::optional_integer(row.player_width)),
            Assignment::new(Column::PlayerHeight, Value::optional_integer(row.player_height)),
            Assignment::new(Column::PlayerAllow, Value::optional_text(&row.player_allow)),
            Assignment::new(Column::FinalUrl, Value::optional_text(&row.final_url)),
            Assignment::new(Column::Sensitive, Value::Integer(sensitive)),
            Assignment::new(Column::MediasJson, Value::optional_text(&row.medias_json)),
            Assignment::new(Column::ExpiresAt, Value::Integer(now + ttl_secs)),
        ];
        assert(values.deep_view() =~= summary_values(url@, row@, now + ttl_secs));
        let mut update = columns();
        update.push(Column::ExpiresAt);
        let r = Statement::Upsert {
            table: Table::Summaries,
            values,
            key: vec![Column::Url],
            update,
        };
        assert(r@ =~= summary_upsert(url@, row@, now + ttl_secs));
        r
    }

    /// The summary of `url`, where it is still good at `now`.
    pub fn get_cached_summary(url: &str, now: i64) -> (r: Query)
        ensures
            r@ == summary_query(url@, now as int),
    {
        let filter: Vec<Condition> = vec![
            Condition::is_text(Column::Url, url),
            Condition {
                column: Column::ExpiresAt,
                test: Test::Greater,
                value: Value::Integer(now),
            },
        ];
        assert(filter.deep_view() =~= seq![is_text(Column::Url, url@), expires_after(now as int)]);
        Query::Select {
            table: Table::Summaries,
            columns: columns(),
            filter,
            order: Order::Unordered,
            limit: None,
        }
    }

    /// The summary of the answer, if it has one.
    pub fn get_cached_summary_reply(url: &str, answer: &Answer) -> (r: Result<
        Option<SummaryRow>,
        NoteDeckError,
    >)
        ensures
            seen(r) == summary_reply(url@, answer@),
    {
        if answer.rows.len() > 0 {
            assert(answer@.rows[0] == answer.rows[0].deep_view());
            match row_to_summary(url, &answer.rows[0]) {
                Ok(row) => Ok(Some(row)),
                Err(e) => Err(e),
            }
        } else {
            match &answer.failure {
                Some(e) => Err(e.copied()),
                None => Ok(None),
            }
        }
    }

    /// Up to `limit` summaries that are still good at `now`.
    pub fn load_summary_cache(limit: usize, now: i64) -> (r: Query)
        ensures
            r@ == summaries_query(now as int, signed(limit)),
    {
        let filter: Vec<Condition> = vec![
            Condition {
                column: Column::ExpiresAt,
                test: Test::Greater,
                value: Value::Integer(now),
            },
        ];
        assert(filter.deep_view() =~= seq![expires_after(now as int)]);
        let mut all: Vec<Column> = vec![Column::Url];
        let mut rest = columns();
        all.append(&mut rest);
        assert(all@ =~= summary_columns_with_url());
        Query::Select {
            table: Table::Summaries,
            columns: all,
            filter,
            order: Order::Unordered,
            limit: Some(to_signed(limit)),
        }
    }

    /// All summaries of the answer.
    pub fn load_summary_cache_reply(answer: &Answer) -> (r: Result<Vec<SummaryRow>, NoteDeckError>)
        ensures
            seen(r) == answer@.all::<SummaryRow>(),
    {
        answer.all::<SummaryRow>()
    }

    /// Deletes the summaries that are not good beyond `now`.
    pub fn cleanup_expired_ogp(now: i64) -> (r: Statement)
        ensures
            r@ == (StatementView::Delete {
                table: Table::Summaries,
                filter: seq![expired_by(now as int)],
            }),
    {
        let filter: Vec<Condition> = vec![
            Condition { column: Column::ExpiresAt, test: Test::AtMost, value: Value::Integer(now) },
        ];
        assert(filter.deep_view() =~= seq![expired_by(now as int)]);
        Statement::Delete { table: Table::Summaries, filter }
    }

    /// Deletes all summaries, good or not.
    pub fn clear_ogp_cache() -> (r: Statement)
        ensures
            r@ == (StatementView::Delete { table: Table::Summaries, filter: Seq::empty() }),
    {
        let filter: Vec<Condition> = Vec::new();
        assert(filter.deep_view() =~= Seq::<ConditionView>::empty());
        Statement::Delete { table: Table::Summaries, filter }
    }
}

} // verus!
