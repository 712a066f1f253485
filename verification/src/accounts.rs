//! Accounts.
use vstd::prelude::*;
use crate::database::Database;
use crate::decode::{seen, Answer};
use crate::error::NoteDeckError;
use crate::records::{Account, AccountView};
use crate::sql::{
    assign, is_text, Assignment, AssignmentView, Condition, ConditionView, Order, Query, QueryView,
    Statement, StatementView,
};
use crate::value::{optional_text, Cell, Column, Table, Value};

verus! {

/// The columns of an account, in the order in which they are read.
pub open spec fn account_columns() -> Seq<Column> {
    seq![
        Column::Id,
        Column::Host,
        Column::Token,
        Column::UserId,
        Column::Username,
        Column::DisplayName,
        Column::AvatarUrl,
        Column::Software,
    ]
}

/// The query for accounts that meet `filter`.
pub open spec fn account_query(
    filter: Seq<ConditionView>,
    order: Order,
    limit: Option<int>,
) -> QueryView {
    QueryView::Select { table: Table::Accounts, columns: account_columns(), filter, order, limit }
}

/// What each column of an account's row holds.
pub open spec fn account_values(a: AccountView) -> Seq<AssignmentView> {
    seq![
        assign(Column::Id, Cell::Text(a.id)),
        assign(Column::Host, Cell::Text(a.host)),
        assign(Column::Token, Cell::Text(a.token)),
        assign(Column::UserId, Cell::Text(a.user_id)),
        assign(Column::Username, Cell::Text(a.username)),
        assign(Column::DisplayName, optional_text(a.display_name)),
        assign(Column::AvatarUrl, optional_text(a.avatar_url)),
        assign(Column::Software, Cell::Text(a.software)),
    ]
}

/// The statement that stores an account. One with the same host and user is
/// the same account: it keeps its id and takes over the rest.
pub open spec fn account_upsert(a: AccountView) -> StatementView {
    StatementView::Upsert {
        table: Table::Accounts,
        values: account_values(a),
        key: seq![Column::Host, Column::UserId],
        update: seq![
            Column::Token,
            Column::Username,
            Column::DisplayName,
            Column::AvatarUrl,
            Column::Software,
        ],
    }
}

/// The statement that empties the token of the account `id`.
pub open spec fn token_clearing(id: Seq<char>) -> StatementView {
    StatementView::Update {
        table: Table::Accounts,
        change: assign(Column::Token, Cell::Text(""@)),
        filter: seq![is_text(Column::Id, id)],
    }
}

/// The statement that deletes the rows of `table` with `column` holding `s`.
pub open spec fn deletion_by(table: Table, column: Column, s: Seq<char>) -> StatementView {
    StatementView::Delete { table, filter: seq![is_text(column, s)] }
}

/// The statements that delete the account `id` with all that is cached for it.
pub open spec fn account_deletion(id: Seq<char>) -> Seq<StatementView> {
    seq![
        deletion_by(Table::Notes, Column::AccountId, id),
        deletion_by(Table::Messages, Column::AccountId, id),
        deletion_by(Table::Accounts, Column::Id, id),
    ]
}

/// Makes the statement that deletes the rows of `table` with `column` holding
/// `s`.
pub(crate) fn delete_by(table: Table, column: Column, s: &str) -> (r: Statement)
    ensures
        r@ == deletion_by(table, column, s@),
{
    let r = Statement::Delete { table, filter: vec![Condition::is_text(column, s)] };
    assert(r@ =~= deletion_by(table, column, s@));
    r
}

fn query(filter: Vec<Condition>, order: Order, limit: Option<i64>) -> (r: Query)
    ensures
        r@ == account_query(
            filter.deep_view(),
            order,
            match limit {
                Some(n) => Some(n as int),
                None => None,
            },
        ),
{
    let columns: Vec<Column> = vec![
        Column::Id,
        Column::Host,
        Column::Token,
        Column::UserId,
        Column::Username,
        Column::DisplayName,
        Column::AvatarUrl,
        Column::Software,
    ];
    assert(columns@ =~= account_columns());
    Query::Select { table: Table::Accounts, columns, filter, order, limit }
}

impl Database {
    /// All accounts, in the order in which they were first stored.
    pub fn load_accounts() -> (r: Query)
        ensures
            r@ == account_query(Seq::empty(), Order::Written, None),
    {
        let none: Vec<Condition> = Vec::new();
        assert(none.deep_view() =~= Seq::<ConditionView>::empty());
        query(none, Order::Written, None)
    }

    /// All accounts of the answer.
    pub fn load_accounts_reply(answer: &Answer) -> (r: Result<Vec<Account>, NoteDeckError>)
        ensures
            seen(r) == answer@.all::<Account>(),
    {
        answer.all::<Account>()
    }

    /// Stores an account, or updates the one with the same host and user.
    pub fn upsert_account(account: &Account) -> (r: Statement)
        ensures
            r@ == account_upsert(account@),
    {
        let values: Vec<Assignment> = vec![
            Assignment::new(Column::Id, Value::text(account.id.as_str())),
            Assignment::new(Column::Host, Value::text(account.host.as_str())),
            Assignment::new(Column::Token, Value::text(account.token.as_str())),
            Assignment::new(Column::UserId, Value::text(account.user_id.as_str())),
            Assignment::new(Column::Username, Value::text(account.username.as_str())),
            Assignment::new(Column::DisplayName, Value::optional_text(&account.display_name)),
            Assignment::new(Column::AvatarUrl, Value::optional_text(&account.avatar_url)),
            Assignment::new(Column::Software, Value::text(account.software.as_str())),
        ];
        assert(values.deep_view() =~= account_values(account@));
        let r = Statement::Upsert {
            table: Table::Accounts,
            values,
            key: vec![Column::Host, Column::UserId],
            update: vec![
                Column::Token,
                Column::Username,
                Column::DisplayName,
                Column::AvatarUrl,
                Column::Software,
            ],
        };
        assert(r@ =~= account_upsert(account@));
        r
    }

    /// The account with this id.
    pub fn get_account(id: &str) -> (r: Query)
        ensures
            r@ == account_query(seq![is_text(Column::Id, id@)], Order::Unordered, None),
    {
        let filter: Vec<Condition> = vec![Condition::is_text(Column::Id, id)];
        assert(filter.deep_view() =~= seq![is_text(Column::Id, id@)]);
        query(filter, Order::Unordered, None)
    }

    /// An account on this host.
    pub fn get_account_by_host(host: &str) -> (r: Query)
        ensures
            r@ == account_query(seq![is_text(Column::Host, host@)], Order::Unordered, Some(1)),
    {
        let filter: Vec<Condition> = vec![Condition::is_text(Column::Host, host)];
        assert(filter.deep_view() =~= seq![is_text(Column::Host, host@)]);
        query(filter, Order::Unordered, Some(1))
    }

    /// The account of this user on this host.
    pub fn get_account_by_host_user(host: &str, user_id: &str) -> (r: Query)
        ensures
            r@ == account_query(
                seq![is_text(Column::Host, host@), is_text(Column::UserId, user_id@)],
                Order::Unordered,
                None,
            ),
    {
        let filter: Vec<Condition> = vec![
            Condition::is_text(Column::Host, host),
            Condition::is_text(Column::UserId, user_id),
        ];
        assert(filter.deep_view() =~= seq![
            is_text(Column::Host, host@),
            is_text(Column::UserId, user_id@),
        ]);
        query(filter, Order::Unordered, None)
    }

    /// The account of the answer to a query for one account, if it has one.
    pub fn get_account_reply(answer: &Answer) -> (r: Result<Option<Account>, NoteDeckError>)
        ensures
            seen(r) == answer@.first::<Account>(),
    {
        answer.first::<Account>()
    }

    /// Empties the stored token, for when it is kept elsewhere.
    pub fn clear_token(id: &str) -> (r: Statement)
        ensures
            r@ == token_clearing(id@),
    {
        let r = Statement::Update {
            table: Table::Accounts,
            change: Assignment::new(Column::Token, Value::text("")),
            filter: vec![Condition::is_text(Column::Id, id)],
        };
        assert(r@ =~= token_clearing(id@));
        r
    }

    /// Deletes an account with its notes and chat messages, one statement
    /// after the other.
    pub fn delete_account(id: &str) -> (r: Vec<Statement>)
        ensures
            r.deep_view() == account_deletion(id@),
    {
        let r: Vec<Statement> = vec![
            delete_by(Table::Notes, Column::AccountId, id),
            delete_by(Table::Messages, Column::AccountId, id),
            delete_by(Table::Accounts, Column::Id, id),
        ];
        assert(r.deep_view() =~= account_deletion(id@));
        r
    }
}

} // verus!
