//! Calls for accounts.
use vstd::prelude::*;
use crate::accounts::account_values;
use crate::database::Database;
use crate::laws::calls::{
    any, gives, has_columns, holds_text, lemma_gives, lemma_removes, lemma_row_columns, lemma_sets,
    lemma_with, lemma_with_both, puts, removes, sets, with, with_both,
};
use crate::laws::rows::{lemma_row_of, lemma_runs_three};
use crate::records::Account;
use crate::sql::{is_text, AssignmentView, Order, Query, Statement};
use crate::tables::{row_of, runs, Matching, Row, Tables};
use crate::value::{Cell, Column, Table};

verus! {

/// The columns that are read of an account, in their order.
pub open spec fn read_columns() -> Seq<Column> {
    seq![
        Column::Id,
        Column::Host,
        Column::Token,
        Column::UserId,
        Column::Username,
        Column::DisplayName,
        Column::AvatarUrl,
        Column::Software,
    ]
}

/// Whether a row holds an account, all of it.
pub open spec fn holds_account(row: Row, account: Account) -> bool {
    &&& has_columns(row, read_columns())
    &&& row[Column::Id] == Cell::Text(account.id@)
    &&& row[Column::Host] == Cell::Text(account.host@)
    &&& row[Column::Token] == Cell::Text(account.token@)
    &&& row[Column::UserId] == Cell::Text(account.user_id@)
    &&& row[Column::Username] == Cell::Text(account.username@)
    &&& holds_text(row[Column::DisplayName], account.display_name)
    &&& holds_text(row[Column::AvatarUrl], account.avatar_url)
    &&& row[Column::Software] == Cell::Text(account.software@)
}

/// To store an account puts a row with all of it. An account with the same host
/// and user keeps its id and takes over the rest.
pub proof fn storing_an_account(
    account: Account,
    stored: Statement,
    before: Tables,
    after: Tables,
    changed: nat,
    m: Matching,
) -> (new: Row)
    requires
        call_ensures(Database::upsert_account, (&account,), stored),
        stored@.step(before, after, changed, m),
    ensures
        holds_account(new, account),
        puts(
            Table::Accounts,
            new,
            seq![Column::Host, Column::UserId],
            seq![
                Column::Token,
                Column::Username,
                Column::DisplayName,
                Column::AvatarUrl,
                Column::Software,
            ],
            before,
            after,
        ),
        changed == 1,
{
    let values = account_values(account@);
    let new = row_of(values);
    lemma_row_of(values);
    assert(values.map_values(|a: AssignmentView| a.column) =~= read_columns());
    lemma_row_columns(values, read_columns());
    assert(values[0].column == Column::Id);
    assert(values[1].column == Column::Host);
    assert(values[2].column == Column::Token);
    assert(values[3].column == Column::UserId);
    assert(values[4].column == Column::Username);
    assert(values[5].column == Column::DisplayName);
    assert(values[6].column == Column::AvatarUrl);
    assert(values[7].column == Column::Software);
    new
}

/// To load the accounts asks for all of them, in the order in which they were
/// first stored.
pub proof fn loading_accounts(
    asked: Query,
    tables: Tables,
    answer: Seq<Seq<Cell>>,
    m: Matching,
)
    requires
        call_ensures(Database::load_accounts, (), asked),
        asked@.answered(tables, answer, m),
    ensures
        gives(
            answer,
            tables[Table::Accounts],
            any(),
            read_columns(),
            Order::Written,
            None,
        ),
{
    lemma_gives(asked@, any(), tables, answer, m);
}

/// To get an account asks for the one with this id.
pub proof fn getting_an_account(
    id: &str,
    asked: Query,
    tables: Tables,
    answer: Seq<Seq<Cell>>,
    m: Matching,
)
    requires
        call_ensures(Database::get_account, (id,), asked),
        asked@.answered(tables, answer, m),
    ensures
        gives(
            answer,
            tables[Table::Accounts],
            with(Column::Id, id@),
            read_columns(),
            Order::Unordered,
            None,
        ),
{
    lemma_with(asked@->Select_filter, Column::Id, id@, m);
    lemma_gives(asked@, with(Column::Id, id@), tables, answer, m);
}

/// To get an account by its host asks for one on this host.
pub proof fn getting_an_account_by_host(
    host: &str,
    asked: Query,
    tables: Tables,
    answer: Seq<Seq<Cell>>,
    m: Matching,
)
    requires
        call_ensures(Database::get_account_by_host, (host,), asked),
        asked@.answered(tables, answer, m),
    ensures
        gives(
            answer,
            tables[Table::Accounts],
            with(Column::Host, host@),
            read_columns(),
            Order::Unordered,
            Some(1),
        ),
{
    lemma_with(asked@->Select_filter, Column::Host, host@, m);
    lemma_gives(asked@, with(Column::Host, host@), tables, answer, m);
}

/// To get an account by its host and user asks for the one of this user on this
/// host.
pub proof fn getting_an_account_by_host_and_user(
    host: &str,
    user_id: &str,
    asked: Query,
    tables: Tables,
    answer: Seq<Seq<Cell>>,
    m: Matching,
)
    requires
        call_ensures(Database::get_account_by_host_user, (host, user_id), asked),
        asked@.answered(tables, answer, m),
    ensures
        gives(
            answer,
            tables[Table::Accounts],
            with_both(Column::Host, host@, Column::UserId, user_id@),
            read_columns(),
            Order::Unordered,
            None,
        ),
{
    lemma_with_both(asked@->Select_filter, Column::Host, host@, Column::UserId, user_id@, m);
    lemma_gives(
        asked@,
        with_both(Column::Host, host@, Column::UserId, user_id@),
        tables,
        answer,
        m,
    );
}

/// To clear a token empties the token of the account with this id.
pub proof fn clearing_a_token(
    id: &str,
    cleared: Statement,
    before: Tables,
    after: Tables,
    changed: nat,
    m: Matching,
)
    requires
        call_ensures(Database::clear_token, (id,), cleared),
        cleared@.step(before, after, changed, m),
    ensures
        sets(
            Table::Accounts,
            with(Column::Id, id@),
            Column::Token,
            Cell::Text(Seq::empty()),
            before,
            after,
            changed,
        ),
{
    reveal_strlit("");
    assert(""@ =~= Seq::<char>::empty());
    lemma_with(cleared@->Update_filter, Column::Id, id@, m);
    lemma_sets(
        Table::Accounts,
        cleared@->Update_change,
        cleared@->Update_filter,
        with(Column::Id, id@),
        before,
        after,
        changed,
        m,
    );
}

/// To delete an account removes its notes, its messages and itself, one after
/// the other.
pub proof fn deleting_an_account(
    id: &str,
    deleted: Vec<Statement>,
    before: Tables,
    after: Tables,
    changed: Seq<nat>,
    m: Matching,
) -> (r: (Tables, Tables))
    requires
        call_ensures(Database::delete_account, (id,), deleted),
        runs(deleted.deep_view(), before, after, changed, m),
    ensures
        changed.len() == 3,
        removes(Table::Notes, with(Column::AccountId, id@), before, r.0, changed[0]),
        removes(Table::Messages, with(Column::AccountId, id@), r.0, r.1, changed[1]),
        removes(Table::Accounts, with(Column::Id, id@), r.1, after, changed[2]),
{
    let batch = deleted.deep_view();
    assert(batch =~= seq![batch[0], batch[1], batch[2]]);
    let (first, second) = lemma_runs_three(batch[0], batch[1], batch[2], before, after, changed, m);
    let by_account = seq![is_text(Column::AccountId, id@)];
    let by_id = seq![is_text(Column::Id, id@)];
    let cached = with(Column::AccountId, id@);
    lemma_with(by_account, Column::AccountId, id@, m);
    lemma_with(by_id, Column::Id, id@, m);
    lemma_removes(Table::Notes, by_account, cached, before, first, changed[0], m);
    lemma_removes(Table::Messages, by_account, cached, first, second, changed[1], m);
    lemma_removes(
        Table::Accounts,
        by_id,
        with(Column::Id, id@),
        second,
        after,
        changed[2],
        m,
    );
    (first, second)
}

} // verus!
