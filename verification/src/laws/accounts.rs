//! What is stored of an account is what is found of it.
use vstd::prelude::*;
use crate::accounts::{
    account_columns, account_deletion, account_query, account_upsert, account_values,
    token_clearing,
};
use crate::decode::{account_in, complete};
use crate::error::DatabaseErrorView;
use crate::laws::rows::{
    lemma_filter_from, lemma_none_answered, lemma_one_answered, lemma_overwritten, lemma_row_of,
    lemma_runs_three, lemma_select_all, lemma_unselected, lemma_upserted_found,
};
use crate::records::{Account, AccountView};
use crate::sql::{is_text, Order, QueryView};
use crate::tables::{
    agree, distinct, has_key, key_of, keyed, meets, overwritten, projected, projections, row_of,
    runs, selected, Matching, Row, Tables,
};
use crate::value::{optional_text, Cell, Column, Table};

verus! {

/// The query for the account of a user on a host.
pub open spec fn account_of(host: Seq<char>, user_id: Seq<char>) -> QueryView {
    account_query(
        seq![is_text(Column::Host, host), is_text(Column::UserId, user_id)],
        Order::Unordered,
        None,
    )
}

/// The query for all accounts.
pub open spec fn all_accounts() -> QueryView {
    account_query(Seq::empty(), Order::Written, None)
}

proof fn lemma_account_row(a: AccountView)
    ensures
        ({
            let row = row_of(account_values(a));
            &&& row[Column::Id] == Cell::Text(a.id)
            &&& row[Column::Host] == Cell::Text(a.host)
            &&& row[Column::Token] == Cell::Text(a.token)
            &&& row[Column::UserId] == Cell::Text(a.user_id)
            &&& row[Column::Username] == Cell::Text(a.username)
            &&& row[Column::DisplayName] == optional_text(a.display_name)
            &&& row[Column::AvatarUrl] == optional_text(a.avatar_url)
            &&& row[Column::Software] == Cell::Text(a.software)
        }),
{
    let values = account_values(a);
    lemma_row_of(values);
    assert(values[0].column == Column::Id);
    assert(values[1].column == Column::Host);
    assert(values[2].column == Column::Token);
    assert(values[3].column == Column::UserId);
    assert(values[4].column == Column::Username);
    assert(values[5].column == Column::DisplayName);
    assert(values[6].column == Column::AvatarUrl);
    assert(values[7].column == Column::Software);
}

proof fn lemma_account_filter(row: Row, a: AccountView, m: Matching)
    ensures
        meets(
            row,
            seq![is_text(Column::Host, a.host), is_text(Column::UserId, a.user_id)],
            m,
        ) <==> agree(row, row_of(account_values(a)), seq![Column::Host, Column::UserId]),
{
    lemma_account_row(a);
    let filter = seq![is_text(Column::Host, a.host), is_text(Column::UserId, a.user_id)];
    let key = seq![Column::Host, Column::UserId];
    let new = row_of(account_values(a));
    if meets(row, filter, m) {
        assert(filter[0].holds(row, m));
        assert(filter[1].holds(row, m));
    }
    if agree(row, new, key) {
        assert(row[key[0]] == new[key[0]]);
        assert(row[key[1]] == new[key[1]]);
    }
}

/// An account that was stored is found by its host and user, with all that was
/// stored. It has the id that it was first stored with.
pub proof fn a_stored_account_is_found(
    a: AccountView,
    before: Tables,
    after: Tables,
    changed: nat,
    found_before: Seq<Seq<Cell>>,
    found: Seq<Seq<Cell>>,
    m: Matching,
)
    requires
        keyed(before),
        account_upsert(a).step(before, after, changed, m),
        account_of(a.host, a.user_id).answered(before, found_before, m),
        account_of(a.host, a.user_id).answered(after, found, m),
        complete(found_before).first::<Account>() is Ok,
    ensures
        found.len() == 1,
        complete(found).first::<Account>() == Ok::<Option<AccountView>, DatabaseErrorView>(
            Some(
                match complete(found_before).first::<Account>()->Ok_0 {
                    Some(b) => AccountView { id: b.id, ..a },
                    None => a,
                },
            ),
        ),
{
    let rows = before[Table::Accounts];
    let new = row_of(account_values(a));
    let key = seq![Column::Host, Column::UserId];
    let update = seq![
        Column::Token,
        Column::Username,
        Column::DisplayName,
        Column::AvatarUrl,
        Column::Software,
    ];
    let filter = seq![is_text(Column::Host, a.host), is_text(Column::UserId, a.user_id)];
    assert(distinct(rows, key_of(Table::Accounts)));
    lemma_account_row(a);
    assert forall|row: Row| #[trigger] meets(row, filter, m) <==> agree(row, new, key) by {
        lemma_account_filter(row, a, m);
    }
    lemma_upserted_found(rows, new, key, update, filter, m);
    if has_key(rows, new, key) {
        let old_row = selected(rows, filter, m)[0];
        assert(selected(rows, filter, m) =~= seq![old_row]);
        lemma_one_answered(account_of(a.host, a.user_id), old_row, before, found_before, m);
        let new_row = overwritten(old_row, new, update);
        lemma_one_answered(account_of(a.host, a.user_id), new_row, after, found, m);
        lemma_account_overwritten(old_row, new, update);
        // The row was found by its host and user.
        lemma_filter_from(rows, |row: Row| meets(row, filter, m), 0);
        assert(agree(old_row, new, key));
        assert(old_row[key[0]] == new[key[0]]);
        assert(old_row[key[1]] == new[key[1]]);
    } else {
        lemma_none_answered(account_of(a.host, a.user_id), before, found_before, m);
        lemma_one_answered(account_of(a.host, a.user_id), new, after, found, m);
    }
}

proof fn lemma_account_overwritten(old_row: Row, new: Row, update: Seq<Column>)
    requires
        update == seq![
            Column::Token,
            Column::Username,
            Column::DisplayName,
            Column::AvatarUrl,
            Column::Software,
        ],
    ensures
        ({
            let row = overwritten(old_row, new, update);
            &&& row[Column::Id] == old_row[Column::Id]
            &&& row[Column::Host] == old_row[Column::Host]
            &&& row[Column::UserId] == old_row[Column::UserId]
            &&& row[Column::Token] == new[Column::Token]
            &&& row[Column::Username] == new[Column::Username]
            &&& row[Column::DisplayName] == new[Column::DisplayName]
            &&& row[Column::AvatarUrl] == new[Column::AvatarUrl]
            &&& row[Column::Software] == new[Column::Software]
        }),
{
    assert(update[0] == Column::Token);
    assert(update[1] == Column::Username);
    assert(update[2] == Column::DisplayName);
    assert(update[3] == Column::AvatarUrl);
    assert(update[4] == Column::Software);
    lemma_overwritten(old_row, new, update, Column::Id);
    lemma_overwritten(old_row, new, update, Column::Host);
    lemma_overwritten(old_row, new, update, Column::UserId);
    lemma_overwritten(old_row, new, update, Column::Token);
    lemma_overwritten(old_row, new, update, Column::Username);
    lemma_overwritten(old_row, new, update, Column::DisplayName);
    lemma_overwritten(old_row, new, update, Column::AvatarUrl);
    lemma_overwritten(old_row, new, update, Column::Software);
}

/// Accounts are loaded in the order in which they were first stored: a new one
/// comes last, and one that was stored before keeps its place and its id.
/// Nothing happens to the accounts of other users.
pub proof fn storing_keeps_the_order_of_accounts(
    a: AccountView,
    before: Tables,
    after: Tables,
    changed: nat,
    loaded_before: Seq<Seq<Cell>>,
    loaded: Seq<Seq<Cell>>,
    m: Matching,
)
    requires
        account_upsert(a).step(before, after, changed, m),
        all_accounts().answered(before, loaded_before, m),
        all_accounts().answered(after, loaded, m),
    ensures
        loaded.len() == loaded_before.len() || loaded.len() == loaded_before.len() + 1,
        loaded.len() == loaded_before.len() + 1 ==> account_in(loaded.last()) == Ok::<
            AccountView,
            DatabaseErrorView,
        >(a),
        forall|i: int|
            0 <= i < loaded_before.len() ==> (#[trigger] loaded[i])[0] == loaded_before[i][0],
        forall|i: int|
            0 <= i < loaded_before.len() && !(loaded_before[i][1] == Cell::Text(a.host)
                && loaded_before[i][3] == Cell::Text(a.user_id)) ==> #[trigger] loaded[i]
                == loaded_before[i],
{
    let rows = before[Table::Accounts];
    let new = row_of(account_values(a));
    let key = seq![Column::Host, Column::UserId];
    let update = seq![
        Column::Token,
        Column::Username,
        Column::DisplayName,
        Column::AvatarUrl,
        Column::Software,
    ];
    lemma_account_row(a);
    lemma_select_all(rows, m);
    lemma_select_all(after[Table::Accounts], m);
    assert(loaded_before =~= projections(rows, account_columns()));
    assert(loaded =~= projections(after[Table::Accounts], account_columns()));
    if !has_key(rows, new, key) {
        assert(loaded.last() == projected(new, account_columns()));
    }
    assert forall|i: int| 0 <= i < loaded_before.len() implies (#[trigger] loaded[i])[0]
        == loaded_before[i][0] by {
        lemma_account_overwritten(rows[i], new, update);
    }
    assert forall|i: int|
        0 <= i < loaded_before.len() && !(loaded_before[i][1] == Cell::Text(a.host)
            && loaded_before[i][3] == Cell::Text(a.user_id)) implies #[trigger] loaded[i]
        == loaded_before[i] by {
        if agree(rows[i], new, key) {
            assert(rows[i][key[0]] == new[key[0]]);
            assert(rows[i][key[1]] == new[key[1]]);
        }
    }
}

/// Clearing a token empties it, and nothing else: not another field, and not
/// another account's token.
pub proof fn clearing_a_token_empties_it_alone(
    id: Seq<char>,
    before: Tables,
    after: Tables,
    changed: nat,
    loaded_before: Seq<Seq<Cell>>,
    loaded: Seq<Seq<Cell>>,
    i: int,
    m: Matching,
)
    requires
        token_clearing(id).step(before, after, changed, m),
        all_accounts().answered(before, loaded_before, m),
        all_accounts().answered(after, loaded, m),
        0 <= i < loaded_before.len(),
        account_in(loaded_before[i]) is Ok,
    ensures
        loaded.len() == loaded_before.len(),
        account_in(loaded[i]) == Ok::<AccountView, DatabaseErrorView>(
            if account_in(loaded_before[i])->Ok_0.id == id {
                AccountView { token: ""@, ..account_in(loaded_before[i])->Ok_0 }
            } else {
                account_in(loaded_before[i])->Ok_0
            },
        ),
        forall|t: Table| t != Table::Accounts ==> #[trigger] after[t] == before[t],
{
    let rows = before[Table::Accounts];
    lemma_select_all(rows, m);
    lemma_select_all(after[Table::Accounts], m);
    assert(loaded_before =~= projections(rows, account_columns()));
    assert(loaded =~= projections(after[Table::Accounts], account_columns()));
    let filter = seq![is_text(Column::Id, id)];
    let row = rows[i];
    assert(loaded_before[i] == projected(row, account_columns()));
    assert(loaded[i] == projected(after[Table::Accounts][i], account_columns()));
    if meets(row, filter, m) {
        assert(filter[0].holds(row, m));
    } else {
        assert(!is_text(Column::Id, id).holds(row, m));
    }
}

/// Deleting an account deletes it, its notes and its messages. What belongs to
/// other accounts stays as it is, in its order, and so do the other tables.
pub proof fn deleting_an_account_purges_it(
    id: Seq<char>,
    before: Tables,
    after: Tables,
    changed: Seq<nat>,
    m: Matching,
)
    requires
        runs(account_deletion(id), before, after, changed, m),
    ensures
        after[Table::Accounts] == before[Table::Accounts].filter(
            |row: Row| row[Column::Id] != Cell::Text(id),
        ),
        after[Table::Notes] == before[Table::Notes].filter(
            |row: Row| row[Column::AccountId] != Cell::Text(id),
        ),
        after[Table::Messages] == before[Table::Messages].filter(
            |row: Row| row[Column::AccountId] != Cell::Text(id),
        ),
        after[Table::ServerDetections] == before[Table::ServerDetections],
        after[Table::Summaries] == before[Table::Summaries],
{
    let batch = account_deletion(id);
    let (first, second) = lemma_runs_three(batch[0], batch[1], batch[2], before, after, changed, m);
    lemma_unselected(before[Table::Notes], Column::AccountId, id, m);
    lemma_unselected(before[Table::Messages], Column::AccountId, id, m);
    lemma_unselected(before[Table::Accounts], Column::Id, id, m);
}

} // verus!
