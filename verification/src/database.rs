//! The database as its callers know it, and what its operations share.
//!
//! An operation of `Database` says what to send to the engine. Where the engine
//! answers, a second function, with `_reply` behind its name, says what the
//! operation returns for the answer.
use vstd::prelude::*;
use crate::decode::{seen, Answer};
use crate::error::{DatabaseErrorView, NoteDeckError, SQLITE_LOCKED};
use crate::sql::{Statement, StatementView};
use crate::tables::{transacted, Matching, Tables};

verus! {

/// The local database of a note client: accounts, detected servers, and the
/// caches of notes, page summaries and chat messages.
#[derive(Debug, Clone, Copy)]
pub struct Database;

/// Statements that take effect together or, where one of them fails, not at
/// all. They run in order.
#[derive(Debug, Clone)]
pub struct Transaction {
    pub statements: Vec<Statement>,
}

impl View for Transaction {
    type V = Seq<StatementView>;

    open spec fn view(&self) -> Seq<StatementView> {
        self.statements.deep_view()
    }
}

impl DeepView for Transaction {
    type V = Seq<StatementView>;

    open spec fn deep_view(&self) -> Seq<StatementView> {
        self.view()
    }
}

impl Transaction {
    /// Whether the transaction, where it ended in `outcome`, can have turned the
    /// tables `before` into `after`: by all of its statements where it succeeded,
    /// and not at all where it failed.
    pub open spec fn ended(
        self,
        outcome: Result<Seq<nat>, DatabaseErrorView>,
        before: Tables,
        after: Tables,
        m: Matching,
    ) -> bool {
        transacted(self@, outcome, before, after, m)
    }
}

/// The sum of some row counts.
pub open spec fn total(changed: Seq<usize>) -> int
    decreases changed.len(),
{
    if changed.len() == 0 {
        0
    } else {
        total(changed.drop_last()) + changed.last()
    }
}

proof fn lemma_total_grows(changed: Seq<usize>, n: int)
    requires
        0 <= n <= changed.len(),
    ensures
        0 <= total(changed.take(n)) <= total(changed),
    decreases changed.len(),
{
    if n == changed.len() {
        assert(changed.take(n) =~= changed);
        if n > 0 {
            lemma_total_grows(changed.drop_last(), n - 1);
        }
    } else {
        lemma_total_grows(changed.drop_last(), n);
        assert(changed.drop_last().take(n) =~= changed.take(n));
    }
}

impl Database {
    /// Whether the connection for reading can be used. It cannot once a thread
    /// has panicked while it held the connection.
    pub fn lock_read(poisoned: bool) -> (r: Result<(), NoteDeckError>)
        ensures
            poisoned ==> seen(r) == Err::<(), _>(
                DatabaseErrorView::SqliteFailure {
                    code: SQLITE_LOCKED,
                    message: Some("Reader lock poisoned"@),
                },
            ),
            !poisoned ==> r is Ok,
    {
        if poisoned {
            Err(NoteDeckError::sqlite(SQLITE_LOCKED, "Reader lock poisoned".to_owned()))
        } else {
            Ok(())
        }
    }

    /// Whether the connection for writing can be used. It cannot once a thread
    /// has panicked while it held the connection.
    pub fn lock_write(poisoned: bool) -> (r: Result<(), NoteDeckError>)
        ensures
            poisoned ==> seen(r) == Err::<(), _>(
                DatabaseErrorView::SqliteFailure {
                    code: SQLITE_LOCKED,
                    message: Some("Writer lock poisoned"@),
                },
            ),
            !poisoned ==> r is Ok,
    {
        if poisoned {
            Err(NoteDeckError::sqlite(SQLITE_LOCKED, "Writer lock poisoned".to_owned()))
        } else {
            Ok(())
        }
    }

    /// How many rows were deleted by statements that deleted `changed` rows
    /// each.
    pub fn total_deleted(changed: &Vec<usize>) -> (r: u64)
        requires
            total(changed@) <= u64::MAX,
        ensures
            r == total(changed@),
    {
        let mut sum: u64 = 0;
        let mut i: usize = 0;
        assert(changed@.take(0) =~= Seq::<usize>::empty());
        while i < changed.len()
            invariant
                i <= changed@.len(),
                total(changed@) <= u64::MAX,
                sum == total(changed@.take(i as int)),
            decreases changed@.len() - i,
        {
            proof {
                assert(changed@.take(i + 1).drop_last() =~= changed@.take(i as int));
                lemma_total_grows(changed@, i + 1);
            }
            sum += changed[i] as u64;
            i += 1;
        }
        assert(changed@.take(changed@.len() as int) =~= changed@);
        sum
    }

    /// The count that a counting query answers.
    pub fn count_reply(answer: &Answer) -> (r: Result<i64, NoteDeckError>)
        ensures
            seen(r) == answer@.one::<i64>(),
    {
        answer.one::<i64>()
    }
}

} // verus!
