//! The statements around one write transaction.

use vstd::prelude::*;

verus! {

/// Where a transaction stands.
#[derive(Debug, Clone, Copy, PartialEq, Eq, Structural)]
pub enum Transaction {
    /// The opening statement is next.
    Begin,
    /// The writes run.
    Writes,
    /// The commit is next.
    Commit,
    /// The checkpoint after the commit is next.
    Checkpoint,
    /// The rollback after a failed write is next.
    Rollback,
    /// The transaction is committed.
    Committed,
    /// The transaction is given up.
    Failed,
}

impl Transaction {
    /// Where the transaction stands after its step succeeded or failed: only a failed
    /// write is rolled back, and a failed rollback changes nothing.
    pub open spec fn next(self, succeeded: bool) -> Transaction {
        match self {
            Transaction::Begin => if succeeded {
                Transaction::Writes
            } else {
                Transaction::Failed
            },
            Transaction::Writes => if succeeded {
                Transaction::Commit
            } else {
                Transaction::Rollback
            },
            Transaction::Commit => if succeeded {
                Transaction::Checkpoint
            } else {
                Transaction::Failed
            },
            Transaction::Checkpoint => if succeeded {
                Transaction::Committed
            } else {
                Transaction::Failed
            },
            Transaction::Rollback => Transaction::Failed,
            Transaction::Committed => Transaction::Committed,
            Transaction::Failed => Transaction::Failed,
        }
    }

    /// The statement that the step runs.
    pub open spec fn statement_text(self) -> Option<Seq<char>> {
        match self {
            Transaction::Begin => Some("BEGIN TRANSACTION"@),
            Transaction::Commit => Some("COMMIT"@),
            Transaction::Checkpoint => Some("CHECKPOINT"@),
            Transaction::Rollback => Some("ROLLBACK"@),
            _ => None,
        }
    }

    /// Where the transaction stands after its step succeeded or failed.
    pub fn advance(self, succeeded: bool) -> (r: Transaction)
        ensures
            r == self.next(succeeded),
    {
        match self {
            Transaction::Begin => if succeeded {
                Transaction::Writes
            } else {
                Transaction::Failed
            },
            Transaction::Writes => if succeeded {
                Transaction::Commit
            } else {
                Transaction::Rollback
            },
            Transaction::Commit => if succeeded {
                Transaction::Checkpoint
            } else {
                Transaction::Failed
            },
            Transaction::Checkpoint => if succeeded {
                Transaction::Committed
            } else {
                Transaction::Failed
            },
            Transaction::Rollback => Transaction::Failed,
            Transaction::Committed => Transaction::Committed,
            Transaction::Failed => Transaction::Failed,
        }
    }

    /// The statement that the step runs; the writes and the end have none.
    pub fn statement(self) -> (r: Option<&'static str>)
        ensures
            match r {
                Some(text) => self.statement_text() == Some(text@),
                None => self.statement_text() is None,
            },
    {
        match self {
            Transaction::Begin => Some("BEGIN TRANSACTION"),
            Transaction::Commit => Some("COMMIT"),
            Transaction::Checkpoint => Some("CHECKPOINT"),
            Transaction::Rollback => Some("ROLLBACK"),
            _ => None,
        }
    }
}

/// A transaction whose steps all succeed is committed and then checkpointed.
pub proof fn law_success_commits()
    ensures
        Transaction::Begin.next(true).next(true).next(true).next(true) == Transaction::Committed,
        Transaction::Begin.next(true).next(true) == Transaction::Commit,
        Transaction::Begin.next(true).next(true).next(true) == Transaction::Checkpoint,
{
}

/// A failed write leads to the rollback and never to a commit.
pub proof fn law_failed_write_rolls_back(succeeded: bool)
    ensures
        Transaction::Writes.next(false) == Transaction::Rollback,
        Transaction::Writes.next(false).next(succeeded) == Transaction::Failed,
        Transaction::Failed.next(succeeded) == Transaction::Failed,
{
}

/// Each step is reached from the one before it, by its success, and from nothing else:
/// the rollback by a failed write alone, the commit by the writes, and the end by the
/// checkpoint.
pub proof fn law_steps_follow_each_other(step: Transaction, succeeded: bool)
    ensures
        step.next(succeeded) != Transaction::Begin,
        step.next(succeeded) == Transaction::Writes <==> step == Transaction::Begin && succeeded,
        step.next(succeeded) == Transaction::Commit <==> step == Transaction::Writes && succeeded,
        step.next(succeeded) == Transaction::Checkpoint <==> step == Transaction::Commit
            && succeeded,
        step.next(succeeded) == Transaction::Rollback <==> step == Transaction::Writes
            && !succeeded,
        step.next(succeeded) == Transaction::Committed <==> step == Transaction::Checkpoint
            && succeeded || step == Transaction::Committed,
{
}

/// Each statement is run by the step of its name, and by no other one.
pub proof fn law_statements(step: Transaction)
    ensures
        step.statement_text() == Some("BEGIN TRANSACTION"@) <==> step == Transaction::Begin,
        step.statement_text() == Some("COMMIT"@) <==> step == Transaction::Commit,
        step.statement_text() == Some("CHECKPOINT"@) <==> step == Transaction::Checkpoint,
        step.statement_text() == Some("ROLLBACK"@) <==> step == Transaction::Rollback,
        step.statement_text() is None <==> step == Transaction::Writes || step
            == Transaction::Committed || step == Transaction::Failed,
{
    reveal_strlit("BEGIN TRANSACTION");
    reveal_strlit("COMMIT");
    reveal_strlit("CHECKPOINT");
    reveal_strlit("ROLLBACK");
    assert("BEGIN TRANSACTION"@[0] == 'B');
    assert("COMMIT"@[0] == 'C' && "COMMIT"@[1] == 'O');
    assert("CHECKPOINT"@[0] == 'C' && "CHECKPOINT"@[1] == 'H');
    assert("ROLLBACK"@[0] == 'R');
}

} // verus!
