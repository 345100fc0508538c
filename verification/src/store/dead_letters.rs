//! Failed batches, and the status of a group that reports them.

use crate::store::embeddings::{clamp, clamped};
use crate::store::error::{
    Result, format_rfc3339, is_stored_time, is_time_failure, parse_rfc3339, unwritable_text,
};
use crate::store::statement::{Statement, command, integer, text};
use crate::text::same_text;
use crate::timestamp::Timestamp;
use vstd::prelude::*;

verus! {

/// Records a failed batch.
pub const INSERT_DEAD_LETTER: &'static str = "INSERT INTO dead_letter
    (batch_id, batch_skeleton, error, created_at)
 VALUES (?1, ?2, ?3, ?4)";

/// Every failed batch, oldest first.
pub const SELECT_DEAD_LETTERS: &'static str =
    "SELECT id, batch_id, batch_skeleton, error, created_at
 FROM dead_letter ORDER BY id";

/// The newest failed batches, newest first.
pub const SELECT_RECENT_DEAD_LETTERS: &'static str =
    "SELECT id, batch_id, batch_skeleton, error, created_at
 FROM dead_letter ORDER BY id DESC LIMIT ?1";

/// The number of failed batches.
pub const COUNT_DEAD_LETTERS: &'static str = "SELECT COUNT(*) FROM dead_letter";

/// A row of the `dead_letter` table.
#[derive(Debug, Clone, PartialEq, Eq)]
pub struct DeadLetterRow {
    pub id: i64,
    pub batch_id: String,
    /// The JSON skeleton of the failed batch.
    pub batch_skeleton: String,
    pub error: String,
    pub created_at: Timestamp,
}

/// The columns of a row as they are stored.
#[derive(Debug, Clone, PartialEq, Eq)]
pub struct DeadLetterRecord {
    pub id: i64,
    pub batch_id: String,
    pub batch_skeleton: String,
    pub error: String,
    pub created_at: String,
}

/// The status of a group.
#[derive(Debug)]
pub struct GroupStatus {
    /// Every key of the session state with its value.
    pub state: Vec<(String, String)>,
    /// The number of failed batches.
    pub dead_letter_count: u64,
    /// The newest failed batches, newest first.
    pub recent_dead_letters: Vec<DeadLetterRow>,
}

/// Records a failed batch.
pub fn insert_dead_letter(
    batch_id: &str,
    batch_skeleton: &str,
    error: &str,
    now: &Timestamp,
) -> (r: Result<Statement>)
    ensures
        match r {
            Ok(statement) => now.writable() && statement@ == command(
                INSERT_DEAD_LETTER,
                seq![text(batch_id@), text(batch_skeleton@), text(error@), text(now.text())],
            ),
            Err(failure) => !now.writable() && failure.is_sqlite(unwritable_text(*now)),
        },
{
    match format_rfc3339(now) {
        Ok(stamp) => Ok(
            Statement::new(INSERT_DEAD_LETTER).with_text(batch_id).with_text(
                batch_skeleton,
            ).with_text(error).with_text(stamp.as_str()),
        ),
        Err(failure) => Err(failure),
    }
}

/// Every failed batch, oldest first.
pub fn list_dead_letters() -> (r: Statement)
    ensures
        r@ == command(SELECT_DEAD_LETTERS, seq![]),
{
    Statement::new(SELECT_DEAD_LETTERS)
}

/// The newest failed batches, newest first.
pub fn list_recent_dead_letters(limit: usize) -> (r: Statement)
    ensures
        r@ == command(SELECT_RECENT_DEAD_LETTERS, seq![integer(clamped(limit as int))]),
{
    Statement::new(SELECT_RECENT_DEAD_LETTERS).with_integer(clamp(limit))
}

/// The number of failed batches.
pub fn count_dead_letters() -> (r: Statement)
    ensures
        r@ == command(COUNT_DEAD_LETTERS, seq![]),
{
    Statement::new(COUNT_DEAD_LETTERS)
}

/// Reads a failed batch.
pub fn dead_letter_row(record: DeadLetterRecord) -> (r: Result<DeadLetterRow>)
    ensures
        match r {
            Ok(row) => {
                &&& row.id == record.id
                &&& row.batch_id@ == record.batch_id@
                &&& row.batch_skeleton@ == record.batch_skeleton@
                &&& row.error@ == record.error@
                &&& is_stored_time(record.created_at@, row.created_at)
            },
            Err(error) => is_time_failure(record.created_at@, error),
        },
{
    match parse_rfc3339(record.created_at.as_str()) {
        Ok(created_at) => Ok(
            DeadLetterRow {
                id: record.id,
                batch_id: record.batch_id,
                batch_skeleton: record.batch_skeleton,
                error: record.error,
                created_at,
            },
        ),
        Err(error) => Err(error),
    }
}

/// The status of a group, from what was read of it.
pub fn group_status(
    state: Vec<(String, String)>,
    count: i64,
    recent: Vec<DeadLetterRow>,
) -> (r: GroupStatus)
    ensures
        r.state@ == state@,
        r.dead_letter_count == (if count >= 0 {
            count as u64
        } else {
            u64::MAX
        }),
        r.recent_dead_letters@ == recent@,
{
    GroupStatus {
        state,
        dead_letter_count: if count >= 0 {
            count as u64
        } else {
            u64::MAX
        },
        recent_dead_letters: recent,
    }
}

impl GroupStatus {
    /// Whether the state holds the value under the key.
    pub open spec fn holds(self, key: Seq<char>, value: Seq<char>) -> bool {
        exists|i: int|
            0 <= i < self.state@.len() && (#[trigger] self.state@[i]).0@ == key
                && self.state@[i].1@ == value
    }

    /// The value under a key of the state.
    pub fn state_value(&self, key: &str) -> (r: Option<String>)
        ensures
            match r {
                Some(value) => self.holds(key@, value@),
                None => forall|value: Seq<char>| !self.holds(key@, value),
            },
    {
        let mut i: usize = 0;
        while i < self.state.len()
            invariant
                i <= self.state@.len(),
                forall|k: int| 0 <= k < i ==> (#[trigger] self.state@[k]).0@ != key@,
            decreases self.state@.len() - i,
        {
            if same_text(self.state[i].0.as_str(), key) {
                let value = self.state[i].1.clone();
                assert(self.state@[i as int].0@ == key@ && self.state@[i as int].1@ == value@);
                return Some(value);
            }
            i += 1;
        }
        None
    }
}

} // verus!
