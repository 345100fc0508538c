//! Injected memories and context summaries.

use crate::store::error::{Result, format_rfc3339, unwritable_text};
use crate::store::statement::{Statement, command, integer, text};
use crate::timestamp::Timestamp;
use vstd::prelude::*;

verus! {

/// Records an injected memory.
pub const INSERT_INJECTED_MEMORY: &'static str = "INSERT INTO injected_memories
    (edge_id, injection_position, range_tag, content, created_at)
 VALUES (?1, ?2, ?3, ?4, ?5)";

/// Every injected memory, oldest first.
pub const SELECT_INJECTED_MEMORIES: &'static str =
    "SELECT id, edge_id, injection_position, range_tag, content
 FROM injected_memories ORDER BY id";

/// Removes the memories injected at or before a row.
pub const DELETE_INJECTED_MEMORIES: &'static str =
    "DELETE FROM injected_memories WHERE injection_position <= ?1";

/// The summary of a range.
pub const SELECT_CONTEXT_SUMMARY: &'static str = "SELECT id, first_msg_id, last_msg_id, content
 FROM context_summaries
 WHERE first_msg_id = ?1 AND last_msg_id = ?2";

/// The identifier of the summary of a range.
pub const SELECT_CONTEXT_SUMMARY_ID: &'static str = "SELECT id FROM context_summaries
 WHERE first_msg_id = ?1 AND last_msg_id = ?2";

/// Records the summary of a range; an existing one stays.
pub const INSERT_CONTEXT_SUMMARY: &'static str = "INSERT OR IGNORE INTO context_summaries
    (first_msg_id, last_msg_id, content, created_at)
 VALUES (?1, ?2, ?3, ?4)";

/// The newest summaries, newest first.
pub const SELECT_NEWEST_CONTEXT_SUMMARIES: &'static str =
    "SELECT id, first_msg_id, last_msg_id, content
 FROM context_summaries ORDER BY id DESC LIMIT ?1";

/// A row of the `injected_memories` table.
#[derive(Debug, Clone, PartialEq, Eq)]
pub struct InjectedMemoryRow {
    pub id: i64,
    pub edge_id: String,
    /// The log row after which the memory was injected.
    pub injection_position: i64,
    /// The range of the current chunk.
    pub range_tag: String,
    /// The rendered text.
    pub content: String,
}

/// A row of the `context_summaries` table: the summary of the log rows after
/// `first_msg_id` up to `last_msg_id`.
#[derive(Debug, Clone, PartialEq, Eq)]
pub struct ContextSummaryRow {
    pub id: i64,
    /// The row before the range.
    pub first_msg_id: i64,
    /// The last row of the range.
    pub last_msg_id: i64,
    pub content: String,
}

/// Records an injected memory.
pub fn insert_injected_memory(
    edge_id: &str,
    injection_position: i64,
    range_tag: &str,
    content: &str,
    now: &Timestamp,
) -> (r: Result<Statement>)
    ensures
        match r {
            Ok(statement) => now.writable() && statement@ == command(
                INSERT_INJECTED_MEMORY,
                seq![
                    text(edge_id@),
                    integer(injection_position as int),
                    text(range_tag@),
                    text(content@),
                    text(now.text()),
                ],
            ),
            Err(error) => !now.writable() && error.is_sqlite(unwritable_text(*now)),
        },
{
    match format_rfc3339(now) {
        Ok(stamp) => Ok(
            Statement::new(INSERT_INJECTED_MEMORY).with_text(edge_id).with_integer(
                injection_position,
            ).with_text(range_tag).with_text(content).with_text(stamp.as_str()),
        ),
        Err(error) => Err(error),
    }
}

/// Every injected memory, oldest first.
pub fn list_injected_memories() -> (r: Statement)
    ensures
        r@ == command(SELECT_INJECTED_MEMORIES, seq![]),
{
    Statement::new(SELECT_INJECTED_MEMORIES)
}

/// Removes the memories injected at or before a row.
pub fn delete_injected_memories_up_to(msg_id: i64) -> (r: Statement)
    ensures
        r@ == command(DELETE_INJECTED_MEMORIES, seq![integer(msg_id as int)]),
{
    Statement::new(DELETE_INJECTED_MEMORIES).with_integer(msg_id)
}

/// The summary of a range.
pub fn find_context_summary(first_msg_id: i64, last_msg_id: i64) -> (r: Statement)
    ensures
        r@ == command(
            SELECT_CONTEXT_SUMMARY,
            seq![integer(first_msg_id as int), integer(last_msg_id as int)],
        ),
{
    Statement::new(SELECT_CONTEXT_SUMMARY).with_integer(first_msg_id).with_integer(last_msg_id)
}

/// Records the summary of a range, unless it has one.
pub fn insert_context_summary(
    first_msg_id: i64,
    last_msg_id: i64,
    content: &str,
    now: &Timestamp,
) -> (r: Result<Statement>)
    ensures
        match r {
            Ok(statement) => now.writable() && statement@ == command(
                INSERT_CONTEXT_SUMMARY,
                seq![
                    integer(first_msg_id as int),
                    integer(last_msg_id as int),
                    text(content@),
                    text(now.text()),
                ],
            ),
            Err(error) => !now.writable() && error.is_sqlite(unwritable_text(*now)),
        },
{
    match format_rfc3339(now) {
        Ok(stamp) => Ok(
            Statement::new(INSERT_CONTEXT_SUMMARY).with_integer(first_msg_id).with_integer(
                last_msg_id,
            ).with_text(content).with_text(stamp.as_str()),
        ),
        Err(error) => Err(error),
    }
}

/// Where the identifier of a recorded summary comes from.
#[derive(Debug, Clone, PartialEq, Eq)]
pub enum SummaryId {
    /// The insert made the row.
    New(i64),
    /// The range had a summary: this statement finds its identifier.
    Existing(Statement),
}

/// The identifier of the summary of a range, by the number of rows that the insert
/// wrote and the identifier of the row written last.
pub fn context_summary_id(
    first_msg_id: i64,
    last_msg_id: i64,
    written: usize,
    last_id: i64,
) -> (r: SummaryId)
    ensures
        match r {
            SummaryId::New(id) => written == 1 && id == last_id,
            SummaryId::Existing(statement) => written != 1 && statement@ == command(
                SELECT_CONTEXT_SUMMARY_ID,
                seq![integer(first_msg_id as int), integer(last_msg_id as int)],
            ),
        },
{
    if written == 1 {
        SummaryId::New(last_id)
    } else {
        SummaryId::Existing(
            Statement::new(SELECT_CONTEXT_SUMMARY_ID).with_integer(first_msg_id).with_integer(
                last_msg_id,
            ),
        )
    }
}

/// The newest summaries, newest first.
pub fn list_newest_context_summaries(limit: u32) -> (r: Statement)
    ensures
        r@ == command(SELECT_NEWEST_CONTEXT_SUMMARIES, seq![integer(limit as int)]),
{
    Statement::new(SELECT_NEWEST_CONTEXT_SUMMARIES).with_integer(limit as i64)
}

} // verus!
