//! The record of merge verdicts.

use crate::store::error::{
    Result, StoreError, format_rfc3339, is_stored_time, is_time_failure, parse_rfc3339,
    unwritable_text,
};
use crate::store::statement::{Command, Statement, command, integer, nullable, text};
use crate::text::{i64_text, int_text, opt_text};
use crate::timestamp::Timestamp;
use vstd::prelude::*;

verus! {

/// Records a verdict.
pub const INSERT_MERGE_AUDIT: &'static str = "INSERT INTO merge_audit (
    loser_id, survivor_id, loser_kind, loser_name,
    loser_description, verdict, reason, confirmed_by,
    edges_moved, self_loops_dropped, edges_deduped,
    snapshot, created_at
 ) VALUES (?1, ?2, ?3, ?4, ?5, ?6, ?7, ?8, ?9, ?10, ?11, ?12, ?13)";

/// Every verdict, oldest first.
pub const SELECT_MERGE_AUDIT: &'static str =
    "SELECT id, loser_id, survivor_id, loser_kind, loser_name,
    loser_description, verdict, reason, confirmed_by,
    edges_moved, self_loops_dropped, edges_deduped,
    snapshot, rolled_back, created_at
 FROM merge_audit ORDER BY id";

/// One verdict.
pub const SELECT_MERGE_AUDIT_BY_ID: &'static str =
    "SELECT id, loser_id, survivor_id, loser_kind, loser_name,
    loser_description, verdict, reason, confirmed_by,
    edges_moved, self_loops_dropped, edges_deduped,
    snapshot, rolled_back, created_at
 FROM merge_audit WHERE id = ?1";

/// Marks a merge rolled back.
pub const MARK_MERGE_ROLLED_BACK: &'static str =
    "UPDATE merge_audit SET rolled_back = 1 WHERE id = ?1";

/// Fills the outcome of a planned merge in.
pub const UPDATE_MERGE_OUTCOME: &'static str = "UPDATE merge_audit SET snapshot = ?2, reason = ?3,
    edges_moved = ?4, self_loops_dropped = ?5, edges_deduped = ?6
 WHERE id = ?1";

/// A row of the `merge_audit` table. Inserting it leaves `id`, `rolled_back` and
/// `created_at` to the database and the clock.
#[derive(Debug, Clone, PartialEq, Eq)]
pub struct MergeAuditRow {
    pub id: i64,
    /// The node that was merged away, or would have been.
    pub loser_id: String,
    pub survivor_id: String,
    pub loser_kind: String,
    pub loser_name: String,
    pub loser_description: Option<String>,
    /// `same`, `related` or `different`.
    pub verdict: String,
    /// The justification of the verdict.
    pub reason: String,
    /// Who confirmed the verdict.
    pub confirmed_by: String,
    /// Edges that moved from the loser to the survivor.
    pub edges_moved: u32,
    /// Edges between both nodes, which were dropped.
    pub self_loops_dropped: u32,
    /// Edges that the survivor already had.
    pub edges_deduped: u32,
    /// The source of a rollback, for a merge.
    pub snapshot: Option<String>,
    /// Whether the merge was rolled back.
    pub rolled_back: bool,
    pub created_at: Timestamp,
}

/// The columns of a row as they are stored.
#[derive(Debug, Clone, PartialEq, Eq)]
pub struct MergeAuditRecord {
    pub id: i64,
    pub loser_id: String,
    pub survivor_id: String,
    pub loser_kind: String,
    pub loser_name: String,
    pub loser_description: Option<String>,
    pub verdict: String,
    pub reason: String,
    pub confirmed_by: String,
    pub edges_moved: u32,
    pub self_loops_dropped: u32,
    pub edges_deduped: u32,
    pub snapshot: Option<String>,
    pub rolled_back: bool,
    pub created_at: String,
}

impl MergeAuditRow {
    /// The statement that records the verdict at a time.
    pub open spec fn command(self, stamp: Seq<char>) -> Command {
        command(
            INSERT_MERGE_AUDIT,
            seq![
                text(self.loser_id@),
                text(self.survivor_id@),
                text(self.loser_kind@),
                text(self.loser_name@),
                nullable(self.loser_description),
                text(self.verdict@),
                text(self.reason@),
                text(self.confirmed_by@),
                integer(self.edges_moved as int),
                integer(self.self_loops_dropped as int),
                integer(self.edges_deduped as int),
                nullable(self.snapshot),
                text(stamp),
            ],
        )
    }
}

/// Records a verdict.
pub fn insert_merge_audit(row: &MergeAuditRow, now: &Timestamp) -> (r: Result<Statement>)
    ensures
        match r {
            Ok(statement) => now.writable() && statement@ == row.command(now.text()),
            Err(error) => !now.writable() && error.is_sqlite(unwritable_text(*now)),
        },
{
    let stamp = match format_rfc3339(now) {
        Ok(stamp) => stamp,
        Err(error) => {
            return Err(error);
        },
    };
    let statement = Statement::new(INSERT_MERGE_AUDIT).with_text(row.loser_id.as_str()).with_text(
        row.survivor_id.as_str(),
    ).with_text(row.loser_kind.as_str()).with_text(row.loser_name.as_str()).with_nullable(
        &row.loser_description,
    ).with_text(row.verdict.as_str()).with_text(row.reason.as_str()).with_text(
        row.confirmed_by.as_str(),
    ).with_integer(row.edges_moved as i64).with_integer(row.self_loops_dropped as i64).with_integer(
        row.edges_deduped as i64,
    ).with_nullable(&row.snapshot).with_text(stamp.as_str());
    assert(statement@.params =~= row.command(now.text()).params);
    Ok(statement)
}

/// Every verdict, oldest first.
pub fn list_merge_audit() -> (r: Statement)
    ensures
        r@ == command(SELECT_MERGE_AUDIT, seq![]),
{
    Statement::new(SELECT_MERGE_AUDIT)
}

/// One verdict.
pub fn get_merge_audit(id: i64) -> (r: Statement)
    ensures
        r@ == command(SELECT_MERGE_AUDIT_BY_ID, seq![integer(id as int)]),
{
    Statement::new(SELECT_MERGE_AUDIT_BY_ID).with_integer(id)
}

/// Marks a merge rolled back; `require_merge_audit` judges the outcome.
pub fn mark_merge_rolled_back(id: i64) -> (r: Statement)
    ensures
        r@ == command(MARK_MERGE_ROLLED_BACK, seq![integer(id as int)]),
{
    Statement::new(MARK_MERGE_ROLLED_BACK).with_integer(id)
}

/// Fills the outcome of a planned merge in; `require_merge_audit` judges the outcome.
pub fn update_merge_audit_outcome(
    id: i64,
    snapshot_json: &str,
    reason: &str,
    edges_moved: u32,
    self_loops_dropped: u32,
    edges_deduped: u32,
) -> (r: Statement)
    ensures
        r@ == command(
            UPDATE_MERGE_OUTCOME,
            seq![
                integer(id as int),
                text(snapshot_json@),
                text(reason@),
                integer(edges_moved as int),
                integer(self_loops_dropped as int),
                integer(edges_deduped as int),
            ],
        ),
{
    Statement::new(UPDATE_MERGE_OUTCOME).with_integer(id).with_text(snapshot_json).with_text(
        reason,
    ).with_integer(edges_moved as i64).with_integer(self_loops_dropped as i64).with_integer(
        edges_deduped as i64,
    )
}

/// Judges an update of one verdict by the number of rows it changed: a verdict that
/// does not exist is an error.
pub fn require_merge_audit(updated: usize, id: i64) -> (r: Result<()>)
    ensures
        match r {
            Ok(()) => updated > 0,
            Err(error) => updated == 0 && error.is_invalid(
                "merge_audit_id"@,
                "no merge_audit row with id "@ + int_text(id as int),
            ),
        },
{
    if updated == 0 {
        Err(
            StoreError::InvalidValue {
                key: "merge_audit_id".to_owned(),
                value: "no merge_audit row with id ".to_owned().concat(i64_text(id).as_str()),
            },
        )
    } else {
        Ok(())
    }
}

impl MergeAuditRecord {
    /// Whether the stored columns are those of the row.
    pub open spec fn holds(self, row: MergeAuditRow) -> bool {
        &&& row.id == self.id
        &&& row.loser_id@ == self.loser_id@
        &&& row.survivor_id@ == self.survivor_id@
        &&& row.loser_kind@ == self.loser_kind@
        &&& row.loser_name@ == self.loser_name@
        &&& opt_text(row.loser_description) == opt_text(self.loser_description)
        &&& row.verdict@ == self.verdict@
        &&& row.reason@ == self.reason@
        &&& row.confirmed_by@ == self.confirmed_by@
        &&& row.edges_moved == self.edges_moved
        &&& row.self_loops_dropped == self.self_loops_dropped
        &&& row.edges_deduped == self.edges_deduped
        &&& opt_text(row.snapshot) == opt_text(self.snapshot)
        &&& row.rolled_back == self.rolled_back
        &&& is_stored_time(self.created_at@, row.created_at)
    }
}

/// Reads a verdict.
pub fn merge_audit_row(record: MergeAuditRecord) -> (r: Result<MergeAuditRow>)
    ensures
        match r {
            Ok(row) => record.holds(row),
            Err(error) => is_time_failure(record.created_at@, error),
        },
{
    match parse_rfc3339(record.created_at.as_str()) {
        Ok(created_at) => Ok(
            MergeAuditRow {
                id: record.id,
                loser_id: record.loser_id,
                survivor_id: record.survivor_id,
                loser_kind: record.loser_kind,
                loser_name: record.loser_name,
                loser_description: record.loser_description,
                verdict: record.verdict,
                reason: record.reason,
                confirmed_by: record.confirmed_by,
                edges_moved: record.edges_moved,
                self_loops_dropped: record.self_loops_dropped,
                edges_deduped: record.edges_deduped,
                snapshot: record.snapshot,
                rolled_back: record.rolled_back,
                created_at,
            },
        ),
        Err(error) => Err(error),
    }
}

} // verus!
