//! The queue of nodes whose content is to be embedded.
//!
//! A pair of a node and a content hash is queued once. A worker claims pending
//! pairs and marks each done or failed; a pair that failed too often is given up
//! until it is queued again.

use crate::store::embeddings::{clamp, clamped};
use crate::store::error::{Result, format_rfc3339, unwritable_text};
use crate::store::statement::{Command, Statement, command, commands, integer, text};
use crate::timestamp::Timestamp;
use vstd::prelude::*;

verus! {

/// The number of failed attempts after which a pair is given up.
pub const MAX_EMBEDDING_ATTEMPTS: u32 = 3;

/// Queues a pair, again where it was given up.
pub const ENQUEUE_EMBEDDING: &'static str = "INSERT INTO pending_embeddings
    (node_id, content_hash, created_at, updated_at)
 VALUES (?1, ?2, ?3, ?3)
 ON CONFLICT (node_id, content_hash) DO UPDATE
    SET status = 'pending', attempts = 0
    WHERE status = 'failed'";

/// The oldest pending pairs.
pub const CLAIM_EMBEDDINGS: &'static str = "SELECT id, node_id, content_hash, attempts
 FROM pending_embeddings
 WHERE status = 'pending' AND attempts < ?2
 ORDER BY id LIMIT ?1";

/// Marks a pair done.
pub const MARK_EMBEDDING_DONE: &'static str = "UPDATE pending_embeddings
 SET status = 'done', updated_at = ?2
 WHERE id = ?1";

/// Counts a failed attempt.
pub const MARK_EMBEDDING_FAILED: &'static str = "UPDATE pending_embeddings
 SET attempts = attempts + 1,
     status = CASE WHEN attempts + 1 >= ?3
                   THEN 'failed' ELSE status END,
     updated_at = ?2
 WHERE id = ?1";

/// The latest done pair of every node.
pub const SELECT_DONE_HASHES: &'static str =
    "SELECT node_id, content_hash FROM pending_embeddings AS done
 WHERE done.status = 'done'
   AND done.id = (
       SELECT MAX(id) FROM pending_embeddings
       WHERE node_id = done.node_id AND status = 'done'
   )
 ORDER BY node_id";

/// Records an embedded pair as done, where it is not queued.
pub const RECORD_EMBEDDED: &'static str = "INSERT OR IGNORE INTO pending_embeddings
    (node_id, content_hash, status, attempts, created_at, updated_at)
 VALUES (?1, ?2, 'done', 0, ?3, ?3)";

/// A claimed row of the queue.
#[derive(Debug, Clone, PartialEq, Eq)]
pub struct PendingEmbedding {
    pub id: i64,
    pub node_id: String,
    pub content_hash: String,
    pub attempts: u32,
}

/// The statement that queues a pair.
pub open spec fn enqueue_command(node_id: Seq<char>, hash: Seq<char>, stamp: Seq<char>) -> Command {
    command(ENQUEUE_EMBEDDING, seq![text(node_id), text(hash), text(stamp)])
}

/// Queues pairs of a node and a content hash.
pub fn enqueue_embeddings(items: &Vec<(String, String)>, now: &Timestamp) -> (r: Result<
    Vec<Statement>,
>)
    ensures
        match r {
            Ok(statements) => now.writable() && commands(statements@) == items@.map_values(
                |item: (String, String)| enqueue_command(item.0@, item.1@, now.text()),
            ),
            Err(error) => !now.writable() && error.is_sqlite(unwritable_text(*now)),
        },
{
    let stamp = match format_rfc3339(now) {
        Ok(stamp) => stamp,
        Err(error) => {
            return Err(error);
        },
    };
    let ghost expected = items@.map_values(
        |item: (String, String)| enqueue_command(item.0@, item.1@, now.text()),
    );
    let mut out: Vec<Statement> = Vec::new();
    let mut i: usize = 0;
    while i < items.len()
        invariant
            i <= items@.len(),
            stamp@ == now.text(),
            expected == items@.map_values(
                |item: (String, String)| enqueue_command(item.0@, item.1@, now.text()),
            ),
            commands(out@) =~= expected.take(i as int),
        decreases items@.len() - i,
    {
        let ghost before = out@;
        let statement = Statement::new(ENQUEUE_EMBEDDING).with_text(items[i].0.as_str()).with_text(
            items[i].1.as_str(),
        ).with_text(stamp.as_str());
        assert(statement@ == enqueue_command(items@[i as int].0@, items@[i as int].1@, stamp@));
        out.push(statement);
        assert(commands(out@) =~= commands(before).push(statement@));
        i += 1;
    }
    Ok(out)
}

/// The oldest pairs to embed.
pub fn claim_embedding_batch(limit: usize) -> (r: Statement)
    ensures
        r@ == command(
            CLAIM_EMBEDDINGS,
            seq![integer(clamped(limit as int)), integer(MAX_EMBEDDING_ATTEMPTS as int)],
        ),
        r@.params == seq![integer(clamped(limit as int)), integer(3)],
{
    Statement::new(CLAIM_EMBEDDINGS).with_integer(clamp(limit)).with_integer(
        MAX_EMBEDDING_ATTEMPTS as i64,
    )
}

/// Marks a claimed pair done.
pub fn mark_embedding_done(id: i64, now: &Timestamp) -> (r: Result<Statement>)
    ensures
        match r {
            Ok(statement) => now.writable() && statement@ == command(
                MARK_EMBEDDING_DONE,
                seq![integer(id as int), text(now.text())],
            ),
            Err(error) => !now.writable() && error.is_sqlite(unwritable_text(*now)),
        },
{
    match format_rfc3339(now) {
        Ok(stamp) => Ok(
            Statement::new(MARK_EMBEDDING_DONE).with_integer(id).with_text(stamp.as_str()),
        ),
        Err(error) => Err(error),
    }
}

/// Counts a failed attempt at a claimed pair.
pub fn mark_embedding_attempt_failed(id: i64, now: &Timestamp) -> (r: Result<Statement>)
    ensures
        match r {
            Ok(statement) => now.writable() && statement@ == command(
                MARK_EMBEDDING_FAILED,
                seq![
                    integer(id as int),
                    text(now.text()),
                    integer(MAX_EMBEDDING_ATTEMPTS as int),
                ],
            ),
            Err(error) => !now.writable() && error.is_sqlite(unwritable_text(*now)),
        },
        r matches Ok(statement) ==> statement@.params == seq![
            integer(id as int),
            text(now.text()),
            integer(3),
        ],
{
    match format_rfc3339(now) {
        Ok(stamp) => Ok(
            Statement::new(MARK_EMBEDDING_FAILED).with_integer(id).with_text(
                stamp.as_str(),
            ).with_integer(MAX_EMBEDDING_ATTEMPTS as i64),
        ),
        Err(error) => Err(error),
    }
}

/// The latest embedded content of every node.
pub fn done_embedding_hashes() -> (r: Statement)
    ensures
        r@ == command(SELECT_DONE_HASHES, seq![]),
{
    Statement::new(SELECT_DONE_HASHES)
}

/// Records what was really embedded.
pub fn record_node_embedded(node_id: &str, content_hash: &str, now: &Timestamp) -> (r: Result<
    Statement,
>)
    ensures
        match r {
            Ok(statement) => now.writable() && statement@ == command(
                RECORD_EMBEDDED,
                seq![text(node_id@), text(content_hash@), text(now.text())],
            ),
            Err(error) => !now.writable() && error.is_sqlite(unwritable_text(*now)),
        },
{
    match format_rfc3339(now) {
        Ok(stamp) => Ok(
            Statement::new(RECORD_EMBEDDED).with_text(node_id).with_text(content_hash).with_text(
                stamp.as_str(),
            ),
        ),
        Err(error) => Err(error),
    }
}

} // verus!
