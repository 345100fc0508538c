//! The schema of a group's database and its migrations.
//!
//! The migrations are an ordered list. Each pending one runs in a transaction of
//! its own and is recorded; opening an up-to-date database runs none. A database
//! that a later version wrote is refused.

use crate::store::error::{Result, StoreError, format_rfc3339, unwritable_text};
use crate::store::statement::{Statement, command, integer, text};
use crate::timestamp::Timestamp;
use vstd::prelude::*;

verus! {

/// The message log, the session state, the injected memories and the dead letters.
pub const MIGRATION_1: &'static str = "CREATE TABLE messages (
    id                      INTEGER PRIMARY KEY AUTOINCREMENT,
    platform_msg_id         TEXT NOT NULL,
    direction               TEXT NOT NULL CHECK (direction IN ('inbound', 'outbound')),
    event_type              TEXT NOT NULL CHECK (event_type IN ('message', 'edit')),
    timestamp               TEXT NOT NULL,
    sender_id               TEXT NOT NULL,
    sender_display_name     TEXT NOT NULL,
    text                    TEXT NOT NULL,
    reply_to_platform_msg_id TEXT,
    mentions_bot            INTEGER NOT NULL DEFAULT 0,
    is_reply_to_bot         INTEGER NOT NULL DEFAULT 0
);

CREATE UNIQUE INDEX messages_dedup
    ON messages (platform_msg_id, direction, event_type, timestamp);

CREATE TABLE state (
    key        TEXT PRIMARY KEY,
    value      TEXT NOT NULL,
    updated_at TEXT NOT NULL
);

CREATE TABLE injected_memories (
    id                 INTEGER PRIMARY KEY AUTOINCREMENT,
    edge_id            TEXT NOT NULL,
    injection_position INTEGER NOT NULL,
    range_tag          TEXT NOT NULL,
    created_at         TEXT NOT NULL
);

CREATE TABLE dead_letter (
    id             INTEGER PRIMARY KEY AUTOINCREMENT,
    batch_id       TEXT NOT NULL,
    batch_skeleton TEXT NOT NULL,
    error          TEXT NOT NULL,
    created_at     TEXT NOT NULL
);
";

/// The rendered text of an injected memory.
pub const MIGRATION_2: &'static str = "ALTER TABLE injected_memories ADD COLUMN content TEXT NOT NULL DEFAULT '';
";

/// Reactions, each event once.
pub const MIGRATION_3: &'static str = "CREATE TABLE reactions (
    id              INTEGER PRIMARY KEY AUTOINCREMENT,
    platform_msg_id TEXT NOT NULL,
    reactor_user_id TEXT,
    anonymous       INTEGER NOT NULL DEFAULT 0,
    aggregated      INTEGER NOT NULL DEFAULT 0,
    old_emojis      TEXT NOT NULL DEFAULT '[]',
    new_emojis      TEXT NOT NULL DEFAULT '[]',
    timestamp       TEXT NOT NULL
);

CREATE UNIQUE INDEX reactions_dedup
    ON reactions (platform_msg_id, COALESCE(reactor_user_id, ''),
                  old_emojis, new_emojis, timestamp);
";

/// The username of a sender, where there is one.
pub const MIGRATION_4: &'static str = "ALTER TABLE messages ADD COLUMN sender_username TEXT;
";

/// Summaries, one per digested range of the log.
pub const MIGRATION_5: &'static str = "CREATE TABLE context_summaries (
    id           INTEGER PRIMARY KEY AUTOINCREMENT,
    first_msg_id INTEGER NOT NULL,
    last_msg_id  INTEGER NOT NULL,
    content      TEXT NOT NULL,
    created_at   TEXT NOT NULL
);

CREATE UNIQUE INDEX context_summaries_dedup
    ON context_summaries (first_msg_id, last_msg_id);
";

/// Edits of one message in the same second stay distinct by their text.
pub const MIGRATION_6: &'static str = "DROP INDEX messages_dedup;

CREATE UNIQUE INDEX messages_dedup
    ON messages (platform_msg_id, direction, event_type, timestamp, text);
";

/// The queue of nodes to embed and their vectors.
pub const MIGRATION_7: &'static str = "CREATE TABLE pending_embeddings (
    id           INTEGER PRIMARY KEY AUTOINCREMENT,
    node_id      TEXT NOT NULL,
    content_hash TEXT NOT NULL,
    status       TEXT NOT NULL DEFAULT 'pending'
                 CHECK (status IN ('pending', 'done', 'failed')),
    attempts     INTEGER NOT NULL DEFAULT 0,
    created_at   TEXT NOT NULL,
    updated_at   TEXT NOT NULL
);

CREATE UNIQUE INDEX pending_embeddings_dedup
    ON pending_embeddings (node_id, content_hash);

CREATE VIRTUAL TABLE node_embeddings USING vec0(
    node_id TEXT PRIMARY KEY,
    embedding float[4096],
    chunk_size=128
);
";

/// Vectors under the cosine metric; what was embedded before is embedded again.
pub const MIGRATION_8: &'static str = "DROP TABLE node_embeddings;

CREATE VIRTUAL TABLE node_embeddings USING vec0(
    node_id TEXT PRIMARY KEY,
    embedding float[4096] distance_metric=cosine,
    chunk_size=128
);

DELETE FROM pending_embeddings WHERE status = 'done';
";

/// The record of merge verdicts.
pub const MIGRATION_9: &'static str = "CREATE TABLE merge_audit (
    id                 INTEGER PRIMARY KEY AUTOINCREMENT,
    loser_id           TEXT NOT NULL,
    survivor_id        TEXT NOT NULL,
    loser_kind         TEXT NOT NULL,
    loser_name         TEXT NOT NULL,
    loser_description  TEXT,
    verdict            TEXT NOT NULL
                       CHECK (verdict IN ('same', 'related', 'different')),
    reason             TEXT NOT NULL,
    confirmed_by       TEXT NOT NULL,
    edges_moved        INTEGER NOT NULL DEFAULT 0,
    self_loops_dropped INTEGER NOT NULL DEFAULT 0,
    edges_deduped      INTEGER NOT NULL DEFAULT 0,
    snapshot           TEXT,
    rolled_back        INTEGER NOT NULL DEFAULT 0,
    created_at         TEXT NOT NULL
);
";

/// The description texts of edges.
pub const MIGRATION_10: &'static str = "CREATE TABLE edge_texts (
    edge_id   TEXT PRIMARY KEY,
    edge_text TEXT NOT NULL
);
";

/// Vectors of the current dimension; what was embedded before is embedded again.
pub const MIGRATION_11: &'static str = "DROP TABLE node_embeddings;

CREATE VIRTUAL TABLE node_embeddings USING vec0(
    node_id TEXT PRIMARY KEY,
    embedding float[3072] distance_metric=cosine,
    chunk_size=128
);

DELETE FROM pending_embeddings WHERE status = 'done';
";

/// Pairs of related nodes.
pub const MIGRATION_12: &'static str = "CREATE TABLE related_pairs (
    id           INTEGER PRIMARY KEY AUTOINCREMENT,
    node_a_id    TEXT NOT NULL,
    node_b_id    TEXT NOT NULL,
    reason       TEXT NOT NULL,
    confirmed_by TEXT NOT NULL,
    status       TEXT NOT NULL DEFAULT 'pending'
                 CHECK (status IN ('pending','promoted','dismissed')),
    created_at   TEXT NOT NULL,
    UNIQUE(node_a_id, node_b_id)
);
";

/// The persisted half of the language-model session identifiers.
pub const MIGRATION_13: &'static str = "CREATE TABLE llm_session_keys (
    chat_id        TEXT NOT NULL,
    purpose        TEXT NOT NULL,
    session_suffix TEXT NOT NULL,
    created_at     TEXT NOT NULL,
    PRIMARY KEY (chat_id, purpose)
);
";

/// The table of the applied migrations.
pub const CREATE_SCHEMA_MIGRATIONS: &'static str = "CREATE TABLE IF NOT EXISTS schema_migrations (
    version    INTEGER PRIMARY KEY,
    applied_at TEXT NOT NULL
);";

/// The versions that were applied.
pub const SELECT_APPLIED_VERSIONS: &'static str = "SELECT version FROM schema_migrations";

/// Records one applied migration.
pub const INSERT_APPLIED_VERSION: &'static str =
    "INSERT INTO schema_migrations (version, applied_at) VALUES (?1, ?2)";

/// The latest version of the schema.
pub const KNOWN_SCHEMA_VERSION: u32 = 13;

/// One step of the schema.
#[derive(Debug, Clone, Copy)]
pub struct Migration {
    pub version: u32,
    pub sql: &'static str,
}

/// Every migration, in order.
pub open spec fn all_migrations() -> Seq<Migration> {
    seq![
        Migration { version: 1, sql: MIGRATION_1 },
        Migration { version: 2, sql: MIGRATION_2 },
        Migration { version: 3, sql: MIGRATION_3 },
        Migration { version: 4, sql: MIGRATION_4 },
        Migration { version: 5, sql: MIGRATION_5 },
        Migration { version: 6, sql: MIGRATION_6 },
        Migration { version: 7, sql: MIGRATION_7 },
        Migration { version: 8, sql: MIGRATION_8 },
        Migration { version: 9, sql: MIGRATION_9 },
        Migration { version: 10, sql: MIGRATION_10 },
        Migration { version: 11, sql: MIGRATION_11 },
        Migration { version: 12, sql: MIGRATION_12 },
        Migration { version: 13, sql: MIGRATION_13 },
    ]
}

/// Every migration, in order.
pub fn migrations() -> (r: Vec<Migration>)
    ensures
        r@ == all_migrations(),
{
    let r = vec![
        Migration { version: 1, sql: MIGRATION_1 },
        Migration { version: 2, sql: MIGRATION_2 },
        Migration { version: 3, sql: MIGRATION_3 },
        Migration { version: 4, sql: MIGRATION_4 },
        Migration { version: 5, sql: MIGRATION_5 },
        Migration { version: 6, sql: MIGRATION_6 },
        Migration { version: 7, sql: MIGRATION_7 },
        Migration { version: 8, sql: MIGRATION_8 },
        Migration { version: 9, sql: MIGRATION_9 },
        Migration { version: 10, sql: MIGRATION_10 },
        Migration { version: 11, sql: MIGRATION_11 },
        Migration { version: 12, sql: MIGRATION_12 },
        Migration { version: 13, sql: MIGRATION_13 },
    ];
    assert(r@ =~= all_migrations());
    r
}

/// Whether the version is among the applied ones.
pub open spec fn is_applied(applied: Seq<u32>, version: u32) -> bool {
    applied.contains(version)
}

/// The migrations of the list that were not applied yet, in order.
pub open spec fn unapplied(list: Seq<Migration>, applied: Seq<u32>) -> Seq<Migration>
    decreases list.len(),
{
    if list.len() == 0 {
        Seq::empty()
    } else if is_applied(applied, list.last().version) {
        unapplied(list.drop_last(), applied)
    } else {
        unapplied(list.drop_last(), applied).push(list.last())
    }
}

/// Whether a version of the applied ones is later than the known schema.
pub open spec fn is_from_the_future(applied: Seq<u32>) -> bool {
    exists|i: int| 0 <= i < applied.len() && #[trigger] applied[i] > KNOWN_SCHEMA_VERSION
}

/// Whether the version is the latest of the applied ones.
pub open spec fn is_latest(applied: Seq<u32>, version: u32) -> bool {
    &&& applied.contains(version)
    &&& forall|i: int| 0 <= i < applied.len() ==> #[trigger] applied[i] <= version
}

fn contains_version(applied: &Vec<u32>, version: u32) -> (r: bool)
    ensures
        r == is_applied(applied@, version),
{
    let mut i: usize = 0;
    while i < applied.len()
        invariant
            i <= applied@.len(),
            forall|k: int| 0 <= k < i ==> #[trigger] applied@[k] != version,
        decreases applied@.len() - i,
    {
        if applied[i] == version {
            return true;
        }
        i += 1;
    }
    false
}

/// The migrations to run on a database with the given applied versions. A database
/// with a later version is refused, naming the latest one.
pub fn pending_migrations(applied: &Vec<u32>) -> (r: Result<Vec<Migration>>)
    ensures
        match r {
            Ok(pending) => !is_from_the_future(applied@) && pending@ == unapplied(
                all_migrations(),
                applied@,
            ),
            Err(StoreError::SchemaFromTheFuture { found, known }) => is_from_the_future(applied@)
                && is_latest(applied@, found) && known == KNOWN_SCHEMA_VERSION,
            Err(_) => false,
        },
{
    let mut latest: u32 = 0;
    let mut i: usize = 0;
    while i < applied.len()
        invariant
            i <= applied@.len(),
            latest == 0 || applied@.contains(latest),
            forall|k: int| 0 <= k < i ==> #[trigger] applied@[k] <= latest,
        decreases applied@.len() - i,
    {
        if applied[i] > latest {
            latest = applied[i];
        }
        i += 1;
    }
    if latest > KNOWN_SCHEMA_VERSION {
        let at = Ghost(choose|k: int| 0 <= k < applied@.len() && applied@[k] == latest);
        assert(applied@[at@] > KNOWN_SCHEMA_VERSION);
        return Err(
            StoreError::SchemaFromTheFuture { found: latest, known: KNOWN_SCHEMA_VERSION },
        );
    }
    let all = migrations();
    let mut pending: Vec<Migration> = Vec::new();
    let mut n: usize = 0;
    assert(all@.take(0) =~= seq![]);
    while n < all.len()
        invariant
            n <= all@.len(),
            pending@ == unapplied(all@.take(n as int), applied@),
        decreases all@.len() - n,
    {
        assert(all@.take(n + 1).drop_last() =~= all@.take(n as int));
        if !contains_version(applied, all[n].version) {
            pending.push(all[n]);
        }
        n += 1;
    }
    assert(all@.take(all@.len() as int) =~= all@);
    Ok(pending)
}

/// Records that a migration was applied.
pub fn record_migration(version: u32, now: &Timestamp) -> (r: Result<Statement>)
    ensures
        match r {
            Ok(statement) => now.writable() && statement@ == command(
                INSERT_APPLIED_VERSION,
                seq![integer(version as int), text(now.text())],
            ),
            Err(error) => !now.writable() && error.is_sqlite(unwritable_text(*now)),
        },
{
    match format_rfc3339(now) {
        Ok(stamp) => Ok(
            Statement::new(INSERT_APPLIED_VERSION).with_integer(version as i64).with_text(
                stamp.as_str(),
            ),
        ),
        Err(error) => Err(error),
    }
}

/// The versions of the migrations.
pub open spec fn versions_of(list: Seq<Migration>) -> Seq<u32> {
    list.map_values(|migration: Migration| migration.version)
}

/// The versions count up from 1 to the latest one.
pub proof fn law_versions_count_up()
    ensures
        all_migrations().len() == KNOWN_SCHEMA_VERSION,
        forall|i: int|
            0 <= i < all_migrations().len() ==> (#[trigger] all_migrations()[i]).version == i + 1,
{
}

proof fn lemma_unapplied(list: Seq<Migration>, applied: Seq<u32>)
    ensures
        forall|i: int|
            0 <= i < list.len() && !is_applied(applied, (#[trigger] list[i]).version)
                ==> unapplied(list, applied).contains(list[i]),
        (forall|i: int| 0 <= i < list.len() ==> is_applied(applied, (#[trigger] list[i]).version))
            ==> unapplied(list, applied).len() == 0,
        (forall|i: int| 0 <= i < list.len() ==> !is_applied(applied, (#[trigger] list[i]).version))
            ==> unapplied(list, applied) == list,
    decreases list.len(),
{
    if list.len() > 0 {
        let shorter = list.drop_last();
        lemma_unapplied(shorter, applied);
        assert forall|i: int| 0 <= i < shorter.len() implies #[trigger] shorter[i] == list[i] by {}
        assert forall|i: int|
            0 <= i < list.len() && !is_applied(
                applied,
                (#[trigger] list[i]).version,
            ) implies unapplied(list, applied).contains(list[i]) by {
            if i < shorter.len() {
                let rest = unapplied(shorter, applied);
                assert(rest.contains(shorter[i]));
                let at = choose|k: int| 0 <= k < rest.len() && rest[k] == shorter[i];
                assert(unapplied(list, applied)[at] == list[i]);
            } else {
                assert(unapplied(list, applied).last() == list[i]);
            }
        }
        if forall|i: int| 0 <= i < list.len() ==> is_applied(applied, (#[trigger] list[i]).version) {
            assert(is_applied(applied, list[list.len() - 1].version));
            assert forall|i: int| 0 <= i < shorter.len() implies is_applied(
                applied,
                (#[trigger] shorter[i]).version,
            ) by {
                assert(shorter[i] == list[i]);
            }
        }
        if forall|i: int| 0 <= i < list.len() ==> !is_applied(
            applied,
            (#[trigger] list[i]).version,
        ) {
            assert(!is_applied(applied, list[list.len() - 1].version));
            assert forall|i: int| 0 <= i < shorter.len() implies !is_applied(
                applied,
                (#[trigger] shorter[i]).version,
            ) by {
                assert(shorter[i] == list[i]);
            }
            assert(shorter.push(list.last()) =~= list);
        }
    }
}

/// A fresh database runs every migration.
pub proof fn law_fresh_database_runs_all()
    ensures
        unapplied(all_migrations(), Seq::<u32>::empty()) == all_migrations(),
        !is_from_the_future(Seq::<u32>::empty()),
{
    lemma_unapplied(all_migrations(), Seq::<u32>::empty());
}

/// Once the pending migrations have run, nothing is pending, and the database is
/// still accepted.
pub proof fn law_second_run_is_a_no_op(applied: Seq<u32>)
    requires
        !is_from_the_future(applied),
    ensures
        ({
            let after = applied + versions_of(unapplied(all_migrations(), applied));
            &&& !is_from_the_future(after)
            &&& unapplied(all_migrations(), after).len() == 0
        }),
{
    let list = all_migrations();
    let pending = unapplied(list, applied);
    let after = applied + versions_of(pending);
    lemma_unapplied(list, applied);
    lemma_pending_from_list(list, applied);
    law_versions_count_up();
    assert forall|i: int| 0 <= i < list.len() implies is_applied(
        after,
        (#[trigger] list[i]).version,
    ) by {
        if is_applied(applied, list[i].version) {
            let at = choose|k: int| 0 <= k < applied.len() && applied[k] == list[i].version;
            assert(after[at] == list[i].version);
        } else {
            let at = choose|k: int| 0 <= k < pending.len() && pending[k] == list[i];
            assert(after[applied.len() + at] == list[i].version);
        }
    }
    lemma_unapplied(list, after);
    assert forall|i: int| 0 <= i < after.len() implies #[trigger] after[i]
        <= KNOWN_SCHEMA_VERSION by {
        if i < applied.len() {
            assert(after[i] == applied[i]);
        } else {
            let migration = pending[i - applied.len()];
            assert(after[i] == migration.version);
            assert(list.contains(migration));
        }
    }
}

proof fn lemma_pending_from_list(list: Seq<Migration>, applied: Seq<u32>)
    ensures
        forall|k: int|
            0 <= k < unapplied(list, applied).len() ==> list.contains(
                #[trigger] unapplied(list, applied)[k],
            ),
    decreases list.len(),
{
    if list.len() > 0 {
        let shorter = list.drop_last();
        lemma_pending_from_list(shorter, applied);
        let pending = unapplied(list, applied);
        assert forall|k: int| 0 <= k < pending.len() implies list.contains(
            #[trigger] pending[k],
        ) by {
            let rest = unapplied(shorter, applied);
            if k < rest.len() {
                assert(pending[k] == rest[k]);
                let at = choose|j: int| 0 <= j < shorter.len() && shorter[j] == rest[k];
                assert(list[at] == pending[k]);
            } else {
                assert(pending[k] == list[list.len() - 1]);
            }
        }
    }
}

} // verus!
