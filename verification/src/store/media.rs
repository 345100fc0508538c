//! The captions of stickers, shared by all groups.

use crate::store::error::{Result, StoreError, format_rfc3339, unwritable_text};
use crate::store::statement::{Statement, command, text};
use crate::timestamp::Timestamp;
use vstd::prelude::*;

verus! {

/// The version of the schema, kept in the `user_version` of the database.
pub const MEDIA_SCHEMA_VERSION: u32 = 1;

/// The first version of the schema.
pub const CREATE_STICKER_CAPTIONS: &'static str = "CREATE TABLE IF NOT EXISTS sticker_captions (
    file_unique_id TEXT PRIMARY KEY,
    caption        TEXT NOT NULL,
    created_at     TEXT NOT NULL
);";

/// The caption of a sticker.
pub const SELECT_STICKER_CAPTION: &'static str =
    "SELECT caption FROM sticker_captions WHERE file_unique_id = ?1";

/// Stores the caption of a sticker; an existing one stays.
pub const INSERT_STICKER_CAPTION: &'static str = "INSERT OR IGNORE INTO sticker_captions
    (file_unique_id, caption, created_at)
 VALUES (?1, ?2, ?3)";

/// What brings a database to the current version.
#[derive(Debug, Clone, Copy)]
pub struct MediaMigration {
    pub sql: &'static str,
    /// The version to record afterwards.
    pub version: u32,
}

/// What brings a database of the given version to the current one, if anything. A
/// database of a later version is refused.
pub fn media_migration(version: u32) -> (r: Result<Option<MediaMigration>>)
    ensures
        match r {
            Ok(Some(migration)) => version == 0 && migration.sql == CREATE_STICKER_CAPTIONS
                && migration.version == MEDIA_SCHEMA_VERSION,
            Ok(None) => version == MEDIA_SCHEMA_VERSION,
            Err(StoreError::SchemaFromTheFuture { found, known }) => version > MEDIA_SCHEMA_VERSION
                && found == version && known == MEDIA_SCHEMA_VERSION,
            Err(_) => false,
        },
{
    if version > MEDIA_SCHEMA_VERSION {
        return Err(
            StoreError::SchemaFromTheFuture { found: version, known: MEDIA_SCHEMA_VERSION },
        );
    }
    if version < 1 {
        Ok(Some(MediaMigration { sql: CREATE_STICKER_CAPTIONS, version: 1 }))
    } else {
        Ok(None)
    }
}

/// The caption of a sticker.
pub fn get_sticker_caption(file_unique_id: &str) -> (r: Statement)
    ensures
        r@ == command(SELECT_STICKER_CAPTION, seq![text(file_unique_id@)]),
{
    Statement::new(SELECT_STICKER_CAPTION).with_text(file_unique_id)
}

/// Stores the caption of a sticker, unless it has one.
pub fn put_sticker_caption(file_unique_id: &str, caption: &str, now: &Timestamp) -> (r: Result<
    Statement,
>)
    ensures
        match r {
            Ok(statement) => now.writable() && statement@ == command(
                INSERT_STICKER_CAPTION,
                seq![text(file_unique_id@), text(caption@), text(now.text())],
            ),
            Err(error) => !now.writable() && error.is_sqlite(unwritable_text(*now)),
        },
{
    match format_rfc3339(now) {
        Ok(stamp) => Ok(
            Statement::new(INSERT_STICKER_CAPTION).with_text(file_unique_id).with_text(
                caption,
            ).with_text(stamp.as_str()),
        ),
        Err(error) => Err(error),
    }
}

} // verus!
