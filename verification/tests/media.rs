//! The sticker captions, run on SQLite.

use std::path::Path;

use rusqlite::types::Value;
use rusqlite::{Connection, OptionalExtension};
use tamako::store::error::StoreError;
use tamako::store::media::{
    get_sticker_caption, media_migration, put_sticker_caption, MEDIA_SCHEMA_VERSION,
};
use tamako::store::statement::{SqlValue, Statement};
use tamako::timestamp::Timestamp;

fn bound(statement: &Statement) -> Vec<Value> {
    statement
        .params
        .iter()
        .map(|value| match value {
            SqlValue::Text(text) => Value::Text(text.clone()),
            other => panic!("a text, not {other:?}"),
        })
        .collect()
}

struct MediaStore {
    conn: Connection,
}

impl MediaStore {
    fn open(data_root: &Path) -> Self {
        let conn = Connection::open(data_root.join("media.db")).expect("open");
        let version: u32 = conn
            .pragma_query_value(None, "user_version", |row| row.get(0))
            .expect("read user_version");
        if let Some(migration) = media_migration(version).expect("a known version") {
            conn.execute_batch(migration.sql).expect("create");
            conn.pragma_update(None, "user_version", migration.version).expect("record");
        }
        MediaStore { conn }
    }

    fn get_sticker_caption(&self, file_unique_id: &str) -> Option<String> {
        let statement = get_sticker_caption(file_unique_id);
        self.conn
            .query_row(statement.sql, rusqlite::params_from_iter(bound(&statement)), |row| {
                row.get(0)
            })
            .optional()
            .expect("get")
    }

    fn put_sticker_caption(&self, file_unique_id: &str, caption: &str) {
        let now = Timestamp::from_unix_seconds(1_700_000_000).expect("a timestamp");
        let statement = put_sticker_caption(file_unique_id, caption, &now).expect("a statement");
        self.conn
            .execute(statement.sql, rusqlite::params_from_iter(bound(&statement)))
            .expect("put");
    }
}

fn temp_media_store() -> (tempfile::TempDir, MediaStore) {
    let dir = tempfile::tempdir().expect("tempdir");
    let store = MediaStore::open(dir.path());
    (dir, store)
}

#[test]
fn put_then_get_round_trips() {
    let (_dir, store) = temp_media_store();
    store.put_sticker_caption("uid-1", "a smiling cat sticker");
    let caption = store.get_sticker_caption("uid-1");
    assert_eq!(caption.as_deref(), Some("a smiling cat sticker"));
}

#[test]
fn get_of_unknown_id_returns_none() {
    let (_dir, store) = temp_media_store();
    let caption = store.get_sticker_caption("uid-missing");
    assert_eq!(caption, None);
}

#[test]
fn double_put_keeps_the_first_caption() {
    let (_dir, store) = temp_media_store();
    store.put_sticker_caption("uid-1", "first");
    store.put_sticker_caption("uid-1", "second");
    let caption = store.get_sticker_caption("uid-1");
    assert_eq!(caption.as_deref(), Some("first"));
}

#[test]
fn reopen_persists_captions() {
    let dir = tempfile::tempdir().expect("tempdir");
    {
        let store = MediaStore::open(dir.path());
        store.put_sticker_caption("uid-1", "a waving dog sticker");
    }
    let store = MediaStore::open(dir.path());
    let caption = store.get_sticker_caption("uid-1");
    assert_eq!(caption.as_deref(), Some("a waving dog sticker"));
}

#[test]
fn opened_db_has_user_version_1() {
    let dir = tempfile::tempdir().expect("tempdir");
    let store = MediaStore::open(dir.path());
    drop(store);
    let conn = Connection::open(dir.path().join("media.db")).expect("reopen raw");
    let version: u32 = conn
        .pragma_query_value(None, "user_version", |row| row.get(0))
        .expect("read user_version");
    assert_eq!(version, MEDIA_SCHEMA_VERSION);
}

#[test]
fn a_later_media_database_is_refused() {
    assert!(media_migration(1).expect("current").is_none());
    match media_migration(2) {
        Err(StoreError::SchemaFromTheFuture { found, known }) => {
            assert_eq!((found, known), (2, 1));
        }
        other => panic!("expected SchemaFromTheFuture, got {other:?}"),
    }
}
