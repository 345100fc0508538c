//! Errors of the relational store.

use crate::text::{concat3, concat5, int_text, u64_text};
use crate::timestamp::{MAX_LOCAL_NANOS, Timestamp, YEAR_ZERO_LOCAL_NANOS, rfc3339_reading};
use vstd::prelude::*;

verus! {

/// Errors of the store.
#[derive(Debug, Clone, PartialEq, Eq)]
pub enum StoreError {
    /// The database failed, or a stored value does not convert.
    Sqlite(String),
    /// The file system failed.
    Io(String),
    /// The chat identifier cannot name a directory.
    InvalidChatId(String),
    /// A value does not fit the key it is stored under.
    InvalidValue { key: String, value: String },
    /// A helper for the single open group met another number of open groups.
    AmbiguousGroup(usize),
    /// The database was written by a later version of the schema.
    SchemaFromTheFuture { found: u32, known: u32 },
}

/// The outcome of a store operation.
pub type Result<T> = std::result::Result<T, StoreError>;

impl StoreError {
    /// Whether this is the database error with the given detail.
    pub open spec fn is_sqlite(self, detail: Seq<char>) -> bool {
        self matches StoreError::Sqlite(text) && text@ == detail
    }

    /// Whether this is the invalid value under the given key.
    pub open spec fn is_invalid(self, key: Seq<char>, value: Seq<char>) -> bool {
        self matches StoreError::InvalidValue { key: k, value: v } && k@ == key && v@ == value
    }

    /// The message of the error.
    pub open spec fn text(self) -> Seq<char> {
        match self {
            StoreError::Sqlite(detail) => "sqlite error: "@ + detail@,
            StoreError::Io(detail) => "io error: "@ + detail@,
            StoreError::InvalidChatId(detail) => "invalid chat_id: "@ + detail@,
            StoreError::InvalidValue { key, value } => "invalid stored value for key "@ + key@
                + ": "@ + value@,
            StoreError::AmbiguousGroup(open) =>
                "single-group helpers take no chat_id and need exactly one open group on this Store, found "@
                + int_text(open as int),
            StoreError::SchemaFromTheFuture { found, known } => "database schema version "@
                + int_text(found as int) + " exceeds this binary's known maximum "@ + int_text(
                known as int,
            )
                + ": the store.db was written by a NEWER tamako; run that binary (or upgrade) instead of opening it with an older one"@,
        }
    }

    /// The message of the error.
    pub fn message(&self) -> (r: String)
        ensures
            r@ == self.text(),
    {
        match self {
            StoreError::Sqlite(detail) => "sqlite error: ".to_owned().concat(detail.as_str()),
            StoreError::Io(detail) => "io error: ".to_owned().concat(detail.as_str()),
            StoreError::InvalidChatId(detail) => "invalid chat_id: ".to_owned().concat(
                detail.as_str(),
            ),
            StoreError::InvalidValue { key, value } => concat3(
                "invalid stored value for key ",
                key.as_str(),
                ": ",
            ).concat(value.as_str()),
            StoreError::AmbiguousGroup(open) =>
                "single-group helpers take no chat_id and need exactly one open group on this Store, found "
                .to_owned().concat(u64_text(*open as u64).as_str()),
            StoreError::SchemaFromTheFuture { found, known } => concat5(
                "database schema version ",
                u64_text(*found as u64).as_str(),
                " exceeds this binary's known maximum ",
                u64_text(*known as u64).as_str(),
                ": the store.db was written by a NEWER tamako; run that binary (or upgrade) instead of opening it with an older one",
            ),
        }
    }
}

/// The error text of a stored text that does not convert.
pub open spec fn conversion_text(detail: Seq<char>) -> Seq<char> {
    "Conversion error from type Text at index: 0, "@ + detail
}

/// The error of a stored text that does not convert.
pub fn conversion_failure(detail: &str) -> (r: StoreError)
    ensures
        r.is_sqlite(conversion_text(detail@)),
{
    StoreError::Sqlite("Conversion error from type Text at index: 0, ".to_owned().concat(detail))
}

/// The component that keeps a timestamp from having an RFC 3339 form.
pub open spec fn unwritable_component(at: Timestamp) -> Seq<char> {
    if !(YEAR_ZERO_LOCAL_NANOS <= at.local_nanos() <= MAX_LOCAL_NANOS) {
        "year"@
    } else if !(-86_400 < at.offset_seconds() < 86_400) {
        "offset_hour"@
    } else {
        "offset_second"@
    }
}

/// The error text of a timestamp without an RFC 3339 form.
pub open spec fn unwritable_text(at: Timestamp) -> Seq<char> {
    "The "@ + unwritable_component(at)
        + " component cannot be formatted into the requested format."@
}

/// The RFC 3339 text of a timestamp, the form every timestamp is stored in. Reading
/// it gives the same timestamp again.
pub fn format_rfc3339(at: &Timestamp) -> (r: Result<String>)
    ensures
        match r {
            Ok(stamp) => at.writable() && stamp@ == at.text() && is_stored_time(stamp@, *at),
            Err(error) => !at.writable() && error.is_sqlite(unwritable_text(*at)),
        },
{
    match at.to_rfc3339() {
        Some(stamp) => Ok(stamp),
        None => {
            let local: i128 = at.get_local_nanos();
            let offset: i32 = at.get_offset_seconds();
            let component = if local < YEAR_ZERO_LOCAL_NANOS || local > MAX_LOCAL_NANOS {
                "year"
            } else if offset <= -86_400 || offset >= 86_400 {
                "offset_hour"
            } else {
                "offset_second"
            };
            Err(
                StoreError::Sqlite(
                    concat3(
                        "The ",
                        component,
                        " component cannot be formatted into the requested format.",
                    ),
                ),
            )
        },
    }
}

/// Whether reading a stored timestamp gives this one.
pub open spec fn is_stored_time(stamp: Seq<char>, at: Timestamp) -> bool {
    rfc3339_reading(stamp) matches Ok(read) && at.local_nanos() == read.0 && at.offset_seconds()
        == read.1
}

/// Whether reading a stored timestamp fails with this error.
pub open spec fn is_time_failure(stamp: Seq<char>, error: StoreError) -> bool {
    rfc3339_reading(stamp) matches Err(detail) && error.is_sqlite(conversion_text(detail))
}

/// Reads a stored timestamp.
pub fn parse_rfc3339(stamp: &str) -> (r: Result<Timestamp>)
    ensures
        match r {
            Ok(at) => is_stored_time(stamp@, at),
            Err(error) => is_time_failure(stamp@, error),
        },
{
    match Timestamp::parse_rfc3339(stamp) {
        Ok(at) => Ok(at),
        Err(detail) => Err(conversion_failure(detail.as_str())),
    }
}

} // verus!
