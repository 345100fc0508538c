//! The raw message log of a group.
//!
//! The log is append-only: an edit is a further row. A row is identified by its
//! platform identifier, direction, kind, timestamp and text, and inserting it again
//! changes nothing.

use crate::store::error::{
    Result, StoreError, conversion_failure, conversion_text, format_rfc3339, is_stored_time,
    is_time_failure, parse_rfc3339, unwritable_text,
};
use crate::store::statement::{Command, Statement, command, flag, integer, nullable, text};
use crate::text::{opt_text, same_text};
use crate::timestamp::Timestamp;
use vstd::prelude::*;

verus! {

/// Appends a row, unless the log has it.
pub const INSERT_MESSAGE: &'static str = "INSERT OR IGNORE INTO messages (
    platform_msg_id, direction, event_type, timestamp,
    sender_id, sender_display_name, sender_username, text,
    reply_to_platform_msg_id, mentions_bot, is_reply_to_bot
) VALUES (?1, ?2, ?3, ?4, ?5, ?6, ?7, ?8, ?9, ?10, ?11)";

/// Every row, oldest first.
pub const SELECT_MESSAGES: &'static str =
    "SELECT id, platform_msg_id, direction, event_type, timestamp,
    sender_id, sender_display_name, sender_username, text,
    reply_to_platform_msg_id, mentions_bot, is_reply_to_bot
 FROM messages ORDER BY id";

/// The rows after a row, oldest first.
pub const SELECT_MESSAGES_AFTER: &'static str =
    "SELECT id, platform_msg_id, direction, event_type, timestamp,
    sender_id, sender_display_name, sender_username, text,
    reply_to_platform_msg_id, mentions_bot, is_reply_to_bot
 FROM messages WHERE id > ?1 ORDER BY id";

/// The rows after a row up to another one, oldest first.
pub const SELECT_MESSAGES_IN_RANGE: &'static str =
    "SELECT id, platform_msg_id, direction, event_type, timestamp,
    sender_id, sender_display_name, sender_username, text,
    reply_to_platform_msg_id, mentions_bot, is_reply_to_bot
 FROM messages WHERE id > ?1 AND id <= ?2 ORDER BY id";

/// The newest rows, newest first.
pub const SELECT_LATEST_MESSAGES: &'static str =
    "SELECT id, platform_msg_id, direction, event_type, timestamp,
    sender_id, sender_display_name, sender_username, text,
    reply_to_platform_msg_id, mentions_bot, is_reply_to_bot
 FROM messages ORDER BY id DESC LIMIT ?1";

/// The number of inbound rows after a row.
pub const COUNT_INBOUND_AFTER: &'static str =
    "SELECT COUNT(*) FROM messages WHERE id > ?1 AND direction = 'inbound'";

/// The sender of the newest row of a platform identifier.
pub const SELECT_SENDER: &'static str = "SELECT sender_id, sender_display_name FROM messages
 WHERE platform_msg_id = ?1 ORDER BY id DESC LIMIT 1";

/// The oldest row of a platform identifier.
pub const SELECT_REPLY_TARGET: &'static str = "SELECT id, sender_display_name FROM messages
 WHERE platform_msg_id = ?1 ORDER BY id ASC LIMIT 1";

/// The newest row of a platform identifier.
pub const SELECT_LATEST_MESSAGE: &'static str =
    "SELECT id, platform_msg_id, direction, event_type, timestamp,
    sender_id, sender_display_name, sender_username, text,
    reply_to_platform_msg_id, mentions_bot, is_reply_to_bot
 FROM messages
 WHERE platform_msg_id = ?1 ORDER BY id DESC LIMIT 1";

/// The direction of a row.
#[derive(Debug, Clone, Copy, PartialEq, Eq, Structural)]
pub enum Direction {
    Inbound,
    Outbound,
}

impl Direction {
    /// The value of the `direction` column.
    pub open spec fn column(self) -> Seq<char> {
        match self {
            Direction::Inbound => "inbound"@,
            Direction::Outbound => "outbound"@,
        }
    }

    /// The direction of a column value, where it is one.
    pub open spec fn of_column(value: Seq<char>) -> Option<Direction> {
        if value == "inbound"@ {
            Some(Direction::Inbound)
        } else if value == "outbound"@ {
            Some(Direction::Outbound)
        } else {
            None
        }
    }

    /// The value of the `direction` column.
    pub fn as_str(self) -> (r: &'static str)
        ensures
            r@ == self.column(),
    {
        match self {
            Direction::Inbound => "inbound",
            Direction::Outbound => "outbound",
        }
    }

    /// Reads the value of the `direction` column.
    pub fn from_str(s: &str) -> (r: Result<Direction>)
        ensures
            match r {
                Ok(direction) => Direction::of_column(s@) == Some(direction),
                Err(error) => Direction::of_column(s@) is None && error.is_sqlite(
                    conversion_text("unknown direction: "@ + s@),
                ),
            },
    {
        if same_text(s, "inbound") {
            Ok(Direction::Inbound)
        } else if same_text(s, "outbound") {
            Ok(Direction::Outbound)
        } else {
            Err(conversion_failure("unknown direction: ".to_owned().concat(s).as_str()))
        }
    }

    /// Every direction reads back from its column value.
    pub proof fn law_column_reads_back(self)
        ensures
            Direction::of_column(self.column()) == Some(self),
    {
        reveal_strlit("inbound");
        reveal_strlit("outbound");
        assert("inbound"@.len() != "outbound"@.len());
    }
}

/// The kind of a row.
#[derive(Debug, Clone, Copy, PartialEq, Eq, Structural)]
pub enum EventType {
    Message,
    Edit,
}

impl EventType {
    /// The value of the `event_type` column.
    pub open spec fn column(self) -> Seq<char> {
        match self {
            EventType::Message => "message"@,
            EventType::Edit => "edit"@,
        }
    }

    /// The kind of a column value, where it is one.
    pub open spec fn of_column(value: Seq<char>) -> Option<EventType> {
        if value == "message"@ {
            Some(EventType::Message)
        } else if value == "edit"@ {
            Some(EventType::Edit)
        } else {
            None
        }
    }

    /// The value of the `event_type` column.
    pub fn as_str(self) -> (r: &'static str)
        ensures
            r@ == self.column(),
    {
        match self {
            EventType::Message => "message",
            EventType::Edit => "edit",
        }
    }

    /// Reads the value of the `event_type` column.
    pub fn from_str(s: &str) -> (r: Result<EventType>)
        ensures
            match r {
                Ok(event_type) => EventType::of_column(s@) == Some(event_type),
                Err(error) => EventType::of_column(s@) is None && error.is_sqlite(
                    conversion_text("unknown event_type: "@ + s@),
                ),
            },
    {
        if same_text(s, "message") {
            Ok(EventType::Message)
        } else if same_text(s, "edit") {
            Ok(EventType::Edit)
        } else {
            Err(conversion_failure("unknown event_type: ".to_owned().concat(s).as_str()))
        }
    }

    /// Every kind reads back from its column value.
    pub proof fn law_column_reads_back(self)
        ensures
            EventType::of_column(self.column()) == Some(self),
    {
        reveal_strlit("message");
        reveal_strlit("edit");
        assert("message"@.len() != "edit"@.len());
    }
}

/// A row to append.
#[derive(Debug, Clone)]
pub struct NewMessage {
    pub platform_msg_id: String,
    pub direction: Direction,
    pub event_type: EventType,
    pub timestamp: Timestamp,
    pub sender_id: String,
    pub sender_display_name: String,
    /// The username of the sender, where there is one.
    pub sender_username: Option<String>,
    pub text: String,
    pub reply_to_platform_msg_id: Option<String>,
    pub mentions_bot: bool,
    pub is_reply_to_bot: bool,
}

/// A row of the log.
#[derive(Debug, Clone, PartialEq, Eq)]
pub struct MessageRow {
    pub id: i64,
    pub platform_msg_id: String,
    pub direction: Direction,
    pub event_type: EventType,
    pub timestamp: Timestamp,
    pub sender_id: String,
    pub sender_display_name: String,
    /// The username of the sender, where there is one.
    pub sender_username: Option<String>,
    pub text: String,
    pub reply_to_platform_msg_id: Option<String>,
    pub mentions_bot: bool,
    pub is_reply_to_bot: bool,
}

/// The columns of a row as they are stored.
#[derive(Debug, Clone, PartialEq, Eq)]
pub struct MessageRecord {
    pub id: i64,
    pub platform_msg_id: String,
    pub direction: String,
    pub event_type: String,
    pub timestamp: String,
    pub sender_id: String,
    pub sender_display_name: String,
    pub sender_username: Option<String>,
    pub text: String,
    pub reply_to_platform_msg_id: Option<String>,
    pub mentions_bot: bool,
    pub is_reply_to_bot: bool,
}

/// The original row a reply refers to.
#[derive(Debug, Clone, PartialEq, Eq)]
pub struct ReplyTargetRow {
    pub row_id: i64,
    /// The display name of the sender at that time.
    pub display_name: String,
}

/// The outcome of an insert that may find its row already there.
#[derive(Debug, Clone, PartialEq, Eq)]
pub enum InsertOutcome {
    /// The row was inserted under this identifier.
    Inserted(i64),
    /// The row was there.
    Duplicate,
}

/// The outcome of an insert, by the number of rows it wrote and the identifier of
/// the row written last.
pub fn insert_outcome(written: usize, last_id: i64) -> (r: InsertOutcome)
    ensures
        r == (if written == 0 {
            InsertOutcome::Duplicate
        } else {
            InsertOutcome::Inserted(last_id)
        }),
{
    if written == 0 {
        InsertOutcome::Duplicate
    } else {
        InsertOutcome::Inserted(last_id)
    }
}

impl NewMessage {
    /// The statement that appends the row.
    pub open spec fn command(self) -> Command {
        command(
            INSERT_MESSAGE,
            seq![
                text(self.platform_msg_id@),
                text(self.direction.column()),
                text(self.event_type.column()),
                text(self.timestamp.text()),
                text(self.sender_id@),
                text(self.sender_display_name@),
                nullable(self.sender_username),
                text(self.text@),
                nullable(self.reply_to_platform_msg_id),
                flag(self.mentions_bot),
                flag(self.is_reply_to_bot),
            ],
        )
    }
}

/// Appends a row, unless the log has it.
pub fn insert_message(msg: &NewMessage) -> (r: Result<Statement>)
    ensures
        match r {
            Ok(statement) => msg.timestamp.writable() && statement@ == msg.command(),
            Err(error) => !msg.timestamp.writable() && error.is_sqlite(
                unwritable_text(msg.timestamp),
            ),
        },
{
    let stamp = match format_rfc3339(&msg.timestamp) {
        Ok(stamp) => stamp,
        Err(error) => {
            return Err(error);
        },
    };
    let statement = Statement::new(INSERT_MESSAGE).with_text(msg.platform_msg_id.as_str()).with_text(
        msg.direction.as_str(),
    ).with_text(msg.event_type.as_str()).with_text(stamp.as_str()).with_text(
        msg.sender_id.as_str(),
    ).with_text(msg.sender_display_name.as_str()).with_nullable(&msg.sender_username).with_text(
        msg.text.as_str(),
    ).with_nullable(&msg.reply_to_platform_msg_id).with_flag(msg.mentions_bot).with_flag(
        msg.is_reply_to_bot,
    );
    assert(statement@.params =~= msg.command().params);
    Ok(statement)
}

/// Every row, oldest first.
pub fn list_messages() -> (r: Statement)
    ensures
        r@ == command(SELECT_MESSAGES, seq![]),
{
    Statement::new(SELECT_MESSAGES)
}

/// The rows after a row, oldest first.
pub fn list_messages_after(after_id: i64) -> (r: Statement)
    ensures
        r@ == command(SELECT_MESSAGES_AFTER, seq![integer(after_id as int)]),
{
    Statement::new(SELECT_MESSAGES_AFTER).with_integer(after_id)
}

/// The rows after a row up to another one, oldest first.
pub fn list_messages_in_range(after_msg_id: i64, up_to_msg_id_inclusive: i64) -> (r: Statement)
    ensures
        r@ == command(
            SELECT_MESSAGES_IN_RANGE,
            seq![integer(after_msg_id as int), integer(up_to_msg_id_inclusive as int)],
        ),
{
    Statement::new(SELECT_MESSAGES_IN_RANGE).with_integer(after_msg_id).with_integer(
        up_to_msg_id_inclusive,
    )
}

/// The newest rows, newest first; `oldest_first` turns them round.
pub fn list_latest_messages(limit: u32) -> (r: Statement)
    ensures
        r@ == command(SELECT_LATEST_MESSAGES, seq![integer(limit as int)]),
{
    Statement::new(SELECT_LATEST_MESSAGES).with_integer(limit as i64)
}

/// The rows in the opposite order.
pub fn oldest_first<T>(rows: Vec<T>) -> (r: Vec<T>)
    ensures
        r@ == rows@.reverse(),
{
    let ghost all = rows@;
    let mut rest = rows;
    let mut out: Vec<T> = Vec::new();
    while rest.len() > 0
        invariant
            rest@ == all.take(rest@.len() as int),
            rest@.len() <= all.len(),
            out@ == all.skip(rest@.len() as int).reverse(),
        decreases rest@.len(),
    {
        let ghost n = rest@.len() as int;
        match rest.pop() {
            Some(row) => {
                assert(row == all[n - 1]);
                assert(rest@ =~= all.take(n - 1));
                out.push(row);
                assert(out@ =~= all.skip(n - 1).reverse());
            },
            None => {},
        }
    }
    assert(all.skip(0) =~= all);
    out
}

/// The number of inbound rows after a row.
pub fn count_inbound_after(after_id: i64) -> (r: Statement)
    ensures
        r@ == command(COUNT_INBOUND_AFTER, seq![integer(after_id as int)]),
{
    Statement::new(COUNT_INBOUND_AFTER).with_integer(after_id)
}

/// A counted number of rows: the largest number where it does not fit.
pub fn row_count(count: i64) -> (r: u32)
    ensures
        r == (if 0 <= count <= u32::MAX {
            count as u32
        } else {
            u32::MAX
        }),
{
    if 0 <= count && count <= u32::MAX as i64 {
        count as u32
    } else {
        u32::MAX
    }
}

/// The sender of the newest row of a platform identifier.
pub fn find_sender_by_platform_msg_id(platform_msg_id: &str) -> (r: Statement)
    ensures
        r@ == command(SELECT_SENDER, seq![text(platform_msg_id@)]),
{
    Statement::new(SELECT_SENDER).with_text(platform_msg_id)
}

/// The original row of a platform identifier: edits share the identifier and come
/// later.
pub fn find_reply_target(platform_msg_id: &str) -> (r: Statement)
    ensures
        r@ == command(SELECT_REPLY_TARGET, seq![text(platform_msg_id@)]),
{
    Statement::new(SELECT_REPLY_TARGET).with_text(platform_msg_id)
}

/// The newest row of a platform identifier: its latest edit, or the original.
pub fn find_latest_message_by_platform_msg_id(platform_msg_id: &str) -> (r: Statement)
    ensures
        r@ == command(SELECT_LATEST_MESSAGE, seq![text(platform_msg_id@)]),
{
    Statement::new(SELECT_LATEST_MESSAGE).with_text(platform_msg_id)
}

impl MessageRecord {
    /// Whether the stored columns are those of the row.
    pub open spec fn holds(self, row: MessageRow) -> bool {
        &&& row.id == self.id
        &&& row.platform_msg_id@ == self.platform_msg_id@
        &&& Direction::of_column(self.direction@) == Some(row.direction)
        &&& EventType::of_column(self.event_type@) == Some(row.event_type)
        &&& is_stored_time(self.timestamp@, row.timestamp)
        &&& row.sender_id@ == self.sender_id@
        &&& row.sender_display_name@ == self.sender_display_name@
        &&& opt_text(row.sender_username) == opt_text(self.sender_username)
        &&& row.text@ == self.text@
        &&& opt_text(row.reply_to_platform_msg_id) == opt_text(self.reply_to_platform_msg_id)
        &&& row.mentions_bot == self.mentions_bot
        &&& row.is_reply_to_bot == self.is_reply_to_bot
    }

    /// Whether the stored columns fail to read with this error: the direction first,
    /// then the kind, then the timestamp.
    pub open spec fn fails_with(self, error: StoreError) -> bool {
        if Direction::of_column(self.direction@) is None {
            error.is_sqlite(conversion_text("unknown direction: "@ + self.direction@))
        } else if EventType::of_column(self.event_type@) is None {
            error.is_sqlite(conversion_text("unknown event_type: "@ + self.event_type@))
        } else {
            is_time_failure(self.timestamp@, error)
        }
    }

    /// Whether the stored columns are what inserting the message wrote.
    pub open spec fn stores(self, msg: NewMessage) -> bool {
        &&& self.platform_msg_id@ == msg.platform_msg_id@
        &&& self.direction@ == msg.direction.column()
        &&& self.event_type@ == msg.event_type.column()
        &&& is_stored_time(self.timestamp@, msg.timestamp)
        &&& self.sender_id@ == msg.sender_id@
        &&& self.sender_display_name@ == msg.sender_display_name@
        &&& opt_text(self.sender_username) == opt_text(msg.sender_username)
        &&& self.text@ == msg.text@
        &&& opt_text(self.reply_to_platform_msg_id) == opt_text(msg.reply_to_platform_msg_id)
        &&& self.mentions_bot == msg.mentions_bot
        &&& self.is_reply_to_bot == msg.is_reply_to_bot
    }
}

/// Reads a row of the log.
pub fn message_row(record: MessageRecord) -> (r: Result<MessageRow>)
    ensures
        match r {
            Ok(row) => record.holds(row),
            Err(error) => record.fails_with(error),
        },
{
    let direction = match Direction::from_str(record.direction.as_str()) {
        Ok(direction) => direction,
        Err(error) => {
            return Err(error);
        },
    };
    let event_type = match EventType::from_str(record.event_type.as_str()) {
        Ok(event_type) => event_type,
        Err(error) => {
            return Err(error);
        },
    };
    let timestamp = match parse_rfc3339(record.timestamp.as_str()) {
        Ok(timestamp) => timestamp,
        Err(error) => {
            return Err(error);
        },
    };
    Ok(
        MessageRow {
            id: record.id,
            platform_msg_id: record.platform_msg_id,
            direction,
            event_type,
            timestamp,
            sender_id: record.sender_id,
            sender_display_name: record.sender_display_name,
            sender_username: record.sender_username,
            text: record.text,
            reply_to_platform_msg_id: record.reply_to_platform_msg_id,
            mentions_bot: record.mentions_bot,
            is_reply_to_bot: record.is_reply_to_bot,
        },
    )
}

/// A logged message reads back as it was inserted: reading the stored columns
/// succeeds, and gives the same direction, kind, moment, sender and text.
pub proof fn law_message_reads_back(msg: NewMessage, record: MessageRecord, row: MessageRow)
    requires
        record.stores(msg),
    ensures
        forall|error: StoreError| !record.fails_with(error),
        record.holds(row) ==> {
            &&& row.platform_msg_id@ == msg.platform_msg_id@
            &&& row.direction == msg.direction
            &&& row.event_type == msg.event_type
            &&& row.timestamp.local_nanos() == msg.timestamp.local_nanos()
            &&& row.timestamp.offset_seconds() == msg.timestamp.offset_seconds()
            &&& row.sender_id@ == msg.sender_id@
            &&& row.sender_display_name@ == msg.sender_display_name@
            &&& opt_text(row.sender_username) == opt_text(msg.sender_username)
            &&& row.text@ == msg.text@
            &&& opt_text(row.reply_to_platform_msg_id) == opt_text(msg.reply_to_platform_msg_id)
            &&& row.mentions_bot == msg.mentions_bot
            &&& row.is_reply_to_bot == msg.is_reply_to_bot
        },
{
    msg.direction.law_column_reads_back();
    msg.event_type.law_column_reads_back();
}

} // verus!
