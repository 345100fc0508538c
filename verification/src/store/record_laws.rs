//! Which column of a stored row carries which value, when it is written and when it is
//! read.

use crate::store::dead_letters::GroupStatus;
use crate::store::error::{
    StoreError, conversion_text, is_stored_time, is_time_failure, unwritable_component,
    unwritable_text,
};
use crate::store::log::{
    Direction, EventType, INSERT_MESSAGE, MessageRecord, MessageRow, NewMessage,
};
use crate::store::merge_audit::{INSERT_MERGE_AUDIT, MergeAuditRecord, MergeAuditRow};
use crate::store::reactions::{
    INSERT_REACTION, NewReaction, ReactionRecord, ReactionRow, is_emoji_failure, json_array,
    json_array_text, reads_as_array,
};
use crate::store::statement::{
    Command, Datum, SqlValue, Statement, command, commands, flag, integer, nullable, text,
};
use crate::text::{int_text, opt_text, texts};
use crate::timestamp::{Timestamp, rfc3339_reading};
use vstd::prelude::*;

verus! {

/// The parameter of a column that may be empty.
pub open spec fn optional(value: Option<String>) -> Datum {
    match value {
        Some(chars) => Datum::Text(chars@),
        None => Datum::Null,
    }
}

/// A parameter is the value that it is made from: NULL where there is none, and 1 or 0
/// for a truth value.
pub proof fn law_parameters(
    sql: &'static str,
    params: Seq<Datum>,
    value: Seq<char>,
    maybe: Option<String>,
    n: int,
    statements: Seq<Statement>,
)
    ensures
        command(sql, params) == (Command { sql: sql@, params }),
        text(value) == Datum::Text(value),
        nullable(maybe) == optional(maybe),
        integer(n) == Datum::Integer(n),
        flag(true) == Datum::Integer(1),
        flag(false) == Datum::Integer(0),
        commands(statements).len() == statements.len(),
        forall|i: int|
            0 <= i < statements.len() ==> #[trigger] commands(statements)[i] == statements[i]@,
{
}

/// The model sees a statement with its text and its parameters, one for one.
pub proof fn law_statements(statement: Statement, i: int, n: i64, chars: String, bytes: Vec<u8>)
    ensures
        statement@.sql == statement.sql@,
        statement@.params.len() == statement.params@.len(),
        0 <= i < statement.params@.len() ==> statement@.params[i] == statement.params@[i]@,
        SqlValue::Null@ == Datum::Null,
        SqlValue::Integer(n)@ == Datum::Integer(n as int),
        SqlValue::Text(chars)@ == Datum::Text(chars@),
        SqlValue::Blob(bytes)@ == Datum::Blob(bytes@),
{
}

// ----- the log -----

/// The columns that a message is stored in are the parameters of its statement, in the
/// order of the columns.
pub proof fn law_message_columns(msg: NewMessage, record: MessageRecord)
    requires
        record.stores(msg),
        record.timestamp@ == msg.timestamp.text(),
    ensures
        msg.command().sql == INSERT_MESSAGE@,
        msg.command().params == seq![
            Datum::Text(record.platform_msg_id@),
            Datum::Text(record.direction@),
            Datum::Text(record.event_type@),
            Datum::Text(record.timestamp@),
            Datum::Text(record.sender_id@),
            Datum::Text(record.sender_display_name@),
            optional(record.sender_username),
            Datum::Text(record.text@),
            optional(record.reply_to_platform_msg_id),
            Datum::Integer(
                if record.mentions_bot {
                    1
                } else {
                    0
                },
            ),
            Datum::Integer(
                if record.is_reply_to_bot {
                    1
                } else {
                    0
                },
            ),
        ],
        record.platform_msg_id@ == msg.platform_msg_id@,
        record.sender_id@ == msg.sender_id@,
        record.sender_display_name@ == msg.sender_display_name@,
        opt_text(record.sender_username) == opt_text(msg.sender_username),
        record.text@ == msg.text@,
        opt_text(record.reply_to_platform_msg_id) == opt_text(msg.reply_to_platform_msg_id),
        record.mentions_bot == msg.mentions_bot,
        record.is_reply_to_bot == msg.is_reply_to_bot,
{
}

/// A stored message is read column by column, and fails at the first of its direction,
/// its kind and its time that does not read.
pub proof fn law_message_is_read(record: MessageRecord, row: MessageRow, error: StoreError)
    ensures
        record.holds(row) ==> row.id == record.id && row.platform_msg_id@
            == record.platform_msg_id@ && row.sender_id@ == record.sender_id@
            && row.sender_display_name@ == record.sender_display_name@ && row.text@ == record.text@
            && row.mentions_bot == record.mentions_bot && row.is_reply_to_bot
            == record.is_reply_to_bot && opt_text(row.sender_username) == opt_text(
            record.sender_username,
        ) && opt_text(row.reply_to_platform_msg_id) == opt_text(record.reply_to_platform_msg_id)
            && rfc3339_reading(record.timestamp@) == Ok::<(int, int), Seq<char>>(
            (row.timestamp.local_nanos(), row.timestamp.offset_seconds()),
        ),
        record.holds(row) ==> record.direction@ == row.direction.column() && record.event_type@
            == row.event_type.column(),
        record.fails_with(error) && Direction::of_column(record.direction@) is None
            ==> error.is_sqlite(
            "Conversion error from type Text at index: 0, "@ + ("unknown direction: "@
                + record.direction@),
        ),
        record.fails_with(error) && Direction::of_column(record.direction@) is Some
            && EventType::of_column(record.event_type@) is None ==> error.is_sqlite(
            "Conversion error from type Text at index: 0, "@ + ("unknown event_type: "@
                + record.event_type@),
        ),
        record.fails_with(error) && Direction::of_column(record.direction@) is Some
            && EventType::of_column(record.event_type@) is Some ==> (rfc3339_reading(
            record.timestamp@,
        ) matches Err(detail) && error.is_sqlite(
            "Conversion error from type Text at index: 0, "@ + detail,
        )),
{
}

/// The directions and the kinds have these names in the database, and no other ones.
pub proof fn law_column_names(value: Seq<char>, direction: Direction, kind: EventType)
    ensures
        Direction::of_column(value) == Some(direction) <==> value == direction.column(),
        EventType::of_column(value) == Some(kind) <==> value == kind.column(),
        Direction::Inbound.column() == "inbound"@,
        Direction::Outbound.column() == "outbound"@,
        EventType::Message.column() == "message"@,
        EventType::Edit.column() == "edit"@,
{
    direction.law_column_reads_back();
    kind.law_column_reads_back();
}

// ----- reactions -----

/// The columns that a reaction is stored in are the parameters of its statement, in the
/// order of the columns: the emojis before the event ahead of those after it.
pub proof fn law_reaction_columns(reaction: NewReaction)
    ensures
        reaction.command().sql == INSERT_REACTION@,
        reaction.command().params == seq![
            Datum::Text(reaction.platform_msg_id@),
            optional(reaction.reactor_user_id),
            Datum::Integer(
                if reaction.anonymous {
                    1
                } else {
                    0
                },
            ),
            Datum::Integer(
                if reaction.aggregated {
                    1
                } else {
                    0
                },
            ),
            Datum::Text(json_array_text(texts(reaction.old_emojis@))),
            Datum::Text(json_array_text(texts(reaction.new_emojis@))),
            Datum::Text(reaction.timestamp.text()),
        ],
{
}

/// A stored reaction is read column by column, and fails at the first of both lists of
/// emojis and its time that does not read.
pub proof fn law_reaction_is_read(record: ReactionRecord, row: ReactionRow, error: StoreError)
    ensures
        record.holds(row) ==> row.id == record.id && row.platform_msg_id@
            == record.platform_msg_id@ && opt_text(row.reactor_user_id) == opt_text(
            record.reactor_user_id,
        ) && row.anonymous == record.anonymous && row.aggregated == record.aggregated,
        record.holds(row) ==> json_array(record.old_emojis@) == Ok::<Seq<Seq<char>>, Seq<char>>(
            texts(row.old_emojis@),
        ) && json_array(record.new_emojis@) == Ok::<Seq<Seq<char>>, Seq<char>>(
            texts(row.new_emojis@),
        ) && rfc3339_reading(record.timestamp@) == Ok::<(int, int), Seq<char>>(
            (row.timestamp.local_nanos(), row.timestamp.offset_seconds()),
        ),
        record.fails_with(error) ==> match json_array(record.old_emojis@) {
            Err(detail) => error.is_sqlite(
                "Conversion error from type Text at index: 0, "@ + detail,
            ),
            Ok(_) => match json_array(record.new_emojis@) {
                Err(detail) => error.is_sqlite(
                    "Conversion error from type Text at index: 0, "@ + detail,
                ),
                Ok(_) => rfc3339_reading(record.timestamp@) matches Err(detail)
                    && error.is_sqlite("Conversion error from type Text at index: 0, "@ + detail),
            },
        },
{
}

/// A stored list reads as the strings that are in it, or fails with its error.
pub proof fn law_lists_are_read(json: Seq<char>, items: Seq<Seq<char>>, error: StoreError)
    ensures
        reads_as_array(json, items) <==> json_array(json) == Ok::<Seq<Seq<char>>, Seq<char>>(
            items,
        ),
        is_emoji_failure(json, error) <==> (json_array(json) matches Err(detail)
            && error.is_sqlite("Conversion error from type Text at index: 0, "@ + detail)),
{
}

// ----- the status of a group -----

/// The state of a group holds a value under a key where one of its pairs is the key and
/// the value.
pub proof fn law_group_state(status: GroupStatus, key: Seq<char>, value: Seq<char>)
    ensures
        status.holds(key, value) <==> exists|i: int|
            0 <= i < status.state@.len() && (#[trigger] status.state@[i]).0@ == key
                && status.state@[i].1@ == value,
{
}

// ----- verdicts -----

/// The columns that a verdict is recorded in are the parameters of its statement, in the
/// order of the columns.
pub proof fn law_audit_columns(row: MergeAuditRow, stamp: Seq<char>)
    ensures
        row.command(stamp).sql == INSERT_MERGE_AUDIT@,
        row.command(stamp).params == seq![
            Datum::Text(row.loser_id@),
            Datum::Text(row.survivor_id@),
            Datum::Text(row.loser_kind@),
            Datum::Text(row.loser_name@),
            optional(row.loser_description),
            Datum::Text(row.verdict@),
            Datum::Text(row.reason@),
            Datum::Text(row.confirmed_by@),
            Datum::Integer(row.edges_moved as int),
            Datum::Integer(row.self_loops_dropped as int),
            Datum::Integer(row.edges_deduped as int),
            optional(row.snapshot),
            Datum::Text(stamp),
        ],
{
}

/// A recorded verdict is read column by column.
pub proof fn law_audit_is_read(record: MergeAuditRecord, row: MergeAuditRow)
    requires
        record.holds(row),
    ensures
        row.id == record.id,
        row.loser_id@ == record.loser_id@,
        row.survivor_id@ == record.survivor_id@,
        row.loser_kind@ == record.loser_kind@,
        row.loser_name@ == record.loser_name@,
        opt_text(row.loser_description) == opt_text(record.loser_description),
        row.verdict@ == record.verdict@,
        row.reason@ == record.reason@,
        row.confirmed_by@ == record.confirmed_by@,
        row.edges_moved == record.edges_moved,
        row.self_loops_dropped == record.self_loops_dropped,
        row.edges_deduped == record.edges_deduped,
        opt_text(row.snapshot) == opt_text(record.snapshot),
        row.rolled_back == record.rolled_back,
        rfc3339_reading(record.created_at@) == Ok::<(int, int), Seq<char>>(
            (row.created_at.local_nanos(), row.created_at.offset_seconds()),
        ),
{
}

// ----- times and errors -----

/// A stored time reads as its local moment and its offset, or fails with its error.
pub proof fn law_times_are_read(stamp: Seq<char>, at: Timestamp, error: StoreError)
    ensures
        is_stored_time(stamp, at) <==> rfc3339_reading(stamp) == Ok::<(int, int), Seq<char>>(
            (at.local_nanos(), at.offset_seconds()),
        ),
        is_time_failure(stamp, error) <==> (rfc3339_reading(stamp) matches Err(detail)
            && error.is_sqlite("Conversion error from type Text at index: 0, "@ + detail)),
{
}

/// A time that cannot be written is refused by its year, then by its offset hour, and by
/// its offset second where both can be written.
pub proof fn law_unwritable_times(at: Timestamp, detail: Seq<char>)
    ensures
        conversion_text(detail) == "Conversion error from type Text at index: 0, "@ + detail,
        unwritable_text(at) == "The "@ + unwritable_component(at)
            + " component cannot be formatted into the requested format."@,
        at.local_nanos() < -62_167_219_200_000_000_000 || at.local_nanos()
            > 253_402_300_799_999_999_999 ==> unwritable_component(at) == "year"@,
        -62_167_219_200_000_000_000 <= at.local_nanos() <= 253_402_300_799_999_999_999 && (
        at.offset_seconds() <= -86_400 || at.offset_seconds() >= 86_400) ==> unwritable_component(
            at,
        ) == "offset_hour"@,
        -62_167_219_200_000_000_000 <= at.local_nanos() <= 253_402_300_799_999_999_999 && -86_400
            < at.offset_seconds() < 86_400 ==> unwritable_component(at) == "offset_second"@,
{
}

/// The message of an error starts with its kind and holds its details.
pub proof fn law_error_messages(
    detail: String,
    value: String,
    open: usize,
    found: u32,
    known: u32,
    expected: Seq<char>,
    other: Seq<char>,
)
    ensures
        StoreError::Sqlite(detail).text() == "sqlite error: "@ + detail@,
        StoreError::Io(detail).text() == "io error: "@ + detail@,
        StoreError::InvalidChatId(detail).text() == "invalid chat_id: "@ + detail@,
        (StoreError::InvalidValue { key: detail, value }).text()
            == "invalid stored value for key "@ + detail@ + ": "@ + value@,
        StoreError::AmbiguousGroup(open).text()
            == "single-group helpers take no chat_id and need exactly one open group on this Store, found "@
            + int_text(open as int),
        (StoreError::SchemaFromTheFuture { found, known }).text() == "database schema version "@
            + int_text(found as int) + " exceeds this binary's known maximum "@ + int_text(
            known as int,
        )
            + ": the store.db was written by a NEWER tamako; run that binary (or upgrade) instead of opening it with an older one"@,
        StoreError::Sqlite(detail).is_sqlite(expected) <==> expected == detail@,
        (StoreError::InvalidValue { key: detail, value }).is_invalid(expected, other) <==> expected
            == detail@ && other == value@,
{
}

} // verus!
