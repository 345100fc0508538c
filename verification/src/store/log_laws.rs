//! What the statements of the message log do to it, and what follows.

use crate::store::log::{Direction, EventType, NewMessage};
use vstd::prelude::*;

verus! {

/// One row of the log, by the columns that identify and order it.
#[verifier::ext_equal]
pub struct LogEntry {
    pub id: int,
    pub platform_msg_id: Seq<char>,
    pub direction: Direction,
    pub event_type: EventType,
    pub timestamp: Seq<char>,
    pub text: Seq<char>,
    pub sender_id: Seq<char>,
    pub sender_display_name: Seq<char>,
}

impl NewMessage {
    /// The row of the message under an identifier.
    pub open spec fn entry(self, id: int) -> LogEntry {
        LogEntry {
            id,
            platform_msg_id: self.platform_msg_id@,
            direction: self.direction,
            event_type: self.event_type,
            timestamp: self.timestamp.text(),
            text: self.text@,
            sender_id: self.sender_id@,
            sender_display_name: self.sender_display_name@,
        }
    }
}

/// Whether two rows are the same event: the unique index of the table.
pub open spec fn same_event(a: LogEntry, b: LogEntry) -> bool {
    &&& a.platform_msg_id == b.platform_msg_id
    &&& a.direction == b.direction
    &&& a.event_type == b.event_type
    &&& a.timestamp == b.timestamp
    &&& a.text == b.text
}

/// Whether the log has the event.
pub open spec fn has_event(log: Seq<LogEntry>, entry: LogEntry) -> bool {
    exists|i: int| 0 <= i < log.len() && same_event(#[trigger] log[i], entry)
}

/// The log after `INSERT_MESSAGE`: the row at the end, unless the event is there.
pub open spec fn appended(log: Seq<LogEntry>, entry: LogEntry) -> Seq<LogEntry> {
    if has_event(log, entry) {
        log
    } else {
        log.push(entry)
    }
}

/// Whether the identifiers ascend, as the database assigns them.
pub open spec fn ascends(log: Seq<LogEntry>) -> bool {
    forall|i: int, j: int|
        0 <= i < j < log.len() ==> (#[trigger] log[i]).id < (#[trigger] log[j]).id
}

/// Whether the identifier is later than every one of the log.
pub open spec fn is_fresh(log: Seq<LogEntry>, id: int) -> bool {
    forall|i: int| 0 <= i < log.len() ==> (#[trigger] log[i]).id < id
}

/// The rows that `SELECT_MESSAGES_IN_RANGE` gives: those after one identifier up to
/// another one.
pub open spec fn in_range(log: Seq<LogEntry>, after: int, up_to: int) -> Seq<LogEntry>
    decreases log.len(),
{
    if log.len() == 0 {
        Seq::empty()
    } else {
        let rest = in_range(log.drop_last(), after, up_to);
        if after < log.last().id <= up_to {
            rest.push(log.last())
        } else {
            rest
        }
    }
}

/// The rows that `SELECT_MESSAGES_AFTER` gives: those after an identifier.
pub open spec fn after(log: Seq<LogEntry>, id: int) -> Seq<LogEntry>
    decreases log.len(),
{
    if log.len() == 0 {
        Seq::empty()
    } else {
        let rest = after(log.drop_last(), id);
        if id < log.last().id {
            rest.push(log.last())
        } else {
            rest
        }
    }
}

/// The rows that `SELECT_LATEST_MESSAGES` gives, newest first.
pub open spec fn newest(log: Seq<LogEntry>, limit: nat) -> Seq<LogEntry> {
    if limit >= log.len() {
        log.reverse()
    } else {
        log.skip(log.len() - limit).reverse()
    }
}

/// The row that `SELECT_REPLY_TARGET` gives: the first one of a platform identifier.
pub open spec fn reply_target(log: Seq<LogEntry>, platform_msg_id: Seq<char>) -> Option<LogEntry>
    decreases log.len(),
{
    if log.len() == 0 {
        None
    } else if log[0].platform_msg_id == platform_msg_id {
        Some(log[0])
    } else {
        reply_target(log.skip(1), platform_msg_id)
    }
}

/// The row that `SELECT_LATEST_MESSAGE` gives: the last one of a platform identifier.
pub open spec fn latest_of(log: Seq<LogEntry>, platform_msg_id: Seq<char>) -> Option<LogEntry>
    decreases log.len(),
{
    if log.len() == 0 {
        None
    } else if log.last().platform_msg_id == platform_msg_id {
        Some(log.last())
    } else {
        latest_of(log.drop_last(), platform_msg_id)
    }
}

/// Inserting a message again changes nothing, whenever it is redelivered.
pub proof fn law_redelivery_changes_nothing(
    log: Seq<LogEntry>,
    msg: NewMessage,
    id: int,
    between: LogEntry,
    again: int,
)
    ensures
        ({
            let once = appended(log, msg.entry(id));
            &&& appended(once, msg.entry(again)) == once
            &&& appended(appended(once, between), msg.entry(again)) == appended(once, between)
        }),
{
    let once = appended(log, msg.entry(id));
    if has_event(log, msg.entry(id)) {
        let i = choose|i: int| 0 <= i < log.len() && same_event(#[trigger] log[i], msg.entry(id));
        assert(same_event(once[i], msg.entry(again)));
        assert(same_event(appended(once, between)[i], msg.entry(again)));
    } else {
        assert(same_event(once[log.len() as int], msg.entry(again)));
        assert(same_event(appended(once, between)[log.len() as int], msg.entry(again)));
    }
}

/// Two edits of one message with different texts both land, even in the same second.
pub proof fn law_different_texts_both_land(
    log: Seq<LogEntry>,
    first: NewMessage,
    second: NewMessage,
    id: int,
    next: int,
)
    requires
        first.text@ != second.text@,
        !has_event(log, first.entry(id)),
        !has_event(log, second.entry(next)),
    ensures
        appended(appended(log, first.entry(id)), second.entry(next)) == log.push(
            first.entry(id),
        ).push(second.entry(next)),
{
    let once = log.push(first.entry(id));
    if has_event(once, second.entry(next)) {
        let i = choose|i: int|
            0 <= i < once.len() && same_event(#[trigger] once[i], second.entry(next));
        if i < log.len() {
            assert(same_event(log[i], second.entry(next)));
        }
    }
}

/// The log only grows, in ascending order: no row is changed, moved or removed.
pub proof fn law_log_only_grows(log: Seq<LogEntry>, msg: NewMessage, id: int)
    requires
        ascends(log),
        is_fresh(log, id),
    ensures
        ascends(appended(log, msg.entry(id))),
        log.is_prefix_of(appended(log, msg.entry(id))),
{
}

proof fn lemma_reply_target_push(log: Seq<LogEntry>, entry: LogEntry, platform_msg_id: Seq<char>)
    ensures
        reply_target(log, platform_msg_id) is Some ==> reply_target(
            log.push(entry),
            platform_msg_id,
        ) == reply_target(log, platform_msg_id),
    decreases log.len(),
{
    if log.len() > 0 {
        assert(log.push(entry).skip(1) =~= log.skip(1).push(entry));
        lemma_reply_target_push(log.skip(1), entry, platform_msg_id);
    }
}

/// The target of a reply stays the original row, whatever is logged later, its own
/// edits included.
pub proof fn law_reply_target_stays(
    log: Seq<LogEntry>,
    entry: LogEntry,
    platform_msg_id: Seq<char>,
)
    requires
        reply_target(log, platform_msg_id) is Some,
    ensures
        reply_target(appended(log, entry), platform_msg_id) == reply_target(log, platform_msg_id),
{
    lemma_reply_target_push(log, entry, platform_msg_id);
}

/// A logged row is the latest one of its platform identifier.
pub proof fn law_logged_row_is_latest(log: Seq<LogEntry>, entry: LogEntry)
    requires
        !has_event(log, entry),
    ensures
        latest_of(appended(log, entry), entry.platform_msg_id) == Some(entry),
{
    assert(log.push(entry).drop_last() =~= log);
}

proof fn lemma_none_above(log: Seq<LogEntry>, id: int)
    requires
        forall|i: int| 0 <= i < log.len() ==> (#[trigger] log[i]).id <= id,
    ensures
        after(log, id).len() == 0,
    decreases log.len(),
{
    if log.len() > 0 {
        assert(log[log.len() - 1].id <= id);
        assert forall|i: int| 0 <= i < log.drop_last().len() implies (
        #[trigger] log.drop_last()[i]).id <= id by {
            assert(log[i].id <= id);
        }
        lemma_none_above(log.drop_last(), id);
    }
}

/// Reading the log from a row on is reading up to a later row and then on from
/// there: nothing is read twice or left out.
pub proof fn law_ranges_join(log: Seq<LogEntry>, from: int, middle: int)
    requires
        ascends(log),
        from <= middle,
    ensures
        after(log, from) == in_range(log, from, middle) + after(log, middle),
    decreases log.len(),
{
    if log.len() > 0 {
        let shorter = log.drop_last();
        assert forall|i: int, j: int| 0 <= i < j < shorter.len() implies (#[trigger] shorter[i]).id
            < (#[trigger] shorter[j]).id by {
            assert(log[i].id < log[j].id);
        }
        law_ranges_join(shorter, from, middle);
        if log.last().id <= middle {
            assert forall|i: int| 0 <= i < shorter.len() implies (#[trigger] shorter[i]).id
                <= middle by {
                assert(log[i].id < log[log.len() - 1].id);
            }
            lemma_none_above(shorter, middle);
        }
        assert(after(log, from) =~= in_range(log, from, middle) + after(log, middle));
    } else {
        assert(after(log, from) =~= in_range(log, from, middle) + after(log, middle));
    }
}

/// The newest rows, turned round, are the end of the log in its own order.
pub proof fn law_newest_turned_round(log: Seq<LogEntry>, limit: nat)
    ensures
        newest(log, limit).reverse().is_suffix_of(log),
        newest(log, limit).len() == (if limit >= log.len() {
            log.len()
        } else {
            limit
        }),
{
    let end = if limit >= log.len() {
        log
    } else {
        log.skip(log.len() - limit)
    };
    assert(end.reverse().reverse() =~= end);
}

} // verus!
