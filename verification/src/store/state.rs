//! The session state of a group: texts under keys, and counters among them.

use crate::store::error::{Result, StoreError, format_rfc3339, unwritable_text};
use crate::store::statement::{Command, Statement, command, commands, text};
use crate::text::{
    concat3, i64_of_text, i64_text, int_text, lemma_int_text_reads_back, opt_text, parse_i64,
};
use crate::timestamp::Timestamp;
use vstd::prelude::*;

verus! {

/// The value of a key.
pub const SELECT_STATE: &'static str = "SELECT value FROM state WHERE key = ?1";

/// Writes the value of a key, replacing an earlier one.
pub const UPSERT_STATE: &'static str = "INSERT INTO state (key, value, updated_at) VALUES (?1, ?2, ?3)
 ON CONFLICT(key) DO UPDATE SET
    value = excluded.value,
    updated_at = excluded.updated_at";

/// Every key with its value.
pub const SELECT_ALL_STATE: &'static str = "SELECT key, value FROM state";

/// The value of a key.
pub fn get_state(key: &str) -> (r: Statement)
    ensures
        r@ == command(SELECT_STATE, seq![text(key@)]),
{
    Statement::new(SELECT_STATE).with_text(key)
}

/// The statement that writes the value of a key.
pub open spec fn upsert_command(key: Seq<char>, value: Seq<char>, stamp: Seq<char>) -> Command {
    command(UPSERT_STATE, seq![text(key), text(value), text(stamp)])
}

/// Writes the value of a key, replacing an earlier one.
pub fn set_state(key: &str, value: &str, now: &Timestamp) -> (r: Result<Statement>)
    ensures
        match r {
            Ok(statement) => now.writable() && statement@ == upsert_command(
                key@,
                value@,
                now.text(),
            ),
            Err(error) => !now.writable() && error.is_sqlite(unwritable_text(*now)),
        },
{
    match format_rfc3339(now) {
        Ok(stamp) => Ok(
            Statement::new(UPSERT_STATE).with_text(key).with_text(value).with_text(stamp.as_str()),
        ),
        Err(error) => Err(error),
    }
}

/// Writes the values of several keys, in one transaction.
pub fn set_state_many(pairs: &[(String, String)], now: &Timestamp) -> (r: Result<Vec<Statement>>)
    ensures
        match r {
            Ok(statements) => (now.writable() || pairs@.len() == 0) && commands(statements@)
                == pairs@.map_values(
                |pair: (String, String)| upsert_command(pair.0@, pair.1@, now.text()),
            ),
            Err(error) => !now.writable() && pairs@.len() > 0 && error.is_sqlite(
                unwritable_text(*now),
            ),
        },
{
    let ghost expected = pairs@.map_values(
        |pair: (String, String)| upsert_command(pair.0@, pair.1@, now.text()),
    );
    let mut out: Vec<Statement> = Vec::new();
    let mut i: usize = 0;
    while i < pairs.len()
        invariant
            i <= pairs@.len(),
            i > 0 ==> now.writable(),
            expected == pairs@.map_values(
                |pair: (String, String)| upsert_command(pair.0@, pair.1@, now.text()),
            ),
            commands(out@) =~= expected.take(i as int),
        decreases pairs@.len() - i,
    {
        let ghost before = out@;
        match set_state(pairs[i].0.as_str(), pairs[i].1.as_str(), now) {
            Ok(statement) => {
                out.push(statement);
                assert(commands(out@) =~= commands(before).push(statement@));
            },
            Err(error) => {
                return Err(error);
            },
        }
        i += 1;
    }
    Ok(out)
}

/// Every key with its value.
pub fn load_all_state() -> (r: Statement)
    ensures
        r@ == command(SELECT_ALL_STATE, seq![]),
{
    Statement::new(SELECT_ALL_STATE)
}

/// The number a counter stands at: zero where it has no value yet, nothing where its
/// value is no number.
pub open spec fn counter_base(current: Option<Seq<char>>) -> Option<int> {
    match current {
        None => Some(0),
        Some(value) => i64_of_text(value),
    }
}

/// The text that names an overflow.
pub open spec fn overflow_text(base: int, delta: int) -> Seq<char> {
    int_text(base) + " (overflow on +"@ + int_text(delta) + ")"@
}

/// The next number of a counter, by its current value.
pub fn next_count(key: &str, current: &Option<String>, delta: i64) -> (r: Result<i64>)
    ensures
        match (counter_base(opt_text(*current)), r) {
            (Some(base), Ok(next)) => next == base + delta,
            (Some(base), Err(error)) => !(i64::MIN <= base + delta <= i64::MAX)
                && error.is_invalid(key@, overflow_text(base, delta as int)),
            (None, Err(error)) => error.is_invalid(key@, opt_text(*current)->Some_0),
            (None, Ok(_)) => false,
        },
{
    let base: i64 = match current {
        None => 0,
        Some(value) => match parse_i64(value.as_str()) {
            Some(base) => base,
            None => {
                return Err(
                    StoreError::InvalidValue { key: key.to_owned(), value: value.clone() },
                );
            },
        },
    };
    match base.checked_add(delta) {
        Some(next) => Ok(next),
        None => {
            let detail = concat3(
                i64_text(base).as_str(),
                " (overflow on +",
                i64_text(delta).as_str(),
            ).concat(")");
            Err(StoreError::InvalidValue { key: key.to_owned(), value: detail })
        },
    }
}

/// Moves a counter on: its next number and the statement that writes it. The read
/// of the current value and the write belong into one transaction.
pub fn increment_counter(key: &str, current: &Option<String>, delta: i64, now: &Timestamp) -> (r:
    Result<(i64, Statement)>)
    ensures
        match (counter_base(opt_text(*current)), r) {
            (Some(base), Ok(step)) => {
                &&& step.0 == base + delta
                &&& now.writable()
                &&& step.1@ == upsert_command(key@, int_text(base + delta), now.text())
            },
            (Some(base), Err(error)) => if i64::MIN <= base + delta <= i64::MAX {
                !now.writable() && error.is_sqlite(unwritable_text(*now))
            } else {
                error.is_invalid(key@, overflow_text(base, delta as int))
            },
            (None, Err(error)) => error.is_invalid(key@, opt_text(*current)->Some_0),
            (None, Ok(_)) => false,
        },
{
    match next_count(key, current, delta) {
        Ok(next) => match set_state(key, i64_text(next).as_str(), now) {
            Ok(statement) => Ok((next, statement)),
            Err(error) => Err(error),
        },
        Err(error) => Err(error),
    }
}

/// A counter stands at the number that was written last, so moves add up: moving it
/// twice gives the sum of both moves.
pub proof fn law_moves_add_up(current: Option<Seq<char>>, first: int, second: int)
    requires
        counter_base(current) matches Some(base) && i64::MIN <= base + first <= i64::MAX
            && i64::MIN <= base + first + second <= i64::MAX,
    ensures
        counter_base(Some(int_text(counter_base(current)->Some_0 + first))) == Some(
            counter_base(current)->Some_0 + first,
        ),
        counter_base(Some(int_text(counter_base(current)->Some_0 + first)))->Some_0 + second
            == counter_base(current)->Some_0 + (first + second),
{
    lemma_int_text_reads_back(counter_base(current)->Some_0 + first);
}

} // verus!
