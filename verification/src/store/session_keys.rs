//! The persisted half of the language-model session identifiers.
//!
//! Each purpose of a group has one suffix. It is minted at random when it is first
//! asked for and never changes afterwards.

use crate::store::error::{Result, StoreError, format_rfc3339, unwritable_text};
use crate::store::statement::{Command, Statement, command, text};
use crate::store::tables::{kept_first, law_first_write_stays};
use crate::timestamp::Timestamp;
use vstd::prelude::*;

verus! {

/// The suffix of a purpose.
pub const SELECT_SESSION_SUFFIX: &'static str = "SELECT session_suffix FROM llm_session_keys
 WHERE chat_id = ?1 AND purpose = ?2";

/// Stores a suffix; an existing one stays.
pub const INSERT_SESSION_SUFFIX: &'static str = "INSERT OR IGNORE INTO llm_session_keys
    (chat_id, purpose, session_suffix, created_at)
 VALUES (?1, ?2, ?3, ?4)";

/// The URL-safe base64 text of bytes, without padding.
pub uninterp spec fn base64_url_text(bytes: Seq<u8>) -> Seq<char>;

/// Whether the character is one of the URL-safe base64 alphabet.
pub open spec fn is_base64_url_char(c: char) -> bool {
    ||| 'A' <= c <= 'Z'
    ||| 'a' <= c <= 'z'
    ||| '0' <= c <= '9'
    ||| c == '-'
    ||| c == '_'
}

/// Whether every character is one of the URL-safe base64 alphabet.
pub open spec fn is_base64_url(chars: Seq<char>) -> bool {
    forall|i: int| 0 <= i < chars.len() ==> is_base64_url_char(#[trigger] chars[i])
}

/// `base64::Engine::encode` with the URL-safe alphabet and without padding: four
/// characters for three bytes, each of the alphabet.
#[verifier::external_body]
fn base64_url(bytes: &[u8]) -> (r: String)
    ensures
        r@ == base64_url_text(bytes@),
        r@.len() == (4 * bytes@.len() + 2) / 3,
        is_base64_url(r@),
{
    base64::Engine::encode(&base64::engine::general_purpose::URL_SAFE_NO_PAD, bytes)
}

/// `rand::RngCore::fill_bytes` of the thread's generator: any twelve bytes.
#[verifier::external_body]
fn random_bytes() -> (r: [u8; 12]) {
    let mut bytes = [0u8; 12];
    rand::RngCore::fill_bytes(&mut rand::rng(), &mut bytes);
    bytes
}

/// The suffix of twelve bytes: sixteen URL-safe characters.
pub fn suffix_of(bytes: &[u8; 12]) -> (r: String)
    ensures
        r@ == base64_url_text(bytes@),
        r@.len() == 16,
        is_base64_url(r@),
{
    base64_url(bytes.as_slice())
}

/// A suffix of twelve random bytes.
pub fn mint_suffix() -> (r: String)
    ensures
        r@.len() == 16,
        is_base64_url(r@),
{
    let bytes = random_bytes();
    suffix_of(&bytes)
}

/// Looks the suffix of a purpose up.
pub fn find_session_suffix(chat_id: &str, purpose: &str) -> (r: Statement)
    ensures
        r@ == command(SELECT_SESSION_SUFFIX, seq![text(chat_id@), text(purpose@)]),
{
    Statement::new(SELECT_SESSION_SUFFIX).with_text(chat_id).with_text(purpose)
}

/// The statement that stores a suffix, unless there is one.
pub open spec fn insert_command(
    chat_id: Seq<char>,
    purpose: Seq<char>,
    suffix: Seq<char>,
    stamp: Seq<char>,
) -> Command {
    command(
        INSERT_SESSION_SUFFIX,
        seq![text(chat_id), text(purpose), text(suffix), text(stamp)],
    )
}

/// What a lookup leads to.
#[derive(Debug, Clone, PartialEq, Eq)]
pub enum SuffixStep {
    /// The suffix is stored: it is the answer.
    Found(String),
    /// There is none yet: store one, then look it up again.
    Insert(Statement),
}

/// What a lookup leads to, with the suffix to store where none was found.
pub fn after_lookup(
    chat_id: &str,
    purpose: &str,
    existing: Option<String>,
    minted: &str,
    now: &Timestamp,
) -> (r: Result<SuffixStep>)
    ensures
        match (existing, r) {
            (Some(suffix), Ok(SuffixStep::Found(answer))) => answer@ == suffix@,
            (None, Ok(SuffixStep::Insert(statement))) => now.writable() && statement@
                == insert_command(chat_id@, purpose@, minted@, now.text()),
            (None, Err(error)) => !now.writable() && error.is_sqlite(unwritable_text(*now)),
            _ => false,
        },
{
    match existing {
        Some(suffix) => Ok(SuffixStep::Found(suffix)),
        None => match format_rfc3339(now) {
            Ok(stamp) => Ok(
                SuffixStep::Insert(
                    Statement::new(INSERT_SESSION_SUFFIX).with_text(chat_id).with_text(
                        purpose,
                    ).with_text(minted).with_text(stamp.as_str()),
                ),
            ),
            Err(error) => Err(error),
        },
    }
}

/// What a lookup leads to. A stored suffix is the answer as it is; otherwise a fresh
/// one is minted to be stored. Lookup, insert and second lookup belong into one
/// transaction.
pub fn get_or_insert_session_suffix(
    chat_id: &str,
    purpose: &str,
    existing: Option<String>,
    now: &Timestamp,
) -> (r: Result<SuffixStep>)
    ensures
        match (existing, r) {
            (Some(suffix), Ok(SuffixStep::Found(answer))) => answer@ == suffix@,
            (None, Ok(SuffixStep::Insert(statement))) => now.writable() && exists|minted: Seq<char>|
                #![trigger is_base64_url(minted)]
                minted.len() == 16 && is_base64_url(minted) && statement@ == insert_command(
                    chat_id@,
                    purpose@,
                    minted,
                    now.text(),
                ),
            (None, Err(error)) => !now.writable() && error.is_sqlite(unwritable_text(*now)),
            _ => false,
        },
{
    match existing {
        Some(suffix) => Ok(SuffixStep::Found(suffix)),
        None => {
            let minted = mint_suffix();
            after_lookup(chat_id, purpose, None, minted.as_str(), now)
        },
    }
}

/// The answer of the second lookup: whatever suffix is stored. None at all is a
/// failure of the database.
pub fn after_insert(stored: Option<String>) -> (r: Result<String>)
    ensures
        match (stored, r) {
            (Some(suffix), Ok(answer)) => answer@ == suffix@,
            (None, Err(error)) => error.is_sqlite("Query returned no rows"@),
            _ => false,
        },
{
    match stored {
        Some(suffix) => Ok(suffix),
        None => Err(StoreError::Sqlite("Query returned no rows".to_owned())),
    }
}

/// The suffix of a chat and purpose that callers get, by the stored suffixes and what
/// they would mint: the second lookup after the insert.
pub open spec fn answer(
    table: Map<(Seq<char>, Seq<char>), Seq<char>>,
    key: (Seq<char>, Seq<char>),
    minted: Seq<char>,
) -> Seq<char> {
    kept_first(table, key, minted)[key]
}

/// A suffix never changes: a stored one is the answer, and once a caller has an
/// answer, every later caller gets the same one, whatever it mints.
pub proof fn law_suffix_never_changes(
    table: Map<(Seq<char>, Seq<char>), Seq<char>>,
    key: (Seq<char>, Seq<char>),
    minted: Seq<char>,
    later: Seq<char>,
)
    ensures
        table.contains_key(key) ==> answer(table, key, minted) == table[key],
        !table.contains_key(key) ==> answer(table, key, minted) == minted,
        answer(kept_first(table, key, minted), key, later) == answer(table, key, minted),
{
    law_first_write_stays(table, key, minted, key, later);
}

} // verus!
