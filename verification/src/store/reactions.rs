//! Reactions to messages, each event once.

use crate::store::error::{
    Result, StoreError, conversion_failure, conversion_text, format_rfc3339, is_stored_time,
    is_time_failure, parse_rfc3339, unwritable_text,
};
use crate::store::statement::{Command, Statement, command, flag, integer, nullable, text};
use crate::text::{opt_text, texts};
use crate::timestamp::Timestamp;
use vstd::prelude::*;

verus! {

/// Records a reaction, unless it is recorded.
pub const INSERT_REACTION: &'static str = "INSERT OR IGNORE INTO reactions (
    platform_msg_id, reactor_user_id, anonymous, aggregated,
    old_emojis, new_emojis, timestamp
) VALUES (?1, ?2, ?3, ?4, ?5, ?6, ?7)";

/// Every reaction, oldest first.
pub const SELECT_REACTIONS: &'static str =
    "SELECT id, platform_msg_id, reactor_user_id, anonymous, aggregated,
    old_emojis, new_emojis, timestamp
 FROM reactions ORDER BY id";

/// The newest reactions, newest first.
pub const SELECT_LATEST_REACTIONS: &'static str =
    "SELECT id, platform_msg_id, reactor_user_id, anonymous, aggregated,
    old_emojis, new_emojis, timestamp
 FROM reactions ORDER BY id DESC LIMIT ?1";

/// The compact JSON text of an array of strings.
pub uninterp spec fn json_array_text(items: Seq<Seq<char>>) -> Seq<char>;

/// What reading a JSON array of strings gives: the strings, or the text of the
/// error.
pub uninterp spec fn json_array(json: Seq<char>) -> std::result::Result<
    Seq<Seq<char>>,
    Seq<char>,
>;

/// `serde_json::to_string` of an array of strings, which does not fail. Reading the
/// text with `serde_json::from_str` gives the strings again.
#[verifier::external_body]
fn write_json_array(items: &Vec<String>) -> (r: String)
    ensures
        r@ == json_array_text(texts(items@)),
        reads_as_array(r@, texts(items@)),
{
    serde_json::to_string(items).unwrap()
}

/// `serde_json::from_str` into an array of strings; the error is its text.
#[verifier::external_body]
fn read_json_array(json: &str) -> (r: std::result::Result<Vec<String>, String>)
    ensures
        r is Ok <==> json_array(json@) is Ok,
        r matches Ok(items) ==> json_array(json@)->Ok_0 == texts(items@),
        r matches Err(message) ==> json_array(json@)->Err_0 == message@,
{
    serde_json::from_str(json).map_err(|error: serde_json::Error| error.to_string())
}

/// Whether reading the JSON text gives the strings.
pub open spec fn reads_as_array(json: Seq<char>, items: Seq<Seq<char>>) -> bool {
    json_array(json) matches Ok(read) && read == items
}

/// A reaction to record.
#[derive(Debug, Clone)]
pub struct NewReaction {
    pub platform_msg_id: String,
    /// `None` for an aggregated count without a reactor.
    pub reactor_user_id: Option<String>,
    pub anonymous: bool,
    pub aggregated: bool,
    /// The emojis before the event.
    pub old_emojis: Vec<String>,
    /// The emojis after the event.
    pub new_emojis: Vec<String>,
    pub timestamp: Timestamp,
}

/// A row of the `reactions` table.
#[derive(Debug, Clone, PartialEq, Eq)]
pub struct ReactionRow {
    pub id: i64,
    pub platform_msg_id: String,
    /// `None` for an aggregated count without a reactor.
    pub reactor_user_id: Option<String>,
    pub anonymous: bool,
    pub aggregated: bool,
    pub old_emojis: Vec<String>,
    pub new_emojis: Vec<String>,
    pub timestamp: Timestamp,
}

/// The columns of a row as they are stored.
#[derive(Debug, Clone, PartialEq, Eq)]
pub struct ReactionRecord {
    pub id: i64,
    pub platform_msg_id: String,
    pub reactor_user_id: Option<String>,
    pub anonymous: bool,
    pub aggregated: bool,
    pub old_emojis: String,
    pub new_emojis: String,
    pub timestamp: String,
}

impl NewReaction {
    /// The statement that records the reaction.
    pub open spec fn command(self) -> Command {
        command(
            INSERT_REACTION,
            seq![
                text(self.platform_msg_id@),
                nullable(self.reactor_user_id),
                flag(self.anonymous),
                flag(self.aggregated),
                text(json_array_text(texts(self.old_emojis@))),
                text(json_array_text(texts(self.new_emojis@))),
                text(self.timestamp.text()),
            ],
        )
    }
}

/// The stored form of a list of emojis. Reading it gives the emojis again.
pub fn serialize_emojis(emojis: &Vec<String>) -> (r: String)
    ensures
        r@ == json_array_text(texts(emojis@)),
        reads_as_array(r@, texts(emojis@)),
{
    write_json_array(emojis)
}

/// Whether reading the stored emojis fails with this error.
pub open spec fn is_emoji_failure(json: Seq<char>, error: StoreError) -> bool {
    json_array(json) matches Err(detail) && error.is_sqlite(conversion_text(detail))
}

/// Reads a stored list of emojis.
pub fn parse_emojis(json: &str) -> (r: Result<Vec<String>>)
    ensures
        match r {
            Ok(emojis) => reads_as_array(json@, texts(emojis@)),
            Err(error) => is_emoji_failure(json@, error),
        },
{
    match read_json_array(json) {
        Ok(emojis) => Ok(emojis),
        Err(detail) => Err(conversion_failure(detail.as_str())),
    }
}

/// Records a reaction, unless it is recorded.
pub fn insert_reaction(reaction: &NewReaction) -> (r: Result<Statement>)
    ensures
        match r {
            Ok(statement) => reaction.timestamp.writable() && statement@ == reaction.command(),
            Err(error) => !reaction.timestamp.writable() && error.is_sqlite(
                unwritable_text(reaction.timestamp),
            ),
        },
{
    let stamp = match format_rfc3339(&reaction.timestamp) {
        Ok(stamp) => stamp,
        Err(error) => {
            return Err(error);
        },
    };
    let statement = Statement::new(INSERT_REACTION).with_text(
        reaction.platform_msg_id.as_str(),
    ).with_nullable(&reaction.reactor_user_id).with_flag(reaction.anonymous).with_flag(
        reaction.aggregated,
    ).with_text(serialize_emojis(&reaction.old_emojis).as_str()).with_text(
        serialize_emojis(&reaction.new_emojis).as_str(),
    ).with_text(stamp.as_str());
    assert(statement@.params =~= reaction.command().params);
    Ok(statement)
}

/// Every reaction, oldest first.
pub fn list_reactions() -> (r: Statement)
    ensures
        r@ == command(SELECT_REACTIONS, seq![]),
{
    Statement::new(SELECT_REACTIONS)
}

/// The newest reactions, newest first.
pub fn list_latest_reactions(limit: u32) -> (r: Statement)
    ensures
        r@ == command(SELECT_LATEST_REACTIONS, seq![integer(limit as int)]),
{
    Statement::new(SELECT_LATEST_REACTIONS).with_integer(limit as i64)
}

impl ReactionRecord {
    /// Whether the stored columns are those of the row.
    pub open spec fn holds(self, row: ReactionRow) -> bool {
        &&& row.id == self.id
        &&& row.platform_msg_id@ == self.platform_msg_id@
        &&& opt_text(row.reactor_user_id) == opt_text(self.reactor_user_id)
        &&& row.anonymous == self.anonymous
        &&& row.aggregated == self.aggregated
        &&& reads_as_array(self.old_emojis@, texts(row.old_emojis@))
        &&& reads_as_array(self.new_emojis@, texts(row.new_emojis@))
        &&& is_stored_time(self.timestamp@, row.timestamp)
    }

    /// Whether the stored columns fail to read with this error: the emojis before the
    /// event first, then those after it, then the timestamp.
    pub open spec fn fails_with(self, error: StoreError) -> bool {
        if json_array(self.old_emojis@) is Err {
            is_emoji_failure(self.old_emojis@, error)
        } else if json_array(self.new_emojis@) is Err {
            is_emoji_failure(self.new_emojis@, error)
        } else {
            is_time_failure(self.timestamp@, error)
        }
    }

    /// Whether the stored columns are what recording the reaction wrote.
    pub open spec fn stores(self, reaction: NewReaction) -> bool {
        &&& self.platform_msg_id@ == reaction.platform_msg_id@
        &&& opt_text(self.reactor_user_id) == opt_text(reaction.reactor_user_id)
        &&& self.anonymous == reaction.anonymous
        &&& self.aggregated == reaction.aggregated
        &&& reads_as_array(self.old_emojis@, texts(reaction.old_emojis@))
        &&& reads_as_array(self.new_emojis@, texts(reaction.new_emojis@))
        &&& is_stored_time(self.timestamp@, reaction.timestamp)
    }
}

/// Reads a reaction.
pub fn reaction_row(record: ReactionRecord) -> (r: Result<ReactionRow>)
    ensures
        match r {
            Ok(row) => record.holds(row),
            Err(error) => record.fails_with(error),
        },
{
    let old_emojis = match parse_emojis(record.old_emojis.as_str()) {
        Ok(emojis) => emojis,
        Err(error) => {
            return Err(error);
        },
    };
    let new_emojis = match parse_emojis(record.new_emojis.as_str()) {
        Ok(emojis) => emojis,
        Err(error) => {
            return Err(error);
        },
    };
    let timestamp = match parse_rfc3339(record.timestamp.as_str()) {
        Ok(timestamp) => timestamp,
        Err(error) => {
            return Err(error);
        },
    };
    Ok(
        ReactionRow {
            id: record.id,
            platform_msg_id: record.platform_msg_id,
            reactor_user_id: record.reactor_user_id,
            anonymous: record.anonymous,
            aggregated: record.aggregated,
            old_emojis,
            new_emojis,
            timestamp,
        },
    )
}

/// A recorded reaction reads back as it was recorded.
pub proof fn law_reaction_reads_back(
    reaction: NewReaction,
    record: ReactionRecord,
    row: ReactionRow,
)
    requires
        record.stores(reaction),
    ensures
        forall|error: StoreError| !record.fails_with(error),
        record.holds(row) ==> {
            &&& row.platform_msg_id@ == reaction.platform_msg_id@
            &&& opt_text(row.reactor_user_id) == opt_text(reaction.reactor_user_id)
            &&& row.anonymous == reaction.anonymous
            &&& row.aggregated == reaction.aggregated
            &&& texts(row.old_emojis@) == texts(reaction.old_emojis@)
            &&& texts(row.new_emojis@) == texts(reaction.new_emojis@)
            &&& row.timestamp.local_nanos() == reaction.timestamp.local_nanos()
            &&& row.timestamp.offset_seconds() == reaction.timestamp.offset_seconds()
        },
{
}

} // verus!
