//! The configured time zone and the clock element.

use crate::memory::identifiers::is_letter;
use crate::text::{
    concat3, concat5, digit_value, is_digit, quoted, quoted_text, trim, trimmed, white_space,
};
use crate::timestamp::{
    MAX_LOCAL_NANOS, MAX_OFFSET_SECONDS, MIN_LOCAL_NANOS, NANOS_PER_SECOND, Timestamp,
    representable,
};
use vstd::prelude::*;

verus! {

/// The form of a fixed UTC offset in the configuration.
pub const FIXED_OFFSET_FORMAT: &'static str = "[offset_hour sign:mandatory]:[offset_minute]";

/// The form of the civil time in the clock element: weekday, date, hours and minutes.
pub const NOW_STAMP_FORMAT: &'static str = "[weekday] [year]-[month]-[day] [hour]:[minute]";

/// The offset in seconds that a text of the form ±HH:MM writes: a sign, two digits up
/// to 25, a colon and two digits up to 59.
pub open spec fn fixed_offset(text: Seq<char>) -> Option<int> {
    if text.len() == 6 && (text[0] == '+' || text[0] == '-') && is_digit(text[1]) && is_digit(
        text[2],
    ) && text[3] == ':' && is_digit(text[4]) && is_digit(text[5]) {
        let hours = digit_value(text[1]) * 10 + digit_value(text[2]);
        let minutes = digit_value(text[4]) * 10 + digit_value(text[5]);
        if hours > 25 || minutes > 59 {
            None
        } else if text[0] == '-' {
            Some(-(hours * 3600 + minutes * 60))
        } else {
            Some((hours * 3600 + minutes * 60) as int)
        }
    } else {
        None
    }
}

/// The canonical name of the zone that a name looks up in the zone database.
pub uninterp spec fn zone_name(name: Seq<char>) -> Option<Seq<char>>;

/// The UTC offset in seconds of a named zone at an instant.
pub uninterp spec fn zone_offset(name: Seq<char>, unix_nanos: int) -> int;

/// The civil time stamp of a local moment.
pub uninterp spec fn civil_stamp(local_nanos: int) -> Option<Seq<char>>;

/// `time::UtcOffset::parse` with the fixed-offset description.
#[verifier::external_body]
fn parse_offset(value: &str, description: &str) -> (r: Option<i32>)
    requires
        description@ == FIXED_OFFSET_FORMAT@,
    ensures
        match r {
            Some(seconds) => fixed_offset(value@) == Some(seconds as int),
            None => fixed_offset(value@) is None,
        },
{
    let items = time::format_description::parse(description).unwrap();
    match time::UtcOffset::parse(value, &items) {
        Ok(offset) => Some(offset.whole_seconds()),
        Err(_) => None,
    }
}

/// `time_tz::timezones::get_by_name` and the name of the zone found. The name of a
/// zone starts with a letter, holds no white space, and finds the zone again.
#[verifier::external_body]
fn find_zone(name: &str) -> (r: Option<String>)
    ensures
        match r {
            Some(found) => zone_name(name@) == Some(found@),
            None => zone_name(name@) is None,
        },
        r matches Some(found) ==> zone_name(found@) == Some(found@),
        r matches Some(found) ==> found@.len() > 0 && is_letter(found@[0]),
        r matches Some(found) ==> forall|i: int|
            0 <= i < found@.len() ==> !white_space(#[trigger] found@[i]),
{
    time_tz::timezones::get_by_name(name).map(
        |zone: &'static time_tz::Tz| time_tz::TimeZone::name(zone).to_string(),
    )
}

/// `time_tz::TimeZone::get_offset_utc` of a named zone at an instant.
#[verifier::external_body]
fn offset_of_zone(name: &str, local_nanos: i128, offset_seconds: i32) -> (r: i32)
    requires
        zone_name(name@) is Some,
        representable(local_nanos as int, offset_seconds as int),
    ensures
        r == zone_offset(name@, local_nanos - offset_seconds * NANOS_PER_SECOND),
        -MAX_OFFSET_SECONDS <= r <= MAX_OFFSET_SECONDS,
{
    let zone = time_tz::timezones::get_by_name(name).unwrap();
    let offset = time::UtcOffset::from_whole_seconds(offset_seconds).unwrap();
    let moment = time::OffsetDateTime::from_unix_timestamp_nanos(local_nanos).unwrap();
    let moment = moment.replace_offset(offset);
    let found = time_tz::TimeZone::get_offset_utc(zone, &moment);
    time_tz::Offset::to_utc(&found).whole_seconds()
}

/// `time::OffsetDateTime::format` with the civil-time description.
#[verifier::external_body]
fn stamp(local_nanos: i128, description: &str) -> (r: Option<String>)
    requires
        MIN_LOCAL_NANOS <= local_nanos <= MAX_LOCAL_NANOS,
        description@ == NOW_STAMP_FORMAT@,
    ensures
        match r {
            Some(text) => civil_stamp(local_nanos as int) == Some(text@),
            None => civil_stamp(local_nanos as int) is None,
        },
{
    let items = time::format_description::parse(description).unwrap();
    let moment = time::OffsetDateTime::from_unix_timestamp_nanos(local_nanos).unwrap();
    moment.format(&items).ok()
}

/// The errors of reading a time zone.
#[derive(Debug, Clone, PartialEq, Eq)]
pub enum TimezoneError {
    /// The value is neither a ±HH:MM offset nor a known zone name.
    UnknownName(String),
}

impl TimezoneError {
    /// The message of the error.
    pub fn message(&self) -> (r: String)
        ensures
            match self {
                TimezoneError::UnknownName(name) => r@ == "unknown timezone "@ + quoted_text(name@)
                    + ": neither a ±HH:MM offset nor an IANA name"@,
            },
    {
        match self {
            TimezoneError::UnknownName(name) => {
                let shown = quoted(name.as_str());
                concat3(
                    "unknown timezone ",
                    shown.as_str(),
                    ": neither a ±HH:MM offset nor an IANA name",
                )
            },
        }
    }
}

/// Whether the text is the canonical name of a zone: it finds the zone again, starts
/// with a letter and holds no white space.
pub open spec fn is_canonical(name: Seq<char>) -> bool {
    &&& zone_name(name) == Some(name)
    &&& name.len() > 0
    &&& is_letter(name[0])
    &&& forall|i: int| 0 <= i < name.len() ==> !white_space(#[trigger] name[i])
}

/// The canonical name of a zone of the zone database.
#[derive(Debug, PartialEq, Eq)]
pub struct ZoneName {
    name: String,
}

impl Clone for ZoneName {
    fn clone(&self) -> (r: Self)
        ensures
            r@ == self@,
    {
        proof {
            use_type_invariant(self);
        }
        ZoneName { name: self.name.clone() }
    }
}

impl View for ZoneName {
    type V = Seq<char>;

    closed spec fn view(&self) -> Seq<char> {
        self.name@
    }
}

impl ZoneName {
    #[verifier::type_invariant]
    spec fn canonical(self) -> bool {
        is_canonical(self.name@)
    }

    /// The zone that the name looks up in the zone database.
    pub fn find(name: &str) -> (r: Option<ZoneName>)
        ensures
            match r {
                Some(zone) => zone_name(name@) == Some(zone@) && is_canonical(zone@),
                None => zone_name(name@) is None,
            },
    {
        match find_zone(name) {
            Some(name) => Some(ZoneName { name }),
            None => None,
        }
    }

    /// The canonical name.
    pub fn as_str(&self) -> (r: &str)
        ensures
            r@ == self@,
            is_canonical(self@),
    {
        proof {
            use_type_invariant(self);
        }
        self.name.as_str()
    }
}

/// A configured time zone.
#[derive(Debug, Clone, PartialEq, Eq)]
pub enum ResolvedTimezone {
    /// A fixed UTC offset in seconds.
    Fixed(i32),
    /// A zone of the zone database; the offset depends on the instant.
    Named(ZoneName),
}

impl ResolvedTimezone {
    /// Whether a fixed offset is in range.
    pub open spec fn well_formed(self) -> bool {
        match self {
            ResolvedTimezone::Fixed(offset) => -MAX_OFFSET_SECONDS <= offset <= MAX_OFFSET_SECONDS,
            ResolvedTimezone::Named(_) => true,
        }
    }

    /// The UTC offset at an instant.
    pub open spec fn offset(self, unix_nanos: int) -> int {
        match self {
            ResolvedTimezone::Fixed(offset) => offset as int,
            ResolvedTimezone::Named(name) => zone_offset(name@, unix_nanos),
        }
    }

    /// The zone that what was read of a trimmed configuration value means: an offset
    /// wins over a zone name.
    pub fn resolve(value: String, offset: Option<i32>, zone: Option<ZoneName>) -> (r: Result<
        ResolvedTimezone,
        TimezoneError,
    >)
        ensures
            match (offset, zone) {
                (Some(seconds), _) => r == Ok::<ResolvedTimezone, TimezoneError>(
                    ResolvedTimezone::Fixed(seconds),
                ),
                (None, Some(name)) => r == Ok::<ResolvedTimezone, TimezoneError>(
                    ResolvedTimezone::Named(name),
                ),
                (None, None) => r == Err::<ResolvedTimezone, TimezoneError>(
                    TimezoneError::UnknownName(value),
                ),
            },
    {
        match offset {
            Some(seconds) => Ok(ResolvedTimezone::Fixed(seconds)),
            None => match zone {
                Some(name) => Ok(ResolvedTimezone::Named(name)),
                None => Err(TimezoneError::UnknownName(value)),
            },
        }
    }

    /// Reads a configuration value: a ±HH:MM offset, or a zone name of the database.
    pub fn from_config_value(value: &str) -> (r: Result<ResolvedTimezone, TimezoneError>)
        ensures
            match r {
                Ok(zone) => zone.well_formed() && match zone {
                    ResolvedTimezone::Fixed(offset) => fixed_offset(trimmed(value@)) == Some(
                        offset as int,
                    ),
                    ResolvedTimezone::Named(name) => fixed_offset(trimmed(value@)) is None
                        && zone_name(trimmed(value@)) == Some(name@),
                },
                Err(TimezoneError::UnknownName(name)) => name@ == trimmed(value@) && fixed_offset(
                    trimmed(value@),
                ) is None && zone_name(trimmed(value@)) is None,
            },
    {
        let text = trim(value);
        let offset = parse_offset(text.as_str(), FIXED_OFFSET_FORMAT);
        let zone = ZoneName::find(text.as_str());
        ResolvedTimezone::resolve(text, offset, zone)
    }

    /// The UTC offset at one instant: the constant of a fixed offset, or what the zone
    /// has at the instant.
    pub fn offset_at(&self, instant: &Timestamp) -> (r: i32)
        requires
            self.well_formed(),
        ensures
            r == self.offset(instant.unix_nanos()),
            -MAX_OFFSET_SECONDS <= r <= MAX_OFFSET_SECONDS,
    {
        match self {
            ResolvedTimezone::Fixed(offset) => *offset,
            ResolvedTimezone::Named(name) => {
                let local: i128 = instant.get_local_nanos();
                let seconds: i32 = instant.get_offset_seconds();
                offset_of_zone(name.as_str(), local, seconds)
            },
        }
    }

    /// The spelling in the configuration file.
    pub open spec fn spelling(self) -> Seq<char> {
        match self {
            ResolvedTimezone::Fixed(offset) => offset_text(offset as int),
            ResolvedTimezone::Named(name) => name@,
        }
    }

    /// The spelling in the configuration file: the zone name, or the ±HH:MM offset.
    pub fn config_value(&self) -> (r: String)
        requires
            self.well_formed(),
        ensures
            r@ == self.spelling(),
    {
        match self {
            ResolvedTimezone::Fixed(offset) => format_offset_hm(*offset),
            ResolvedTimezone::Named(name) => name.as_str().to_owned(),
        }
    }
}

/// Two decimal digits.
pub open spec fn two_digits(n: int) -> Seq<char> {
    seq![(48 + n / 10) as char, (48 + n % 10) as char]
}

/// The magnitude of an integer.
pub open spec fn magnitude(n: int) -> int {
    if n < 0 {
        -n
    } else {
        n
    }
}

/// The text ±HH:MM of an offset in seconds; seconds are left out.
pub open spec fn offset_text(offset: int) -> Seq<char> {
    seq![if offset < 0 {
            '-'
        } else {
            '+'
        }] + two_digits(magnitude(offset) / 3600) + seq![':'] + two_digits(
        magnitude(offset) % 3600 / 60,
    )
}

fn digit_of(n: u32) -> (r: char)
    requires
        n < 10,
    ensures
        r == (48 + n) as char,
{
    match n {
        0 => '0',
        1 => '1',
        2 => '2',
        3 => '3',
        4 => '4',
        5 => '5',
        6 => '6',
        7 => '7',
        8 => '8',
        _ => '9',
    }
}

/// The text ±HH:MM of an offset in seconds.
pub fn format_offset_hm(offset: i32) -> (r: String)
    requires
        -MAX_OFFSET_SECONDS <= offset <= MAX_OFFSET_SECONDS,
    ensures
        r@ == offset_text(offset as int),
{
    let size: u32 = if offset < 0 {
        (-offset) as u32
    } else {
        offset as u32
    };
    let hours: u32 = size / 3600;
    let minutes: u32 = size % 3600 / 60;
    let mut out = String::new();
    out.push(
        if offset < 0 {
            '-'
        } else {
            '+'
        },
    );
    out.push(digit_of(hours / 10));
    out.push(digit_of(hours % 10));
    out.push(':');
    out.push(digit_of(minutes / 10));
    out.push(digit_of(minutes % 10));
    assert(out@ =~= offset_text(offset as int));
    out
}

/// The label of the zone in the clock element.
pub open spec fn zone_label(zone: ResolvedTimezone, offset: int) -> Seq<char> {
    match zone {
        ResolvedTimezone::Fixed(_) => "UTC"@ + offset_text(offset),
        ResolvedTimezone::Named(name) => name@ + ", UTC"@ + offset_text(offset),
    }
}

/// The clock element with the given civil time.
pub open spec fn now_element_text(
    stamp: Option<Seq<char>>,
    zone: ResolvedTimezone,
    offset: int,
) -> Seq<char> {
    "<now>Current time: "@ + (match stamp {
        Some(text) => text,
        None => "an unknown civil time"@,
    }) + " ("@ + zone_label(zone, offset) + ").</now>"@
}

/// The clock element with the given civil time.
pub fn now_element(stamp: Option<String>, zone: &ResolvedTimezone, offset: i32) -> (r: String)
    requires
        -MAX_OFFSET_SECONDS <= offset <= MAX_OFFSET_SECONDS,
    ensures
        r@ == now_element_text(
            match stamp {
                Some(text) => Some(text@),
                None => None,
            },
            *zone,
            offset as int,
        ),
{
    let shown = match stamp {
        Some(text) => text,
        None => "an unknown civil time".to_owned(),
    };
    let hm = format_offset_hm(offset);
    let label = match zone {
        ResolvedTimezone::Fixed(_) => "UTC".to_owned().concat(hm.as_str()),
        ResolvedTimezone::Named(name) => concat3(name.as_str(), ", UTC", hm.as_str()),
    };
    concat5("<now>Current time: ", shown.as_str(), " (", label.as_str(), ").</now>")
}

/// Whether the instant stays representable in every offset that the zone can have.
pub open spec fn shifts_in_range(zone: ResolvedTimezone, unix_nanos: int) -> bool {
    match zone {
        ResolvedTimezone::Fixed(offset) => MIN_LOCAL_NANOS <= unix_nanos + offset
            * NANOS_PER_SECOND <= MAX_LOCAL_NANOS,
        ResolvedTimezone::Named(_) => MIN_LOCAL_NANOS + MAX_OFFSET_SECONDS * NANOS_PER_SECOND
            <= unix_nanos <= MAX_LOCAL_NANOS - MAX_OFFSET_SECONDS * NANOS_PER_SECOND,
    }
}

/// Renders the clock element: the civil time of the instant in the zone.
pub fn render_now_element(now: &Timestamp, zone: &ResolvedTimezone) -> (r: String)
    requires
        zone.well_formed(),
        shifts_in_range(*zone, now.unix_nanos()),
    ensures
        ({
            let offset = zone.offset(now.unix_nanos());
            r@ == now_element_text(
                civil_stamp(now.unix_nanos() + offset * NANOS_PER_SECOND),
                *zone,
                offset,
            )
        }),
{
    let offset: i32 = zone.offset_at(now);
    let local: i128 = now.get_unix_nanos() + (offset as i128) * NANOS_PER_SECOND;
    let text = stamp(local, NOW_STAMP_FORMAT);
    now_element(text, zone, offset)
}

// ----- laws -----

proof fn lemma_two_digits(n: int)
    requires
        0 <= n < 100,
    ensures
        is_digit(two_digits(n)[0]),
        is_digit(two_digits(n)[1]),
        digit_value(two_digits(n)[0]) * 10 + digit_value(two_digits(n)[1]) == n,
{
}

/// The spelling of an offset of whole minutes reads back as the same offset, negative
/// ones included.
pub proof fn law_offset_spelling_reads_back(offset: int)
    requires
        -MAX_OFFSET_SECONDS <= offset <= MAX_OFFSET_SECONDS,
        offset % 60 == 0,
    ensures
        fixed_offset(offset_text(offset)) == Some(offset),
{
    let size = magnitude(offset);
    let hours = size / 3600;
    let minutes = size % 3600 / 60;
    lemma_two_digits(hours);
    lemma_two_digits(minutes);
    let text = offset_text(offset);
    assert(text.len() == 6);
    assert(text[1] == two_digits(hours)[0]);
    assert(text[2] == two_digits(hours)[1]);
    assert(text[4] == two_digits(minutes)[0]);
    assert(text[5] == two_digits(minutes)[1]);
    assert(hours * 3600 + minutes * 60 == size);
}

proof fn lemma_trim_nothing(text: Seq<char>)
    requires
        forall|i: int| 0 <= i < text.len() ==> !white_space(#[trigger] text[i]),
    ensures
        trimmed(text) == text,
{
}

/// The spelling of a zone that the configuration can hold reads back as the same zone.
pub proof fn law_spelling_reads_back(zone: ResolvedTimezone)
    requires
        zone.well_formed(),
        zone matches ResolvedTimezone::Fixed(offset) ==> offset % 60 == 0,
        zone matches ResolvedTimezone::Named(name) ==> is_canonical(name@),
    ensures
        match zone {
            ResolvedTimezone::Fixed(offset) => fixed_offset(trimmed(zone.spelling())) == Some(
                offset as int,
            ),
            ResolvedTimezone::Named(name) => fixed_offset(trimmed(zone.spelling())) is None
                && zone_name(trimmed(zone.spelling())) == Some(name@),
        },
{
    let text = zone.spelling();
    match zone {
        ResolvedTimezone::Fixed(offset) => {
            law_offset_spelling_reads_back(offset as int);
            lemma_two_digits(magnitude(offset as int) / 3600);
            lemma_two_digits(magnitude(offset as int) % 3600 / 60);
            assert forall|i: int| 0 <= i < text.len() implies !white_space(#[trigger] text[i]) by {}
        },
        ResolvedTimezone::Named(_) => {},
    }
    lemma_trim_nothing(text);
}

} // verus!
