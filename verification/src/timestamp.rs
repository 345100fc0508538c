//! Points in time with a UTC offset, and their textual forms.

use vstd::prelude::*;

verus! {

/// Nanoseconds in one second.
pub const NANOS_PER_SECOND: i128 = 1_000_000_000;

/// Nanoseconds in one day.
pub const NANOS_PER_DAY: i128 = 86_400_000_000_000;

/// The first representable local moment: the start of the year -9999.
pub const MIN_LOCAL_NANOS: i128 = -377_705_116_800_000_000_000;

/// The last representable local moment: the end of the year 9999.
pub const MAX_LOCAL_NANOS: i128 = 253_402_300_799_999_999_999;

/// The start of the year 0, the first local moment RFC 3339 can write.
pub const YEAR_ZERO_LOCAL_NANOS: i128 = -62_167_219_200_000_000_000;

/// The largest UTC offset, 25:59:59, in seconds.
pub const MAX_OFFSET_SECONDS: i32 = 93_599;

/// Whether a local moment and a UTC offset are representable together.
pub open spec fn representable(local_nanos: int, offset_seconds: int) -> bool {
    &&& MIN_LOCAL_NANOS <= local_nanos <= MAX_LOCAL_NANOS
    &&& -MAX_OFFSET_SECONDS <= offset_seconds <= MAX_OFFSET_SECONDS
}

/// Whether RFC 3339 can write the moment: a year from 0 to 9999 and an offset
/// of whole minutes below one day.
pub open spec fn rfc3339_writes(local_nanos: int, offset_seconds: int) -> bool {
    &&& YEAR_ZERO_LOCAL_NANOS <= local_nanos <= MAX_LOCAL_NANOS
    &&& -86_400 < offset_seconds < 86_400
    &&& offset_seconds % 60 == 0
}

/// The RFC 3339 text of a local moment with its UTC offset.
pub uninterp spec fn rfc3339_text(local_nanos: int, offset_seconds: int) -> Seq<char>;

/// What reading an RFC 3339 text gives: the local moment and the UTC offset, or
/// the text of the parse error.
pub uninterp spec fn rfc3339_reading(text: Seq<char>) -> Result<(int, int), Seq<char>>;

/// Whether reading the text gives this local moment and this UTC offset.
pub open spec fn reads_as(text: Seq<char>, local_nanos: int, offset_seconds: int) -> bool {
    rfc3339_reading(text) == Ok::<(int, int), Seq<char>>((local_nanos, offset_seconds))
}

/// The diagnostic text of a local moment with its UTC offset.
pub uninterp spec fn moment_debug_text(local_nanos: int, offset_seconds: int) -> Seq<char>;

/// The text of a local moment with its UTC offset: its RFC 3339 form, or the
/// diagnostic form where that does not exist.
pub open spec fn moment_text(local_nanos: int, offset_seconds: int) -> Seq<char> {
    if rfc3339_writes(local_nanos, offset_seconds) {
        rfc3339_text(local_nanos, offset_seconds)
    } else {
        moment_debug_text(local_nanos, offset_seconds)
    }
}

/// `time::OffsetDateTime::format` with the well-known `Rfc3339` description.
/// It writes exactly the moments that `rfc3339_writes` admits, and
/// `OffsetDateTime::parse` reads the text back to the same moment and offset:
/// the writer keeps all nine subsecond digits and the whole-minute offset.
#[verifier::external_body]
fn write_rfc3339(local_nanos: i128, offset_seconds: i32) -> (r: Option<String>)
    requires
        representable(local_nanos as int, offset_seconds as int),
    ensures
        r is Some <==> rfc3339_writes(local_nanos as int, offset_seconds as int),
        r matches Some(text) ==> text@ == rfc3339_text(local_nanos as int, offset_seconds as int),
        r matches Some(text) ==> reads_as(text@, local_nanos as int, offset_seconds as int),
{
    let offset = time::UtcOffset::from_whole_seconds(offset_seconds).unwrap();
    let moment = time::OffsetDateTime::from_unix_timestamp_nanos(local_nanos).unwrap();
    moment.replace_offset(offset).format(&time::format_description::well_known::Rfc3339).ok()
}

/// `time::OffsetDateTime::parse` with the well-known `Rfc3339` description:
/// the local moment and the offset that it reads, or the text of its error.
#[verifier::external_body]
fn read_rfc3339(text: &str) -> (r: Result<(i128, i32), String>)
    ensures
        r is Ok <==> rfc3339_reading(text@) is Ok,
        r matches Ok(read) ==> rfc3339_reading(text@)->Ok_0 == (read.0 as int, read.1 as int),
        r matches Ok(read) ==> representable(read.0 as int, read.1 as int),
        r matches Err(message) ==> rfc3339_reading(text@)->Err_0 == message@,
{
    match time::OffsetDateTime::parse(text, &time::format_description::well_known::Rfc3339) {
        Ok(moment) => {
            let local = moment.replace_offset(time::UtcOffset::UTC).unix_timestamp_nanos();
            Ok((local, moment.offset().whole_seconds()))
        },
        Err(error) => Err(error.to_string()),
    }
}

/// The `Debug` text of a `time::OffsetDateTime`.
#[verifier::external_body]
fn moment_debug(local_nanos: i128, offset_seconds: i32) -> (r: String)
    requires
        representable(local_nanos as int, offset_seconds as int),
    ensures
        r@ == moment_debug_text(local_nanos as int, offset_seconds as int),
{
    let offset = time::UtcOffset::from_whole_seconds(offset_seconds).unwrap();
    let moment = time::OffsetDateTime::from_unix_timestamp_nanos(local_nanos).unwrap();
    format!("{:?}", moment.replace_offset(offset))
}

/// One point in time together with the UTC offset it is told in.
///
/// Two timestamps are the same instant when their Unix nanoseconds agree,
/// whatever their offsets are.
#[derive(Debug, Clone, Copy, PartialEq, Eq)]
pub struct Timestamp {
    nanos: i128,
    offset: i32,
}

impl Timestamp {
    /// Nanoseconds since the Unix epoch.
    pub closed spec fn unix_nanos(self) -> int {
        self.nanos as int
    }

    /// The UTC offset in seconds.
    pub closed spec fn offset_seconds(self) -> int {
        self.offset as int
    }

    /// The local moment, as nanoseconds since the local epoch.
    pub open spec fn local_nanos(self) -> int {
        self.unix_nanos() + self.offset_seconds() * NANOS_PER_SECOND
    }

    /// Whether the local moment and the offset are representable.
    pub open spec fn valid(self) -> bool {
        representable(self.local_nanos(), self.offset_seconds())
    }

    /// Whether the RFC 3339 form of the timestamp exists.
    pub open spec fn writable(self) -> bool {
        rfc3339_writes(self.local_nanos(), self.offset_seconds())
    }

    /// The text of the timestamp: its RFC 3339 form, or the diagnostic form
    /// where that does not exist.
    pub open spec fn text(self) -> Seq<char> {
        moment_text(self.local_nanos(), self.offset_seconds())
    }

    #[verifier::type_invariant]
    spec fn in_range(self) -> bool {
        self.valid()
    }

    /// The timestamp of the given Unix nanoseconds and UTC offset, where it is
    /// representable.
    pub fn new(unix_nanos: i128, offset_seconds: i32) -> (r: Option<Timestamp>)
        ensures
            r is Some <==> representable(
                unix_nanos + offset_seconds * NANOS_PER_SECOND,
                offset_seconds as int,
            ),
            r matches Some(t) ==> t.unix_nanos() == unix_nanos && t.offset_seconds()
                == offset_seconds,
    {
        if offset_seconds < -MAX_OFFSET_SECONDS || offset_seconds > MAX_OFFSET_SECONDS {
            return None;
        }
        let shift: i128 = (offset_seconds as i128) * NANOS_PER_SECOND;
        if unix_nanos < MIN_LOCAL_NANOS - shift || unix_nanos > MAX_LOCAL_NANOS - shift {
            return None;
        }
        Some(Timestamp { nanos: unix_nanos, offset: offset_seconds })
    }

    /// The UTC timestamp of the given Unix seconds, where it is representable.
    pub fn from_unix_seconds(seconds: i64) -> (r: Option<Timestamp>)
        ensures
            r is Some <==> representable(seconds * NANOS_PER_SECOND, 0),
            r matches Some(t) ==> t.unix_nanos() == seconds * NANOS_PER_SECOND
                && t.offset_seconds() == 0,
    {
        Timestamp::new((seconds as i128) * NANOS_PER_SECOND, 0)
    }

    /// Nanoseconds since the Unix epoch.
    pub fn get_unix_nanos(&self) -> (r: i128)
        ensures
            r == self.unix_nanos(),
    {
        self.nanos
    }

    /// The UTC offset in seconds.
    pub fn get_offset_seconds(&self) -> (r: i32)
        ensures
            r == self.offset_seconds(),
            self.valid(),
    {
        proof {
            use_type_invariant(self);
        }
        self.offset
    }

    /// Nanoseconds since the local epoch.
    pub fn get_local_nanos(&self) -> (r: i128)
        ensures
            r == self.local_nanos(),
            self.valid(),
    {
        proof {
            use_type_invariant(self);
        }
        self.nanos + (self.offset as i128) * NANOS_PER_SECOND
    }

    /// Whether both timestamps are the same instant.
    pub fn same_instant(&self, other: &Timestamp) -> (r: bool)
        ensures
            r == (self.unix_nanos() == other.unix_nanos()),
    {
        self.nanos == other.nanos
    }

    /// Whether this instant is later than the other one.
    pub fn later_than(&self, other: &Timestamp) -> (r: bool)
        ensures
            r == (self.unix_nanos() > other.unix_nanos()),
    {
        self.nanos > other.nanos
    }

    /// The timestamp the given number of days earlier, in the same offset, where
    /// it is representable.
    pub fn minus_days(&self, days: u32) -> (r: Option<Timestamp>)
        ensures
            r is Some <==> self.local_nanos() - days * NANOS_PER_DAY >= MIN_LOCAL_NANOS,
            r matches Some(t) ==> t.unix_nanos() == self.unix_nanos() - days * NANOS_PER_DAY
                && t.offset_seconds() == self.offset_seconds(),
    {
        proof {
            use_type_invariant(self);
        }
        Timestamp::new(self.nanos - (days as i128) * NANOS_PER_DAY, self.offset)
    }

    /// The RFC 3339 text, where the timestamp has one.
    pub fn to_rfc3339(&self) -> (r: Option<String>)
        ensures
            r is Some <==> self.writable(),
            r matches Some(text) ==> text@ == self.text(),
            r matches Some(text) ==> reads_as(text@, self.local_nanos(), self.offset_seconds()),
    {
        let local: i128 = self.get_local_nanos();
        write_rfc3339(local, self.offset)
    }

    /// The RFC 3339 text, or the diagnostic text where there is none.
    pub fn to_text(&self) -> (r: String)
        ensures
            r@ == self.text(),
            self.writable() ==> reads_as(r@, self.local_nanos(), self.offset_seconds()),
    {
        match self.to_rfc3339() {
            Some(text) => text,
            None => {
                let local: i128 = self.get_local_nanos();
                moment_debug(local, self.offset)
            },
        }
    }

    /// Reads an RFC 3339 text. The error is the text of the parse error.
    pub fn parse_rfc3339(text: &str) -> (r: Result<Timestamp, String>)
        ensures
            match (r, rfc3339_reading(text@)) {
                (Ok(t), Ok(read)) => t.local_nanos() == read.0 && t.offset_seconds() == read.1,
                (Err(message), Err(expected)) => message@ == expected,
                _ => false,
            },
    {
        match read_rfc3339(text) {
            Ok(read) => {
                Ok(
                    Timestamp {
                        nanos: read.0 - (read.1 as i128) * NANOS_PER_SECOND,
                        offset: read.1,
                    },
                )
            },
            Err(message) => Err(message),
        }
    }
}

/// A local moment is the instant shifted by its offset, at 1,000,000,000 nanoseconds per
/// second; two timestamps of one instant and one offset have one text.
pub proof fn law_local_moments(a: Timestamp, b: Timestamp)
    ensures
        a.local_nanos() == a.unix_nanos() + 1_000_000_000 * a.offset_seconds(),
        a.unix_nanos() == b.unix_nanos() && a.offset_seconds() == b.offset_seconds() ==> a.text()
            == b.text(),
        a.writable() ==> a.text() == rfc3339_text(a.local_nanos(), a.offset_seconds()),
        !a.writable() ==> a.text() == moment_debug_text(a.local_nanos(), a.offset_seconds()),
        a.writable() <==> -62_167_219_200_000_000_000 <= a.local_nanos()
            <= 253_402_300_799_999_999_999 && -86_400 < a.offset_seconds() < 86_400
            && a.offset_seconds() % 60 == 0,
        a.valid() <==> -377_705_116_800_000_000_000 <= a.local_nanos()
            <= 253_402_300_799_999_999_999 && -93_599 <= a.offset_seconds() <= 93_599,
{
}

} // verus!
