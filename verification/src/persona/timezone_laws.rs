//! What the clock element and the offsets in it say.

use crate::persona::timezone::{
    ResolvedTimezone, ZoneName, fixed_offset, now_element_text, offset_text, zone_label,
    zone_offset,
};
use vstd::prelude::*;

verus! {

/// An offset is written as its sign, its hours and its minutes, two digits each; seconds
/// are left out. A negative offset has the text of its magnitude behind a minus.
pub proof fn law_offset_text(hours: int, minutes: int, seconds: int)
    requires
        0 <= hours < 100,
        0 <= minutes < 60,
        0 <= seconds < 60,
    ensures
        ({
            let offset = 3600 * hours + 60 * minutes + seconds;
            let digits = seq![
                ('0' as int + hours / 10) as char,
                ('0' as int + hours % 10) as char,
                ':',
                ('0' as int + minutes / 10) as char,
                ('0' as int + minutes % 10) as char,
            ];
            &&& offset_text(offset) == seq!['+'] + digits
            &&& offset > 0 ==> offset_text(-offset) == seq!['-'] + digits
        }),
{
    let offset = 3600 * hours + 60 * minutes + seconds;
    assert(offset / 3600 == hours && offset % 3600 / 60 == minutes) by (nonlinear_arith)
        requires
            offset == 3600 * hours + 60 * minutes + seconds,
            0 <= hours,
            0 <= minutes < 60,
            0 <= seconds < 60,
    ;
    let digits = seq![
        ('0' as int + hours / 10) as char,
        ('0' as int + hours % 10) as char,
        ':',
        ('0' as int + minutes / 10) as char,
        ('0' as int + minutes % 10) as char,
    ];
    assert(offset_text(offset) =~= seq!['+'] + digits);
    if offset > 0 {
        assert(offset_text(-offset) =~= seq!['-'] + digits);
    }
}

/// An offset is read from a sign, two digits of hours up to 25, a colon and two digits of
/// minutes up to 59, and from nothing else.
pub proof fn law_offset_reading(hours: int, minutes: int, text: Seq<char>)
    requires
        0 <= hours < 100,
        0 <= minutes < 100,
    ensures
        ({
            let digits = seq![
                ('0' as int + hours / 10) as char,
                ('0' as int + hours % 10) as char,
                ':',
                ('0' as int + minutes / 10) as char,
                ('0' as int + minutes % 10) as char,
            ];
            &&& hours <= 25 && minutes <= 59 ==> fixed_offset(seq!['+'] + digits) == Some(
                3600 * hours + 60 * minutes,
            )
            &&& hours <= 25 && minutes <= 59 ==> fixed_offset(seq!['-'] + digits) == Some(
                -(3600 * hours + 60 * minutes),
            )
            &&& hours > 25 || minutes > 59 ==> fixed_offset(seq!['+'] + digits) is None
                && fixed_offset(seq!['-'] + digits) is None
        }),
        fixed_offset(text) is Some ==> text.len() == 6 && (text[0] == '+' || text[0] == '-') && '0'
            <= text[1] <= '9' && '0' <= text[2] <= '9' && text[3] == ':' && '0' <= text[4] <= '9'
            && '0' <= text[5] <= '9',
{
    let digits = seq![
        ('0' as int + hours / 10) as char,
        ('0' as int + hours % 10) as char,
        ':',
        ('0' as int + minutes / 10) as char,
        ('0' as int + minutes % 10) as char,
    ];
    let plus = seq!['+'] + digits;
    let minus = seq!['-'] + digits;
    assert(plus.len() == 6 && minus.len() == 6);
    assert(plus[1] == digits[0] && plus[2] == digits[1] && plus[3] == digits[2] && plus[4]
        == digits[3] && plus[5] == digits[4]);
    assert(minus[1] == digits[0] && minus[2] == digits[1] && minus[3] == digits[2] && minus[4]
        == digits[3] && minus[5] == digits[4]);
}

/// The clock element holds the civil time, the name of a named zone, and the offset.
pub proof fn law_clock_element(
    time: Seq<char>,
    fixed: i32,
    name: ZoneName,
    offset: int,
)
    ensures
        now_element_text(Some(time), ResolvedTimezone::Fixed(fixed), offset)
            == "<now>Current time: "@ + time + " ("@ + ("UTC"@ + offset_text(offset))
            + ").</now>"@,
        now_element_text(Some(time), ResolvedTimezone::Named(name), offset)
            == "<now>Current time: "@ + time + " ("@ + (name@ + ", UTC"@ + offset_text(offset))
            + ").</now>"@,
        now_element_text(None, ResolvedTimezone::Fixed(fixed), offset) == now_element_text(
            Some("an unknown civil time"@),
            ResolvedTimezone::Fixed(fixed),
            offset,
        ),
        now_element_text(None, ResolvedTimezone::Named(name), offset) == now_element_text(
            Some("an unknown civil time"@),
            ResolvedTimezone::Named(name),
            offset,
        ),
        zone_label(ResolvedTimezone::Fixed(fixed), offset) == "UTC"@ + offset_text(offset),
        zone_label(ResolvedTimezone::Named(name), offset) == name@ + ", UTC"@ + offset_text(
            offset,
        ),
{
}

/// A fixed offset is the same at every instant; a named zone has what the zone database
/// says of the instant. In the configuration the one is spelled by its offset and the
/// other by its name.
pub proof fn law_zone_offsets(fixed: i32, name: ZoneName, unix_nanos: int)
    ensures
        ResolvedTimezone::Fixed(fixed).offset(unix_nanos) == fixed,
        ResolvedTimezone::Named(name).offset(unix_nanos) == zone_offset(name@, unix_nanos),
        ResolvedTimezone::Fixed(fixed).spelling() == offset_text(fixed as int),
        ResolvedTimezone::Named(name).spelling() == name@,
        ResolvedTimezone::Fixed(fixed).well_formed() <==> -93_599 <= fixed <= 93_599,
        ResolvedTimezone::Named(name).well_formed(),
{
}

} // verus!
