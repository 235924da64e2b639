//! Civil date-time utilities: parsing (through the calendar collaborator),
//! fixed-offset conversion to and from UTC, and rendering. A value is a
//! plain civil (wall-clock) date and time; its place on the time line is
//! the spec-level timestamp, and every conversion is proved to move that
//! timestamp by exactly the offset.
use vstd::prelude::*;

use chrono::{Datelike, Offset, TimeZone, Timelike};

use crate::error::ErrorKind;
use crate::numfmt::{spec_pad2, spec_pad4, spec_pad6, u64_to_pad2, u64_to_pad4, u64_to_pad6};

verus! {

/// A civil (wall-clock) date and time, with microseconds, qualified by no
/// zone.
#[derive(Clone, Copy)]
pub struct CivilDateTime {
    pub year: i32,
    pub month: u8,
    pub day: u8,
    pub hour: u8,
    pub minute: u8,
    pub second: u8,
    pub micro: u32,
}

/// Whether a year is a leap year.
pub open spec fn spec_is_leap(y: int) -> bool {
    (y % 4 == 0 && y % 100 != 0) || y % 400 == 0
}

/// The days of a year.
pub open spec fn spec_days_in_year(y: int) -> int {
    if spec_is_leap(y) {
        366
    } else {
        365
    }
}

/// The days of a month.
pub open spec fn spec_days_in_month(y: int, m: int) -> int {
    if m == 2 {
        if spec_is_leap(y) {
            29
        } else {
            28
        }
    } else if m == 4 || m == 6 || m == 9 || m == 11 {
        30
    } else {
        31
    }
}

/// The days of a year that precede a month (month 13 closes the year).
pub open spec fn spec_days_before_month(y: int, m: int) -> int
    decreases m,
{
    if m <= 1 {
        0
    } else {
        spec_days_before_month(y, m - 1) + spec_days_in_month(y, m - 1)
    }
}

/// The days that precede a year, counted from the first day of year one.
pub open spec fn spec_days_before_year(y: int) -> int
    decreases y,
{
    if y <= 1 {
        0
    } else {
        spec_days_before_year(y - 1) + spec_days_in_year(y - 1)
    }
}

/// The months of a year add up to the year.
proof fn lemma_year_days(y: int)
    ensures
        spec_days_before_month(y, 13) == spec_days_in_year(y),
{
    assert(spec_days_before_month(y, 1) == 0);
    assert(spec_days_before_month(y, 2) == spec_days_before_month(y, 1) + spec_days_in_month(y, 1));
    assert(spec_days_before_month(y, 3) == spec_days_before_month(y, 2) + spec_days_in_month(y, 2));
    assert(spec_days_before_month(y, 4) == spec_days_before_month(y, 3) + spec_days_in_month(y, 3));
    assert(spec_days_before_month(y, 5) == spec_days_before_month(y, 4) + spec_days_in_month(y, 4));
    assert(spec_days_before_month(y, 6) == spec_days_before_month(y, 5) + spec_days_in_month(y, 5));
    assert(spec_days_before_month(y, 7) == spec_days_before_month(y, 6) + spec_days_in_month(y, 6));
    assert(spec_days_before_month(y, 8) == spec_days_before_month(y, 7) + spec_days_in_month(y, 7));
    assert(spec_days_before_month(y, 9) == spec_days_before_month(y, 8) + spec_days_in_month(y, 8));
    assert(spec_days_before_month(y, 10) == spec_days_before_month(y, 9) + spec_days_in_month(
        y,
        9,
    ));
    assert(spec_days_before_month(y, 11) == spec_days_before_month(y, 10) + spec_days_in_month(
        y,
        10,
    ));
    assert(spec_days_before_month(y, 12) == spec_days_before_month(y, 11) + spec_days_in_month(
        y,
        11,
    ));
    assert(spec_days_before_month(y, 13) == spec_days_before_month(y, 12) + spec_days_in_month(
        y,
        12,
    ));
}

impl CivilDateTime {
    /// A value that names a real calendar instant, in years one through
    /// nine thousand nine hundred ninety-nine.
    pub open spec fn spec_valid(self) -> bool {
        &&& 1 <= self.year <= 9999
        &&& 1 <= self.month <= 12
        &&& 1 <= self.day <= spec_days_in_month(self.year as int, self.month as int)
        &&& self.hour < 24
        &&& self.minute < 60
        &&& self.second < 60
        &&& self.micro < 1000000
    }

    /// Valid, a year from either end of the calendar: the range in which
    /// a day's shift in either direction stays on the calendar.
    pub open spec fn spec_in_range(self) -> bool {
        self.spec_valid() && 2 <= self.year <= 9998
    }

    /// The day's number on the time line (the first day of year one is
    /// day zero).
    pub open spec fn spec_day_number(self) -> int {
        spec_days_before_year(self.year as int) + spec_days_before_month(
            self.year as int,
            self.month as int,
        ) + self.day - 1
    }

    /// The second's number on the time line: the civil timestamp.
    pub open spec fn spec_timestamp(self) -> int {
        self.spec_day_number() * 86400 + self.hour * 3600 + self.minute * 60 + self.second
    }
}

/// The days of a month, executable.
fn days_in_month(y: i32, m: u8) -> (r: u8)
    requires
        1 <= y <= 9999,
        1 <= m <= 12,
    ensures
        r == spec_days_in_month(y as int, m as int),
{
    if m == 2 {
        let leap = (y % 4 == 0 && y % 100 != 0) || y % 400 == 0;
        if leap {
            29
        } else {
            28
        }
    } else if m == 4 || m == 6 || m == 9 || m == 11 {
        30
    } else {
        31
    }
}

/// The previous calendar day, time of day untouched.
fn prev_day(c: CivilDateTime) -> (r: CivilDateTime)
    requires
        c.spec_valid(),
        c.year >= 2,
    ensures
        r.spec_valid(),
        r.spec_day_number() == c.spec_day_number() - 1,
        r.hour == c.hour && r.minute == c.minute && r.second == c.second && r.micro == c.micro,
{
    if c.day > 1 {
        CivilDateTime { day: c.day - 1, ..c }
    } else if c.month > 1 {
        let d = days_in_month(c.year, c.month - 1);
        CivilDateTime { month: c.month - 1, day: d, ..c }
    } else {
        proof {
            lemma_year_days(c.year as int - 1);
        }
        let d = days_in_month(c.year - 1, 12);
        CivilDateTime { year: c.year - 1, month: 12, day: d, ..c }
    }
}

/// The next calendar day, time of day untouched.
fn next_day(c: CivilDateTime) -> (r: CivilDateTime)
    requires
        c.spec_valid(),
        c.year <= 9998,
    ensures
        r.spec_valid(),
        r.spec_day_number() == c.spec_day_number() + 1,
        r.hour == c.hour && r.minute == c.minute && r.second == c.second && r.micro == c.micro,
{
    let dim = days_in_month(c.year, c.month);
    if c.day < dim {
        CivilDateTime { day: c.day + 1, ..c }
    } else if c.month < 12 {
        CivilDateTime { month: c.month + 1, day: 1, ..c }
    } else {
        proof {
            lemma_year_days(c.year as int);
        }
        CivilDateTime { year: c.year + 1, month: 1, day: 1, ..c }
    }
}

/// Moves a civil time along the time line by up to a day in either
/// direction: the timestamp moves by exactly the delta; microseconds ride
/// along.
pub fn shift_civil(c: CivilDateTime, delta: i64) -> (r: CivilDateTime)
    requires
        c.spec_in_range(),
        -86400 <= delta <= 86400,
    ensures
        r.spec_valid(),
        r.spec_timestamp() == c.spec_timestamp() + delta,
        r.micro == c.micro,
{
    let sod: i64 = (c.hour as i64) * 3600 + (c.minute as i64) * 60 + (c.second as i64);
    let total: i64 = sod + delta;
    let (date, sod2): (CivilDateTime, i64) = if total < 0 {
        (prev_day(c), total + 86400)
    } else if total >= 86400 {
        (next_day(c), total - 86400)
    } else {
        (c, total)
    };
    let s2: u64 = sod2 as u64;
    let hour = s2 / 3600;
    let rem = s2 % 3600;
    let minute = rem / 60;
    let second = rem % 60;
    proof {
        assert(s2 < 86400);
        assert(hour == s2 as int / 3600 && hour < 24) by (nonlinear_arith)
            requires
                s2 < 86400,
                hour == s2 / 3600,
        ;
        assert(rem == s2 as int % 3600 && rem < 3600 && s2 == 3600 * (s2 as int / 3600) + rem)
            by (nonlinear_arith)
            requires
                rem == s2 % 3600,
                hour == s2 / 3600,
                s2 < 86400,
        ;
        assert(minute == rem as int / 60 && minute < 60 && second == rem as int % 60 && second < 60
            && rem == 60 * (rem as int / 60) + second) by (nonlinear_arith)
            requires
                rem < 3600,
                minute == rem / 60,
                second == rem % 60,
        ;
    }
    let r = CivilDateTime {
        hour: hour as u8,
        minute: minute as u8,
        second: second as u8,
        ..date
    };
    proof {
        assert(r.spec_timestamp() == date.spec_day_number() * 86400 + s2);
    }
    r
}

/// The date rendered as year-month-day, zero padded.
pub open spec fn spec_date_str(c: CivilDateTime) -> Seq<char> {
    spec_pad4(c.year as nat) + "-"@ + spec_pad2(c.month as nat) + "-"@ + spec_pad2(c.day as nat)
}

/// The time of day rendered as hour:minute:second, zero padded.
pub open spec fn spec_time_str(c: CivilDateTime) -> Seq<char> {
    spec_pad2(c.hour as nat) + ":"@ + spec_pad2(c.minute as nat) + ":"@ + spec_pad2(
        c.second as nat,
    )
}

/// The default rendering: date, a space, time of day.
pub open spec fn spec_default_str(c: CivilDateTime) -> Seq<char> {
    spec_date_str(c) + " "@ + spec_time_str(c)
}

/// An offset rendered as a signed hour:minute pair, zero padded; seconds
/// below a minute are not shown.
pub open spec fn spec_offset_str(off: int) -> Seq<char> {
    let a = if off < 0 {
        -off
    } else {
        off
    };
    (if off < 0 {
        "-"@
    } else {
        "+"@
    }) + spec_pad2((a / 3600) as nat) + ":"@ + spec_pad2((a % 3600 / 60) as nat)
}

/// A zoned value's rendering: civil time, a space, the offset.
pub open spec fn spec_display_local(c: CivilDateTime, off: int) -> Seq<char> {
    spec_default_str(c) + " "@ + spec_offset_str(off)
}

/// A UTC value's rendering: civil time, a space, the zone's name.
pub open spec fn spec_display_utc(c: CivilDateTime) -> Seq<char> {
    spec_default_str(c) + " UTC"@
}

/// The RFC 3339 rendering: date, T, time, six fractional digits, offset.
pub open spec fn spec_rfc3339_str(c: CivilDateTime, off: int) -> Seq<char> {
    spec_date_str(c) + "T"@ + spec_time_str(c) + "."@ + spec_pad6(c.micro as nat)
        + spec_offset_str(off)
}

/// Renders the date part.
fn format_date(c: &CivilDateTime) -> (r: String)
    requires
        c.spec_valid(),
    ensures
        r@ == spec_date_str(*c),
{
    let mut s = u64_to_pad4(c.year as u64);
    s.append("-");
    s.append(u64_to_pad2(c.month as u64).as_str());
    s.append("-");
    s.append(u64_to_pad2(c.day as u64).as_str());
    s
}

/// Renders the time-of-day part.
fn format_time(c: &CivilDateTime) -> (r: String)
    requires
        c.spec_valid(),
    ensures
        r@ == spec_time_str(*c),
{
    let mut s = u64_to_pad2(c.hour as u64);
    s.append(":");
    s.append(u64_to_pad2(c.minute as u64).as_str());
    s.append(":");
    s.append(u64_to_pad2(c.second as u64).as_str());
    s
}

/// Renders the default shape: date, a space, time of day.
fn format_default(c: &CivilDateTime) -> (r: String)
    requires
        c.spec_valid(),
    ensures
        r@ == spec_default_str(*c),
{
    let mut s = format_date(c);
    s.append(" ");
    s.append(format_time(c).as_str());
    s
}

/// Renders an offset as a signed hour:minute pair.
fn format_offset(off: i32) -> (r: String)
    requires
        -86400 < off < 86400,
    ensures
        r@ == spec_offset_str(off as int),
{
    let a: i32 = if off < 0 {
        -off
    } else {
        off
    };
    let oh: i32 = a / 3600;
    let rem: i32 = a % 3600;
    let om: i32 = rem / 60;
    proof {
        assert(oh == a as int / 3600 && oh < 24 && rem == a as int % 3600 && 0 <= rem < 3600 && om
            == rem as int / 60 && om < 60 && 0 <= om && 0 <= oh) by (nonlinear_arith)
            requires
                0 <= a < 86400,
                oh == a / 3600,
                rem == a % 3600,
                om == rem / 60,
        ;
    }
    let mut s = String::from_str(if off < 0 {
        "-"
    } else {
        "+"
    });
    s.append(u64_to_pad2(oh as u64).as_str());
    s.append(":");
    s.append(u64_to_pad2(om as u64).as_str());
    s
}

/// A UTC date and time.
pub struct UtcDateTime {
    pub civil: CivilDateTime,
}

/// A date and time in a fixed-offset zone: the civil fields read in that
/// zone, together with the zone's offset east of UTC, in seconds.
pub struct LocalDateTime {
    pub civil: CivilDateTime,
    pub offset_seconds: i32,
}

impl LocalDateTime {
    /// A real instant in a real zone.
    pub open spec fn spec_wf(self) -> bool {
        self.civil.spec_valid() && -86400 < self.offset_seconds < 86400
    }

    /// Renders as civil time, a space, the offset.
    pub fn display_string(&self) -> (r: String)
        requires
            self.spec_wf(),
        ensures
            r@ == spec_display_local(self.civil, self.offset_seconds as int),
    {
        let mut s = format_default(&self.civil);
        s.append(" ");
        s.append(format_offset(self.offset_seconds).as_str());
        s
    }

    /// Renders in RFC 3339 shape, with six fractional digits.
    pub fn rfc3339_string(&self) -> (r: String)
        requires
            self.spec_wf(),
        ensures
            r@ == spec_rfc3339_str(self.civil, self.offset_seconds as int),
    {
        let mut s = format_date(&self.civil);
        s.append("T");
        s.append(format_time(&self.civil).as_str());
        s.append(".");
        s.append(u64_to_pad6(self.civil.micro as u64).as_str());
        s.append(format_offset(self.offset_seconds).as_str());
        s
    }

    /// The same instant as UTC: the timestamp moves back by exactly the
    /// zone's offset.
    pub fn to_utc_datetime(&self) -> (r: UtcDateTime)
        requires
            self.spec_wf(),
            self.civil.spec_in_range(),
        ensures
            r.civil.spec_valid(),
            r.civil.spec_timestamp() == self.civil.spec_timestamp() - self.offset_seconds,
            r.civil.micro == self.civil.micro,
    {
        UtcDateTime { civil: shift_civil(self.civil, -(self.offset_seconds as i64)) }
    }
}

impl UtcDateTime {
    /// Renders as civil time, a space, the zone's name.
    pub fn display_string(&self) -> (r: String)
        requires
            self.civil.spec_valid(),
        ensures
            r@ == spec_display_utc(self.civil),
    {
        let mut s = format_default(&self.civil);
        s.append(" UTC");
        s
    }

    /// The same instant read in a fixed-offset zone: the timestamp moves
    /// forward by exactly the offset.
    pub fn with_offset(&self, off: i32) -> (r: LocalDateTime)
        requires
            self.civil.spec_in_range(),
            -86400 < off < 86400,
        ensures
            r.spec_wf(),
            r.offset_seconds == off,
            r.civil.spec_timestamp() == self.civil.spec_timestamp() + off,
            r.civil.micro == self.civil.micro,
    {
        LocalDateTime { civil: shift_civil(self.civil, off as i64), offset_seconds: off }
    }
}

/// What the calendar collaborator answers for a text and a format: the
/// parsed calendar fields as plain numbers — year, month, day, hour,
/// minute, second, nanosecond — or nothing for a text the format rejects.
pub uninterp spec fn parsed_of(s: Seq<char>, fmt: Seq<char>) -> Option<
    (i32, u32, u32, u32, u32, u32, u32),
>;

/// Relies on chrono's `NaiveDateTime::parse_from_str`: the parse is a pure
/// function of the text and the format string alone; the parsed value's
/// calendar fields are handed back as plain numbers, a zone offset in the
/// text being read and discarded.
#[verifier::external_body]
fn parse_civil(s: &str, fmt: &str) -> (r: Option<(i32, u32, u32, u32, u32, u32, u32)>)
    ensures
        r == parsed_of(s@, fmt@),
{
    match chrono::NaiveDateTime::parse_from_str(s, fmt) {
        Ok(dt) => Some(
            (dt.year(), dt.month(), dt.day(), dt.hour(), dt.minute(), dt.second(), dt.nanosecond()),
        ),
        Err(_) => None,
    }
}

/// Relies on chrono's `Local` zone lookup: the machine zone's offset east
/// of UTC for the given instant, in seconds; fields that name no UTC
/// instant are answered with the zero offset. The offset comes from the
/// machine's zone database, so nothing is promised of it beyond chrono's
/// own `FixedOffset` bound: under a day in magnitude.
#[verifier::external_body]
fn local_offset_seconds(year: i32, month: u32, day: u32, hour: u32, minute: u32, second: u32) -> (r:
    i32)
    ensures
        -86400 < r < 86400,
{
    match chrono::Utc.with_ymd_and_hms(year, month, day, hour, minute, second).single() {
        Some(t) => chrono::DateTime::<chrono::Local>::from(t).offset().fix().local_minus_utc(),
        None => 0,
    }
}

/// The civil value the parsed fields name, if they name one this module's
/// calendar covers: a valid date and time in a year not at either end of
/// the calendar.
pub open spec fn spec_civil_from_parts(t: (i32, u32, u32, u32, u32, u32, u32)) -> Option<
    CivilDateTime,
> {
    let micro = t.6 as int / 1000;
    if 2 <= t.0 <= 9998 && 1 <= t.1 <= 12 && 1 <= t.2 <= spec_days_in_month(t.0 as int, t.1 as int)
        && t.3 < 24 && t.4 < 60 && t.5 < 60 && micro < 1000000 {
        Option::Some(
            CivilDateTime {
                year: t.0,
                month: t.1 as u8,
                day: t.2 as u8,
                hour: t.3 as u8,
                minute: t.4 as u8,
                second: t.5 as u8,
                micro: (t.6 / 1000) as u32,
            },
        )
    } else {
        Option::None
    }
}

/// What a text yields under a format: the parse, held to this module's
/// calendar.
pub open spec fn spec_accepted(s: Seq<char>, fmt: Seq<char>) -> Option<CivilDateTime> {
    match parsed_of(s, fmt) {
        Option::Some(t) => spec_civil_from_parts(t),
        Option::None => Option::None,
    }
}

/// Holds the parsed fields to the calendar.
fn civil_from_parts(t: (i32, u32, u32, u32, u32, u32, u32)) -> (r: Option<CivilDateTime>)
    ensures
        r == spec_civil_from_parts(t),
        r matches Some(c) ==> c.spec_in_range(),
{
    let micro = t.6 / 1000;
    if 2 <= t.0 && t.0 <= 9998 && 1 <= t.1 && t.1 <= 12 && 1 <= t.2 && t.3 < 24 && t.4 < 60 && t.5
        < 60 && micro < 1000000 {
        let dim = days_in_month(t.0, t.1 as u8);
        if t.2 <= dim as u32 {
            Some(
                CivilDateTime {
                    year: t.0,
                    month: t.1 as u8,
                    day: t.2 as u8,
                    hour: t.3 as u8,
                    minute: t.4 as u8,
                    second: t.5 as u8,
                    micro: micro as u32,
                },
            )
        } else {
            None
        }
    } else {
        None
    }
}

/// The rejection every parsing function answers with.
fn parse_error() -> (r: ErrorKind)
    ensures
        r matches ErrorKind::Validate { msg, err_code } && msg@ == "date-time parse failed"@
            && err_code == 40000000,
{
    ErrorKind::Validate { msg: String::from_str("date-time parse failed"), err_code: 40000000 }
}

/// Parses a text under a format and reads it in the fixed +08:00 zone.
/// Succeeds exactly on a text the format accepts naming a date and time
/// on this module's calendar; the civil fields are the text's own.
pub fn to_local(s: &str, format: &str) -> (r: Result<LocalDateTime, ErrorKind>)
    ensures
        r is Ok <==> spec_accepted(s@, format@) is Some,
        r matches Ok(l) ==> spec_accepted(s@, format@) == Some(l.civil) && l.offset_seconds
            == 28800 && l.civil.spec_in_range(),
        r matches Err(e) ==> e matches ErrorKind::Validate { .. },
{
    match parse_civil(s, format) {
        Some(t) => match civil_from_parts(t) {
            Some(c) => Ok(LocalDateTime { civil: c, offset_seconds: 28800 }),
            None => Err(parse_error()),
        },
        None => Err(parse_error()),
    }
}

/// Parses a text under a format, reads it in the fixed +08:00 zone, and
/// converts to UTC: the timestamp moves back by exactly eight hours.
pub fn to_utc(s: &str, format: &str) -> (r: Result<UtcDateTime, ErrorKind>)
    ensures
        r is Ok <==> spec_accepted(s@, format@) is Some,
        r matches Ok(u) ==> (spec_accepted(s@, format@) matches Some(c) && u.civil.spec_valid()
            && u.civil.spec_timestamp() == c.spec_timestamp() - 28800 && u.civil.micro == c.micro),
        r matches Err(e) ==> e matches ErrorKind::Validate { .. },
{
    match to_local(s, format) {
        Ok(l) => Ok(l.to_utc_datetime()),
        Err(e) => Err(e),
    }
}

/// Parses the default shape, year-month-day space hour:minute:second,
/// and reads it in the fixed +08:00 zone.
pub fn default_to_local(s: &str) -> (r: Result<LocalDateTime, ErrorKind>)
    ensures
        r is Ok <==> spec_accepted(s@, "%Y-%m-%d %H:%M:%S"@) is Some,
        r matches Ok(l) ==> spec_accepted(s@, "%Y-%m-%d %H:%M:%S"@) == Some(l.civil)
            && l.offset_seconds == 28800 && l.civil.spec_in_range(),
        r matches Err(e) ==> e matches ErrorKind::Validate { .. },
{
    to_local(s, "%Y-%m-%d %H:%M:%S")
}

/// Parses the default shape, reads it in the fixed +08:00 zone, and
/// converts to UTC.
pub fn default_to_utc(s: &str) -> (r: Result<UtcDateTime, ErrorKind>)
    ensures
        r is Ok <==> spec_accepted(s@, "%Y-%m-%d %H:%M:%S"@) is Some,
        r matches Ok(u) ==> (spec_accepted(s@, "%Y-%m-%d %H:%M:%S"@) matches Some(c)
            && u.civil.spec_valid() && u.civil.spec_timestamp() == c.spec_timestamp() - 28800
            && u.civil.micro == c.micro),
        r matches Err(e) ==> e matches ErrorKind::Validate { .. },
{
    to_utc(s, "%Y-%m-%d %H:%M:%S")
}

/// Parses the RFC 3339 shape (an offset in the text is read and
/// discarded) and reads the civil fields in the fixed +08:00 zone.
pub fn rfc3339_to_local(s: &str) -> (r: Result<LocalDateTime, ErrorKind>)
    ensures
        r is Ok <==> spec_accepted(s@, "%Y-%m-%dT%H:%M:%S%.6f%:z"@) is Some,
        r matches Ok(l) ==> spec_accepted(s@, "%Y-%m-%dT%H:%M:%S%.6f%:z"@) == Some(l.civil)
            && l.offset_seconds == 28800 && l.civil.spec_in_range(),
        r matches Err(e) ==> e matches ErrorKind::Validate { .. },
{
    to_local(s, "%Y-%m-%dT%H:%M:%S%.6f%:z")
}

/// Parses the RFC 3339 shape, reads it in the fixed +08:00 zone, and
/// converts to UTC.
pub fn rfc3339_to_utc(s: &str) -> (r: Result<UtcDateTime, ErrorKind>)
    ensures
        r is Ok <==> spec_accepted(s@, "%Y-%m-%dT%H:%M:%S%.6f%:z"@) is Some,
        r matches Ok(u) ==> (spec_accepted(s@, "%Y-%m-%dT%H:%M:%S%.6f%:z"@) matches Some(c)
            && u.civil.spec_valid() && u.civil.spec_timestamp() == c.spec_timestamp() - 28800
            && u.civil.micro == c.micro),
        r matches Err(e) ==> e matches ErrorKind::Validate { .. },
{
    to_utc(s, "%Y-%m-%dT%H:%M:%S%.6f%:z")
}

/// Rendering in the machine's local zone. The zone's offset comes from
/// the machine, so the rendered text is a function of the value and that
/// offset together.
pub trait FormatDateTime {
    /// The range in which the renderer's zone conversion stays on the
    /// calendar.
    spec fn wf(&self) -> bool;

    /// Renders in the machine's local zone, in RFC 3339 shape.
    fn to_rfc3339(&self) -> (r: String)
        requires
            self.wf(),
    ;

    /// Renders in the machine's local zone, in the default shape.
    fn to_default(&self) -> (r: String)
        requires
            self.wf(),
    ;
}

impl FormatDateTime for UtcDateTime {
    open spec fn wf(&self) -> bool {
        self.civil.spec_in_range()
    }

    /// Whatever offset the machine zone answers, the rendering is the
    /// RFC 3339 string of a valid civil value at this instant read under
    /// that offset.
    fn to_rfc3339(&self) -> (r: String)
        ensures
            exists|off: int, c: CivilDateTime|
                -86400 < off < 86400 && c.spec_valid() && c.spec_timestamp()
                    == self.civil.spec_timestamp() + off && c.micro == self.civil.micro && r@
                    == #[trigger] spec_rfc3339_str(c, off),
    {
        let off = local_offset_seconds(
            self.civil.year,
            self.civil.month as u32,
            self.civil.day as u32,
            self.civil.hour as u32,
            self.civil.minute as u32,
            self.civil.second as u32,
        );
        let local = self.with_offset(off);
        let r = local.rfc3339_string();
        proof {
            assert(-86400 < (off as int) && (off as int) < 86400 && local.civil.spec_valid()
                && local.civil.spec_timestamp() == self.civil.spec_timestamp() + off
                && local.civil.micro == self.civil.micro && r@ == spec_rfc3339_str(
                local.civil,
                off as int,
            ));
        }
        r
    }

    /// Whatever offset the machine zone answers, the rendering is the
    /// default-shaped string of a valid civil value within a day of this
    /// instant: the same instant read under that offset.
    fn to_default(&self) -> (r: String)
        ensures
            exists|c: CivilDateTime|
                c.spec_valid() && c.micro == self.civil.micro && -86400 < c.spec_timestamp()
                    - self.civil.spec_timestamp() < 86400 && r@ == #[trigger] spec_default_str(c),
    {
        let off = local_offset_seconds(
            self.civil.year,
            self.civil.month as u32,
            self.civil.day as u32,
            self.civil.hour as u32,
            self.civil.minute as u32,
            self.civil.second as u32,
        );
        let local = self.with_offset(off);
        let r = format_default(&local.civil);
        proof {
            assert(local.civil.spec_valid() && local.civil.micro == self.civil.micro && -86400
                < local.civil.spec_timestamp() - self.civil.spec_timestamp() < 86400 && r@
                == spec_default_str(local.civil));
        }
        r
    }
}

} // verus!

