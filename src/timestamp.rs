//! The date and date-time decoders, anchored in the civil time zone America/Montreal.

use vstd::prelude::*;

use chrono::{Datelike, LocalResult, NaiveDate, NaiveDateTime, Offset, ParseError, Timelike};
use chrono_tz::America;

use crate::error::DecodeError;
use crate::text::chars_of;

verus! {

/// chrono's `ParseError`, carried as it is.
#[verifier::external_type_specification]
#[verifier::external_body]
pub struct ExParseError(ParseError);

/// A calendar date of the proleptic Gregorian calendar.
#[derive(Debug, Clone, Copy, PartialEq, Eq, Structural)]
pub struct CivilDate {
    pub year: i32,
    pub month: u32,
    pub day: u32,
}

/// A date and a time of day, with no time zone. A leap second has a nanosecond of
/// 1_000_000_000 or more.
#[derive(Debug, Clone, Copy, PartialEq, Eq, Structural)]
pub struct LocalDateTime {
    pub date: CivilDate,
    pub hour: u32,
    pub minute: u32,
    pub second: u32,
    pub nanosecond: u32,
}

/// A local date-time of the civil time zone America/Montreal, with the offset from UTC,
/// in seconds, that the zone has at that moment.
#[derive(Debug, Clone, Copy, PartialEq, Eq, Structural)]
pub struct CivilInstant {
    pub local: LocalDateTime,
    pub utc_offset: i32,
}

/// A date as year, month and day.
pub type DateFields = (i32, u32, u32);

/// A local date-time as its date, and hour, minute, second and nanosecond.
pub type DateTimeFields = ((i32, u32, u32), (u32, u32, u32, u32));

/// What chrono's `NaiveDate::parse_from_str(s, fmt)` reads, if it succeeds.
pub uninterp spec fn date_parsed(s: Seq<char>, fmt: Seq<char>) -> Option<(i32, u32, u32)>;

/// What chrono's `NaiveDateTime::parse_from_str(s, fmt)` reads, if it succeeds.
pub uninterp spec fn datetime_parsed(s: Seq<char>, fmt: Seq<char>) -> Option<
    ((i32, u32, u32), (u32, u32, u32, u32)),
>;

/// The one offset from UTC, in seconds, that America/Montreal has at a local date-time;
/// `None` where that local time is skipped, repeated, or no valid date-time.
pub uninterp spec fn montreal_offset_of(local: ((i32, u32, u32), (u32, u32, u32, u32))) -> Option<
    i32,
>;

/// Whether `c` has the Unicode property Alphabetic.
pub uninterp spec fn alphabetic(c: char) -> bool;

/// Relies on `char::is_alphabetic`.
#[verifier::external_body]
fn is_alphabetic(c: char) -> (r: bool)
    ensures
        r == alphabetic(c),
{
    c.is_alphabetic()
}

/// Relies on chrono's `NaiveDate::parse_from_str`, which reads `s` by the strftime-style
/// pattern `fmt`.
#[verifier::external_body]
fn parse_date(s: &str, fmt: &str) -> (r: Result<(i32, u32, u32), ParseError>)
    ensures
        r is Ok <==> date_parsed(s@, fmt@) is Some,
        r matches Ok(t) ==> date_parsed(s@, fmt@) == Some(t),
{
    NaiveDate::parse_from_str(s, fmt).map(|d| (d.year(), d.month(), d.day()))
}

/// Relies on chrono's `NaiveDateTime::parse_from_str`, which reads `s` by the
/// strftime-style pattern `fmt`.
#[verifier::external_body]
fn parse_datetime(s: &str, fmt: &str) -> (r: Result<
    ((i32, u32, u32), (u32, u32, u32, u32)),
    ParseError,
>)
    ensures
        r is Ok <==> datetime_parsed(s@, fmt@) is Some,
        r matches Ok(t) ==> datetime_parsed(s@, fmt@) == Some(t),
{
    NaiveDateTime::parse_from_str(s, fmt).map(
        |t| ((t.year(), t.month(), t.day()), (t.hour(), t.minute(), t.second(), t.nanosecond())),
    )
}

/// Relies on chrono's `NaiveDateTime::and_local_timezone` with chrono-tz's
/// `America::Montreal`: where the zone maps the local time to exactly one instant, the
/// offset of that instant (`Offset::fix`, `FixedOffset::local_minus_utc`).
#[verifier::external_body]
fn montreal_offset(local: ((i32, u32, u32), (u32, u32, u32, u32))) -> (r: Option<i32>)
    ensures
        r == montreal_offset_of(local),
{
    let ((y, mo, d), (h, mi, s, ns)) = local;
    let naive = match NaiveDate::from_ymd_opt(y, mo, d) {
        Some(date) => date.and_hms_nano_opt(h, mi, s, ns),
        None => None,
    };
    match naive.map(|n| n.and_local_timezone(America::Montreal)) {
        Some(LocalResult::Single(t)) => Some(t.offset().fix().local_minus_utc()),
        Some(LocalResult::Ambiguous(_, _)) => None,
        Some(LocalResult::None) => None,
        None => None,
    }
}

impl CivilDate {
    pub open spec fn fields(self) -> (i32, u32, u32) {
        (self.year, self.month, self.day)
    }

    pub open spec fn from_fields(t: (i32, u32, u32)) -> CivilDate {
        CivilDate { year: t.0, month: t.1, day: t.2 }
    }
}

impl LocalDateTime {
    pub open spec fn fields(self) -> ((i32, u32, u32), (u32, u32, u32, u32)) {
        (self.date.fields(), (self.hour, self.minute, self.second, self.nanosecond))
    }

    pub open spec fn from_fields(t: ((i32, u32, u32), (u32, u32, u32, u32))) -> LocalDateTime {
        LocalDateTime {
            date: CivilDate::from_fields(t.0),
            hour: (t.1).0,
            minute: (t.1).1,
            second: (t.1).2,
            nanosecond: (t.1).3,
        }
    }

    fn from_tuple(t: ((i32, u32, u32), (u32, u32, u32, u32))) -> (r: LocalDateTime)
        ensures
            r == LocalDateTime::from_fields(t),
    {
        LocalDateTime {
            date: CivilDate { year: (t.0).0, month: (t.0).1, day: (t.0).2 },
            hour: (t.1).0,
            minute: (t.1).1,
            second: (t.1).2,
            nanosecond: (t.1).3,
        }
    }

    fn to_tuple(&self) -> (r: ((i32, u32, u32), (u32, u32, u32, u32)))
        ensures
            r == self.fields(),
    {
        (
            (self.date.year, self.date.month, self.date.day),
            (self.hour, self.minute, self.second, self.nanosecond),
        )
    }

    /// The earliest local date-time there is: January 1st of year -262143, at midnight
    /// (chrono's `NaiveDateTime::MIN`).
    pub open spec fn spec_min() -> LocalDateTime {
        LocalDateTime {
            date: CivilDate { year: -262143i32, month: 1, day: 1 },
            hour: 0,
            minute: 0,
            second: 0,
            nanosecond: 0,
        }
    }

    /// The earliest local date-time there is.
    pub fn min() -> (r: LocalDateTime)
        ensures
            r == LocalDateTime::spec_min(),
    {
        LocalDateTime {
            date: CivilDate { year: -262143, month: 1, day: 1 },
            hour: 0,
            minute: 0,
            second: 0,
            nanosecond: 0,
        }
    }
}

/// `local` anchored in America/Montreal, given the zone's offset there.
pub open spec fn anchored(local: LocalDateTime, offset: Option<i32>) -> Result<
    CivilInstant,
    DecodeError,
> {
    match offset {
        Some(o) => Ok(CivilInstant { local, utc_offset: o }),
        None => Err(DecodeError::UnmappableLocalTime),
    }
}

/// `local` anchored in America/Montreal.
pub open spec fn in_montreal(local: LocalDateTime) -> Result<CivilInstant, DecodeError> {
    anchored(local, montreal_offset_of(local.fields()))
}

/// Anchors a local date-time, given the offset that the zone has there (`None` where the
/// zone skips or repeats that local time).
pub fn anchor(local: LocalDateTime, offset: Option<i32>) -> (r: Result<CivilInstant, DecodeError>)
    ensures
        r == anchored(local, offset),
{
    match offset {
        Some(o) => Ok(CivilInstant { local, utc_offset: o }),
        None => Err(DecodeError::UnmappableLocalTime),
    }
}

fn anchor_in_montreal(local: LocalDateTime) -> (r: Result<CivilInstant, DecodeError>)
    ensures
        r == in_montreal(local),
{
    anchor(local, montreal_offset(local.to_tuple()))
}

pub open spec fn timestamp_format() -> Seq<char> {
    "%Y-%m-%d %H:%M:%S"@
}

/// The character that position `i` of `YYYY-MM-DD HH:MM:SS` must hold, where it is no digit.
pub open spec fn timestamp_separator(i: int) -> Option<char> {
    if i == 4 || i == 7 {
        Some('-')
    } else if i == 10 {
        Some(' ')
    } else if i == 13 || i == 16 {
        Some(':')
    } else {
        None
    }
}

/// `s` has the shape `DDDD-DD-DD DD:DD:DD`, each `D` an ASCII digit.
pub open spec fn timestamp_shape(s: Seq<char>) -> bool {
    &&& s.len() == 19
    &&& forall|i: int|
        0 <= i < 19 ==> match #[trigger] timestamp_separator(i) {
            Some(c) => s[i] == c,
            None => '0' <= s[i] && s[i] <= '9',
        }
}

/// The wire's stand-in for "no time": `0000-00-00 00:00:00`.
pub open spec fn zero_timestamp() -> Seq<char> {
    Seq::new(
        19,
        |i: int|
            match timestamp_separator(i) {
                Some(c) => c,
                None => '0',
            },
    )
}

/// The instant that a date-time string stands for.
pub open spec fn timestamp_spec(s: Seq<char>) -> Result<CivilInstant, DecodeError> {
    if !timestamp_shape(s) {
        Err(DecodeError::InvalidTimestampFormat)
    } else if s == zero_timestamp() {
        in_montreal(LocalDateTime::spec_min())
    } else {
        match datetime_parsed(s, timestamp_format()) {
            Some(t) => in_montreal(LocalDateTime::from_fields(t)),
            None => Err(DecodeError::InvalidTimestamp),
        }
    }
}

fn separator_at(i: usize) -> (r: Option<char>)
    ensures
        r == timestamp_separator(i as int),
{
    if i == 4 || i == 7 {
        Some('-')
    } else if i == 10 {
        Some(' ')
    } else if i == 13 || i == 16 {
        Some(':')
    } else {
        None
    }
}

/// Whether `v` has the shape `DDDD-DD-DD DD:DD:DD`, and whether it is all zeros.
fn timestamp_kind(v: &Vec<char>) -> (r: (bool, bool))
    ensures
        r.0 == timestamp_shape(v@),
        r.1 == (v@ == zero_timestamp()),
{
    if v.len() != 19 {
        proof {
            if v@ == zero_timestamp() {
                assert(v@.len() == 19);
            }
        }
        return (false, false);
    }
    let mut shape = true;
    let mut zero = true;
    let mut i: usize = 0;
    while i < 19
        invariant
            i <= 19,
            v.len() == 19,
            shape == forall|j: int|
                0 <= j < i ==> match #[trigger] timestamp_separator(j) {
                    Some(c) => v@[j] == c,
                    None => '0' <= v@[j] && v@[j] <= '9',
                },
            zero == forall|j: int| 0 <= j < i ==> v@[j] == #[trigger] zero_timestamp()[j],
        decreases 19 - i,
    {
        let c = v[i];
        match separator_at(i) {
            Some(sep) => {
                if c != sep {
                    shape = false;
                    zero = false;
                }
            },
            None => {
                if !('0' <= c && c <= '9') {
                    shape = false;
                }
                if c != '0' {
                    zero = false;
                }
            },
        }
        assert(zero_timestamp()[i as int] == match timestamp_separator(i as int) {
            Some(c) => c,
            None => '0',
        });
        i = i + 1;
    }
    proof {
        if zero {
            assert(v@ =~= zero_timestamp());
        }
    }
    (shape, zero)
}

/// Decodes a date-time field that may be null: `YYYY-MM-DD HH:MM:SS` in America/Montreal,
/// where `0000-00-00 00:00:00` stands for the earliest date-time there is.
pub fn timestamp_optional(raw: Option<String>) -> (r: Result<Option<CivilInstant>, DecodeError>)
    ensures
        raw is None ==> r == Ok::<Option<CivilInstant>, DecodeError>(None),
        raw matches Some(s) ==> match timestamp_spec(s@) {
            Ok(t) => r == Ok::<Option<CivilInstant>, DecodeError>(Some(t)),
            Err(e) => r == Err::<Option<CivilInstant>, DecodeError>(e),
        },
{
    match raw {
        None => Ok(None),
        Some(s) => {
            let v = chars_of(s.as_str());
            let (shape, zero) = timestamp_kind(&v);
            if !shape {
                return Err(DecodeError::InvalidTimestampFormat);
            }
            let local = if zero {
                LocalDateTime::min()
            } else {
                match parse_datetime(s.as_str(), "%Y-%m-%d %H:%M:%S") {
                    Ok(t) => LocalDateTime::from_tuple(t),
                    Err(_) => return Err(DecodeError::InvalidTimestamp),
                }
            };
            match anchor_in_montreal(local) {
                Ok(t) => Ok(Some(t)),
                Err(e) => Err(e),
            }
        },
    }
}

/// Decodes a required date-time field: as `timestamp_optional`, with null an error.
pub fn timestamp(raw: Option<String>) -> (r: Result<CivilInstant, DecodeError>)
    ensures
        raw is None ==> r == Err::<CivilInstant, DecodeError>(DecodeError::UnexpectedNull),
        raw matches Some(s) ==> r == timestamp_spec(s@),
{
    match timestamp_optional(raw) {
        Ok(Some(t)) => Ok(t),
        Ok(None) => Err(DecodeError::UnexpectedNull),
        Err(e) => Err(e),
    }
}


pub open spec fn month_name_format() -> Seq<char> {
    "%B %d, %Y"@
}

pub open spec fn numeric_date_format() -> Seq<char> {
    "%Y-%m-%d"@
}

/// The date that a date string stands for: `Month dd, YYYY` where it starts with a
/// letter, `YYYY-mm-dd` otherwise.
pub open spec fn date_spec(s: Seq<char>) -> Result<CivilDate, DecodeError> {
    if s.len() == 0 {
        Err(DecodeError::InvalidDate)
    } else {
        let fmt = if alphabetic(s[0]) {
            month_name_format()
        } else {
            numeric_date_format()
        };
        match date_parsed(s, fmt) {
            Some(t) => Ok(CivilDate::from_fields(t)),
            None => Err(DecodeError::InvalidDate),
        }
    }
}

fn date_from_tuple(t: (i32, u32, u32)) -> (r: CivilDate)
    ensures
        r == CivilDate::from_fields(t),
{
    CivilDate { year: t.0, month: t.1, day: t.2 }
}

/// Decodes a date field that may be null.
pub fn date_optional(raw: Option<String>) -> (r: Result<Option<CivilDate>, DecodeError>)
    ensures
        raw is None ==> r == Ok::<Option<CivilDate>, DecodeError>(None),
        raw matches Some(s) ==> match date_spec(s@) {
            Ok(d) => r == Ok::<Option<CivilDate>, DecodeError>(Some(d)),
            Err(e) => r == Err::<Option<CivilDate>, DecodeError>(e),
        },
{
    match raw {
        None => Ok(None),
        Some(s) => {
            let v = chars_of(s.as_str());
            if v.len() == 0 {
                return Err(DecodeError::InvalidDate);
            }
            let parsed = if is_alphabetic(v[0]) {
                parse_date(s.as_str(), "%B %d, %Y")
            } else {
                parse_date(s.as_str(), "%Y-%m-%d")
            };
            match parsed {
                Ok(t) => Ok(Some(date_from_tuple(t))),
                Err(_) => Err(DecodeError::InvalidDate),
            }
        },
    }
}

/// Decodes a required date field: as `date_optional`, with null an error.
pub fn date(raw: Option<String>) -> (r: Result<CivilDate, DecodeError>)
    ensures
        raw is None ==> r == Err::<CivilDate, DecodeError>(DecodeError::UnexpectedNull),
        raw matches Some(s) ==> r == date_spec(s@),
{
    match date_optional(raw) {
        Ok(Some(d)) => Ok(d),
        Ok(None) => Err(DecodeError::UnexpectedNull),
        Err(e) => Err(e),
    }
}

/// The expiry date that a card's `MM/YY` stands for: the first day of that month.
pub open spec fn card_expiry_spec(s: Seq<char>) -> Result<CivilDate, DecodeError> {
    match date_parsed(s + "/01"@, "%m/%y/%d"@) {
        Some(t) => Ok(CivilDate::from_fields(t)),
        None => Err(DecodeError::InvalidDate),
    }
}

/// Decodes a card expiry written `MM/YY`, as the first day of that month.
pub fn naive_date_from_str(s: &str) -> (r: Result<CivilDate, DecodeError>)
    ensures
        r == card_expiry_spec(s@),
{
    let mut with_day = String::from_str(s);
    with_day.append("/01");
    match parse_date(with_day.as_str(), "%m/%y/%d") {
        Ok(t) => Ok(date_from_tuple(t)),
        Err(_) => Err(DecodeError::InvalidDate),
    }
}

/// The instant that a `YYYY-MM-DD HH:MM:SS` string stands for, with no zero stand-in.
pub open spec fn plain_timestamp_spec(s: Seq<char>) -> Result<CivilInstant, DecodeError> {
    match datetime_parsed(s, timestamp_format()) {
        Some(t) => in_montreal(LocalDateTime::from_fields(t)),
        None => Err(DecodeError::InvalidTimestamp),
    }
}

/// Reads strings as date-times in America/Montreal.
#[derive(Debug, Clone, Copy, PartialEq, Eq, Structural)]
pub struct TimestampVisitor;

impl TimestampVisitor {
    /// What the visitor reads.
    pub fn expecting(&self) -> (r: &'static str)
        ensures
            r@ == "a str or string representing a timestamp in YYYY-mm-dd HH:MM:SS"@,
    {
        "a str or string representing a timestamp in YYYY-mm-dd HH:MM:SS"
    }

    /// Reads `v` as `YYYY-MM-DD HH:MM:SS` in America/Montreal.
    pub fn visit_str(&self, v: &str) -> (r: Result<CivilInstant, DecodeError>)
        ensures
            r == plain_timestamp_spec(v@),
    {
        match parse_datetime(v, "%Y-%m-%d %H:%M:%S") {
            Ok(t) => anchor_in_montreal(LocalDateTime::from_tuple(t)),
            Err(_) => Err(DecodeError::InvalidTimestamp),
        }
    }

    /// Reads `v` as `visit_str` does.
    pub fn visit_string(&self, v: String) -> (r: Result<CivilInstant, DecodeError>)
        ensures
            r == plain_timestamp_spec(v@),
    {
        self.visit_str(v.as_str())
    }
}

/// Decodes a `YYYY-MM-DD HH:MM:SS` field in America/Montreal.
pub fn deserialize_timestamp(s: &str) -> (r: Result<CivilInstant, DecodeError>)
    ensures
        r == plain_timestamp_spec(s@),
{
    TimestampVisitor.visit_str(s)
}

} // verus!
