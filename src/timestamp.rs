//! Instants in time, held as whole seconds and a signed sub-second
//! nanosecond count since the Unix epoch.
use vstd::prelude::*;

verus! {

/// The earliest second that an instant may hold.
pub const MIN_SECOND: i64 = -377705023201;

/// The latest second that an instant may hold.
pub const MAX_SECOND: i64 = 253402207200;

/// An instant, as seconds since the Unix epoch and a signed nanosecond part
/// that carries the same sign as the seconds.
#[derive(Clone, Copy, Debug, PartialEq, Eq, Structural)]
pub struct Timestamp {
    pub second: i64,
    pub nanosecond: i32,
}

/// What the text of an RFC 3339 instant (with its offset) denotes, as seconds
/// and nanoseconds; `None` where the text is no such instant.
pub uninterp spec fn instant_of_text(s: Seq<char>) -> Option<(i64, i32)>;

/// The civil date and time (year, month, day, hour, minute, second,
/// nanosecond) that a text names, without an offset.
pub uninterp spec fn civil_datetime_of_text(s: Seq<char>) -> Option<(i16, i8, i8, i8, i8, i8, i32)>;

/// The civil date (year, month, day) that a text names.
pub uninterp spec fn civil_date_of_text(s: Seq<char>) -> Option<(i16, i8, i8)>;

/// The instant at which UTC clocks show the civil date and time with these
/// parts, if they name one.
pub uninterp spec fn utc_instant_of_civil(
    year: i16,
    month: i8,
    day: i8,
    hour: i8,
    minute: i8,
    second: i8,
    nanosecond: i32,
) -> Option<(i64, i32)>;

/// The RFC 3339 rendering (in UTC) of the instant with these parts.
pub uninterp spec fn instant_text(second: i64, nanosecond: i32) -> Seq<char>;

impl Timestamp {
    /// The instant lies in the supported range and its parts agree in sign.
    pub open spec fn wf(self) -> bool {
        &&& MIN_SECOND <= self.second <= MAX_SECOND
        &&& -999_999_999 <= self.nanosecond <= 999_999_999
        &&& (self.second == MIN_SECOND ==> self.nanosecond >= 0)
        &&& (self.nanosecond == 0 || self.second == 0 || (self.second > 0) == (self.nanosecond > 0))
    }

    /// Nanoseconds since the Unix epoch.
    pub open spec fn total(self) -> int {
        self.second * 1_000_000_000 + self.nanosecond
    }

    /// The instant from a pair of seconds and nanoseconds.
    pub open spec fn from_parts(p: (i64, i32)) -> Timestamp {
        Timestamp { second: p.0, nanosecond: p.1 }
    }

    /// The instant, if any, from an optional pair of parts.
    pub open spec fn lift(p: Option<(i64, i32)>) -> Option<Timestamp> {
        match p {
            Some(q) => Some(Timestamp::from_parts(q)),
            None => None,
        }
    }

    /// Whether the instant is well formed.
    pub fn in_range(&self) -> (r: bool)
        ensures
            r == self.wf(),
    {
        MIN_SECOND <= self.second && self.second <= MAX_SECOND && -999_999_999 <= self.nanosecond
            && self.nanosecond <= 999_999_999 && (self.second != MIN_SECOND || self.nanosecond >= 0)
            && (self.nanosecond == 0 || self.second == 0 || (self.second > 0) == (self.nanosecond > 0))
    }

    /// Nanoseconds since the Unix epoch.
    pub fn as_nanosecond(&self) -> (r: i128)
        ensures
            r == self.total(),
    {
        (self.second as i128) * 1_000_000_000 + (self.nanosecond as i128)
    }

    /// Whether this instant comes strictly after `other`.
    pub fn is_after(&self, other: &Timestamp) -> (r: bool)
        ensures
            r == (self.total() > other.total()),
    {
        self.as_nanosecond() > other.as_nanosecond()
    }

    /// The instant rendered as RFC 3339 text in UTC.
    pub fn to_text(&self) -> (r: String)
        requires
            self.wf(),
        ensures
            r@ == instant_text(self.second, self.nanosecond),
    {
        render_instant(self.second, self.nanosecond)
    }
}

/// Relies on `jiff::fmt::temporal::DateTimeParser::parse_timestamp`: reads an
/// RFC 3339 instant with its offset; a jiff timestamp always lies in range.
#[verifier::external_body]
fn read_instant(s: &str) -> (r: Option<Timestamp>)
    ensures
        r == Timestamp::lift(instant_of_text(s@)),
        r matches Some(t) ==> t.wf(),
{
    let parser = jiff::fmt::temporal::DateTimeParser::new();
    let t = parser.parse_timestamp(s).ok()?;
    Some(Timestamp { second: t.as_second(), nanosecond: t.subsec_nanosecond() })
}

/// A civil date and time, without an offset.
#[derive(Clone, Copy, Debug, PartialEq, Eq, Structural)]
pub struct CivilDateTime {
    pub year: i16,
    pub month: i8,
    pub day: i8,
    pub hour: i8,
    pub minute: i8,
    pub second: i8,
    pub nanosecond: i32,
}

impl CivilDateTime {
    /// The parts of this date and time.
    pub open spec fn parts(self) -> (i16, i8, i8, i8, i8, i8, i32) {
        (self.year, self.month, self.day, self.hour, self.minute, self.second, self.nanosecond)
    }
}

/// Relies on `jiff::fmt::temporal::DateTimeParser::parse_datetime`: reads a
/// civil date and time.
#[verifier::external_body]
fn read_civil_datetime(s: &str) -> (r: Option<CivilDateTime>)
    ensures
        match civil_datetime_of_text(s@) {
            Some(p) => r matches Some(c) && c.parts() == p,
            None => r is None,
        },
{
    let dt = jiff::fmt::temporal::DateTimeParser::new().parse_datetime(s).ok()?;
    Some(CivilDateTime {
        year: dt.year(),
        month: dt.month(),
        day: dt.day(),
        hour: dt.hour(),
        minute: dt.minute(),
        second: dt.second(),
        nanosecond: dt.subsec_nanosecond(),
    })
}

/// Relies on `jiff::fmt::temporal::DateTimeParser::parse_date`: reads a civil
/// date.
#[verifier::external_body]
fn read_civil_date(s: &str) -> (r: Option<(i16, i8, i8)>)
    ensures
        r == civil_date_of_text(s@),
{
    let d = jiff::fmt::temporal::DateTimeParser::new().parse_date(s).ok()?;
    Some((d.year(), d.month(), d.day()))
}

/// Relies on `jiff::tz::TimeZone::to_timestamp` with the fixed UTC zone: the
/// instant of a civil date and time at UTC; `None` where the parts name no
/// date and time, or one out of range. A jiff timestamp always lies in range.
#[verifier::external_body]
fn utc_instant(c: &CivilDateTime) -> (r: Option<Timestamp>)
    ensures
        r == Timestamp::lift(
            utc_instant_of_civil(c.year, c.month, c.day, c.hour, c.minute, c.second, c.nanosecond),
        ),
        r matches Some(t) ==> t.wf(),
{
    let dt = jiff::civil::DateTime::new(c.year, c.month, c.day, c.hour, c.minute, c.second, c.nanosecond).ok()?;
    let t = jiff::tz::TimeZone::UTC.to_timestamp(dt).ok()?;
    Some(Timestamp { second: t.as_second(), nanosecond: t.subsec_nanosecond() })
}

/// Relies on `jiff::Timestamp::new`, which accepts every well-formed pair, and
/// on jiff's `Display` of a timestamp (RFC 3339 in UTC).
#[verifier::external_body]
fn render_instant(second: i64, nanosecond: i32) -> (r: String)
    requires
        Timestamp::from_parts((second, nanosecond)).wf(),
    ensures
        r@ == instant_text(second, nanosecond),
{
    jiff::Timestamp::new(second, nanosecond).unwrap().to_string()
}

/// The instant of a civil date and time read at UTC, if any.
pub open spec fn utc_of(p: (i16, i8, i8, i8, i8, i8, i32)) -> Option<Timestamp> {
    Timestamp::lift(utc_instant_of_civil(p.0, p.1, p.2, p.3, p.4, p.5, p.6))
}

/// The instant that timestamp text denotes: the first of an RFC 3339 instant,
/// a civil date and time at UTC, and a civil date at UTC midnight that reads.
pub open spec fn timestamp_of_text(s: Seq<char>) -> Option<Timestamp> {
    let at_utc = match civil_datetime_of_text(s) {
        Some(p) => utc_of(p),
        None => None,
    };
    let midnight = match civil_date_of_text(s) {
        Some(d) => utc_of((d.0, d.1, d.2, 0, 0, 0, 0)),
        None => None,
    };
    match instant_of_text(s) {
        Some(p) => Some(Timestamp::from_parts(p)),
        None => if at_utc is Some {
            at_utc
        } else {
            midnight
        },
    }
}

/// Reads a timestamp, trying the three accepted forms in order.
pub fn parse_timestamp(s: &str) -> (r: Option<Timestamp>)
    ensures
        r == timestamp_of_text(s@),
        r matches Some(t) ==> t.wf(),
{
    if let Some(t) = read_instant(s) {
        return Some(t);
    }
    if let Some(c) = read_civil_datetime(s) {
        if let Some(t) = utc_instant(&c) {
            return Some(t);
        }
    }
    match read_civil_date(s) {
        Some((year, month, day)) => {
            let c = CivilDateTime { year, month, day, hour: 0, minute: 0, second: 0, nanosecond: 0 };
            utc_instant(&c)
        },
        None => None,
    }
}

} // verus!
