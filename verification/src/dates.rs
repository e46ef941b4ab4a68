//! Points in time and their text form.

use vstd::prelude::*;

verus! {

/// A point in time in UTC: whole seconds since the start of 1970 and the nanoseconds on top of
/// them. Within a leap second the nanoseconds exceed one second.
#[derive(Clone, Copy, Debug, PartialEq, Eq, Structural)]
pub struct Timestamp {
    pub secs: i64,
    pub nanos: u32,
}

/// The first second of the year 262144 BCE, the earliest that a calendar date reaches.
pub const MIN_SECS: i64 = -8334601228800;

/// The last second of the year 262142 CE, the latest that a calendar date reaches.
pub const MAX_SECS: i64 = 8210266876799;

/// The text of the start of 1970, which stands in for every date that cannot be read.
pub const EPOCH_TEXT: &'static str = "1970-01-01T00:00:00.000000Z";

impl Timestamp {
    /// Whether the calendar has such a point in time.
    pub open spec fn valid(self) -> bool {
        &&& MIN_SECS <= self.secs <= MAX_SECS
        &&& self.nanos < 1_000_000_000 || (self.nanos < 2_000_000_000 && self.secs % 60 == 59)
    }

    /// Whether this is a point in time that a clock shows: valid, not before 1970 and outside
    /// of leap seconds.
    pub open spec fn is_reading(self) -> bool {
        &&& self.valid()
        &&& self.secs >= 0
        &&& self.nanos < 1_000_000_000
    }

    /// The order of points in time.
    pub open spec fn before(self, other: Timestamp) -> bool {
        self.secs < other.secs || (self.secs == other.secs && self.nanos < other.nanos)
    }

    /// Whether `self` comes before `other`.
    pub fn is_before(&self, other: &Timestamp) -> (earlier: bool)
        ensures
            earlier == self.before(*other),
    {
        self.secs < other.secs || (self.secs == other.secs && self.nanos < other.nanos)
    }
}

/// A point in time together with an offset from UTC, in seconds, in which it is written down.
#[derive(Clone, Copy, Debug, PartialEq, Eq, Structural)]
pub struct LocalTime {
    pub time: Timestamp,
    pub offset: i32,
}

impl LocalTime {
    /// Whether the calendar has such a point in time, in UTC and in the offset, which is less
    /// than a day.
    pub open spec fn valid(self) -> bool {
        &&& self.time.valid()
        &&& -86400 < self.offset < 86400
        &&& MIN_SECS <= self.time.secs + self.offset <= MAX_SECS
    }
}

/// The RFC 3339 text of a point in time, in the offset from UTC with six fractional digits; a
/// final `Z` stands for no offset.
pub uninterp spec fn rfc3339_micros(secs: i64, nanos: u32, offset: i32) -> Seq<char>;

/// The point in time and the offset that an RFC 3339 text denotes; nothing where the text is not
/// RFC 3339.
pub uninterp spec fn rfc3339_parsed(text: Seq<char>) -> Option<LocalTime>;

/// The text of a point in time in its offset.
pub open spec fn local_text(at: LocalTime) -> Seq<char> {
    rfc3339_micros(at.time.secs, at.time.nanos, at.offset)
}

/// The text of the point in time that an RFC 3339 text denotes, with six fractional digits and
/// in the offset that the text gives; nothing where the text is not RFC 3339.
pub open spec fn rfc3339_reformatted(text: Seq<char>) -> Option<Seq<char>> {
    match rfc3339_parsed(text) {
        Some(at) => Some(local_text(at)),
        None => None,
    }
}

/// Reads the clock with `chrono::Utc::now`. Claimed of every outcome: it is a point in time of
/// the calendar, from 1970 on and outside of leap seconds. Where the machine's clock stands
/// before 1970 or beyond the calendar, the call panics.
#[verifier::external_body]
pub(crate) fn now() -> (time: Timestamp)
    ensures
        time.is_reading(),
{
    let time = chrono::Utc::now();
    Timestamp { secs: time.timestamp(), nanos: time.timestamp_subsec_nanos() }
}

/// The point in time `days` whole days before `time`, where the calendar has it.
pub open spec fn days_before_spec(time: Timestamp, days: i64) -> Option<Timestamp> {
    let secs = time.secs - days * 86400;
    if MIN_SECS <= secs <= MAX_SECS {
        Some(Timestamp { secs: secs as i64, nanos: time.nanos })
    } else {
        None
    }
}

/// Goes back by whole days, where the calendar reaches back that far.
pub fn days_before(time: Timestamp, days: i64) -> (earlier: Option<Timestamp>)
    ensures
        earlier == days_before_spec(time, days),
{
    let secs: i128 = time.secs as i128 - days as i128 * 86400;
    if MIN_SECS as i128 <= secs && secs <= MAX_SECS as i128 {
        Some(Timestamp { secs: secs as i64, nanos: time.nanos })
    } else {
        None
    }
}

/// Writes a point in time with `chrono::DateTime::to_rfc3339_opts`, in its offset, with
/// microseconds and with `Z` for no offset. Claimed: the text depends on the point in time and
/// the offset alone.
#[verifier::external_body]
fn rfc3339_text(at: &LocalTime) -> (text: String)
    requires
        at.valid(),
    ensures
        text@ == rfc3339_micros(at.time.secs, at.time.nanos, at.offset),
{
    let offset = chrono::FixedOffset::east_opt(at.offset).unwrap();
    let time = chrono::DateTime::from_timestamp(at.time.secs, at.time.nanos).unwrap();
    time.with_timezone(&offset).to_rfc3339_opts(chrono::SecondsFormat::Micros, true)
}

/// Reads a date with `chrono::DateTime::parse_from_rfc3339`. Claimed: whether there is a result,
/// and what it is, depends on the text alone, and the calendar has the result in UTC and in its
/// offset.
#[verifier::external_body]
fn parse_rfc3339(text: &str) -> (parsed: Option<LocalTime>)
    ensures
        parsed == rfc3339_parsed(text@),
        parsed matches Some(at) ==> at.valid(),
{
    let at = chrono::DateTime::parse_from_rfc3339(text).ok()?;
    let time = Timestamp { secs: at.timestamp(), nanos: at.timestamp_subsec_nanos() };
    Some(LocalTime { time, offset: at.offset().local_minus_utc() })
}

/// The text of a date that clients sent: reformatted where it is a valid date, else the start
/// of 1970.
pub open spec fn valid_date(reformatted: Option<Seq<char>>) -> Seq<char> {
    match reformatted {
        Some(reformatted) => reformatted,
        None => EPOCH_TEXT@,
    }
}

/// The text of a point in time, in UTC.
pub fn format_date(time: &Timestamp) -> (text: String)
    requires
        time.valid(),
    ensures
        text@ == rfc3339_micros(time.secs, time.nanos, 0),
{
    rfc3339_text(&LocalTime { time: *time, offset: 0 })
}

/// The text of a date that was read, or of the start of 1970 where none could be read.
pub fn date_or_epoch(parsed: Option<LocalTime>) -> (text: String)
    requires
        parsed matches Some(at) ==> at.valid(),
    ensures
        text@ == match parsed {
            Some(at) => local_text(at),
            None => EPOCH_TEXT@,
        },
{
    match parsed {
        Some(at) => rfc3339_text(&at),
        None => EPOCH_TEXT.to_owned(),
    }
}

/// Checks the text of a date and gives it its uniform form; the start of 1970 stands in for a
/// text that is no date.
pub fn validate_and_format_date(text: &str) -> (date: String)
    ensures
        date@ == valid_date(rfc3339_reformatted(text@)),
{
    date_or_epoch(parse_rfc3339(text))
}

} // verus!
