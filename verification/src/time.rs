//! Instants on the UTC time line, and the two textual forms they are read from.
use vstd::prelude::*;

verus! {

/// The first second that an instant can fall in: midnight of 1 January of
/// the year -262143.
pub const MIN_SECONDS: i64 = -8_334_601_228_800;

/// The last second that an instant can fall in: the end of 31 December of
/// the year 262142.
pub const MAX_SECONDS: i64 = 8_210_266_876_799;

/// The bound of the sub-second part. A reading of a billion or more stands
/// for a leap second.
pub const NANOS_LIMIT: u32 = 2_000_000_000;

/// The nanoseconds in a second.
pub const NANOS_PER_SECOND: u32 = 1_000_000_000;

/// The date-and-time pattern accepted besides RFC 3339.
pub const PLAIN_FORMAT: &'static str = "%Y-%m-%d %H:%M:%S";

/// Whether a second is the last of its minute, the only one that a leap
/// second can follow.
pub open spec fn ends_minute(secs: int) -> bool {
    secs % 60 == 59
}

/// Whether a pair of whole seconds since the epoch and nanoseconds within the
/// second denotes an instant. The nanoseconds stay below a billion, except
/// in the last second of a minute, where up to a billion more stand for a
/// leap second.
pub open spec fn in_range(secs: int, nanos: int) -> bool {
    &&& MIN_SECONDS <= secs <= MAX_SECONDS
    &&& 0 <= nanos < NANOS_LIMIT
    &&& nanos < NANOS_PER_SECOND || ends_minute(secs)
}

/// An instant: whole seconds since 1970-01-01T00:00:00Z and nanoseconds
/// within the second.
#[derive(Clone, Copy, Debug, PartialEq, Eq, Structural)]
pub struct Timestamp {
    secs: i64,
    nanos: u32,
}

/// What chrono's relaxed RFC 3339 parser reads from a text, as seconds since
/// the epoch and nanoseconds within the second; `None` where it rejects the
/// text.
pub uninterp spec fn rfc3339_reading(text: Seq<char>) -> Option<(i64, u32)>;

/// What chrono reads from a text under a strftime pattern, taken as UTC;
/// `None` where the text does not match the pattern.
pub uninterp spec fn pattern_reading(text: Seq<char>, pattern: Seq<char>) -> Option<(i64, u32)>;

/// `str::parse::<chrono::DateTime<chrono::Utc>>`, the result taken apart with
/// `timestamp` and `timestamp_subsec_nanos`. The contract only names the
/// reading.
#[verifier::external_body]
fn read_rfc3339(text: &str) -> (r: Option<(i64, u32)>)
    ensures
        r == rfc3339_reading(text@),
{
    match text.parse::<chrono::DateTime<chrono::Utc>>() {
        Ok(t) => Some((t.timestamp(), t.timestamp_subsec_nanos())),
        Err(_) => None,
    }
}

/// `chrono::NaiveDateTime::parse_from_str`, the result placed in UTC and taken
/// apart with `timestamp` and `timestamp_subsec_nanos`. The contract only
/// names the reading.
#[verifier::external_body]
fn read_pattern(text: &str, pattern: &str) -> (r: Option<(i64, u32)>)
    ensures
        r == pattern_reading(text@, pattern@),
{
    match chrono::NaiveDateTime::parse_from_str(text, pattern) {
        Ok(t) => Some((t.and_utc().timestamp(), t.and_utc().timestamp_subsec_nanos())),
        Err(_) => None,
    }
}

impl Timestamp {
    #[verifier::type_invariant]
    pub closed spec fn inv(self) -> bool {
        in_range(self.secs as int, self.nanos as int)
    }

    /// Whole seconds since the epoch.
    pub closed spec fn seconds(self) -> int {
        self.secs as int
    }

    /// Nanoseconds within the second.
    pub closed spec fn subsec_nanos(self) -> int {
        self.nanos as int
    }

    /// The instant of a pair in range.
    pub closed spec fn of(secs: int, nanos: int) -> Timestamp
        recommends
            in_range(secs, nanos),
    {
        Timestamp { secs: secs as i64, nanos: nanos as u32 }
    }

    /// The instant of a reading, where the reading denotes one.
    pub open spec fn of_reading(reading: Option<(i64, u32)>) -> Option<Timestamp> {
        match reading {
            Some((secs, nanos)) => if in_range(secs as int, nanos as int) {
                Some(Timestamp::of(secs as int, nanos as int))
            } else {
                None
            },
            None => None,
        }
    }

    /// The instant that a text denotes: its RFC 3339 reading, else its reading
    /// under `PLAIN_FORMAT`.
    pub open spec fn of_text(text: Seq<char>) -> Option<Timestamp> {
        match Timestamp::of_reading(rfc3339_reading(text)) {
            Some(t) => Some(t),
            None => Timestamp::of_reading(pattern_reading(text, PLAIN_FORMAT@)),
        }
    }

    /// Nanoseconds since the epoch.
    pub open spec fn total_nanos(self) -> int {
        self.seconds() * 1_000_000_000 + self.subsec_nanos()
    }

    /// Chronological order: by seconds, then by nanoseconds.
    pub open spec fn le_spec(self, other: Timestamp) -> bool {
        self.seconds() < other.seconds() || (self.seconds() == other.seconds()
            && self.subsec_nanos() <= other.subsec_nanos())
    }

    /// Whole milliseconds from `self` to `later`, rounded toward zero;
    /// negative where `later` is the earlier one.
    pub open spec fn millis_until_spec(self, later: Timestamp) -> int {
        let d = later.total_nanos() - self.total_nanos();
        if d >= 0 {
            d / 1_000_000
        } else {
            -((-d) / 1_000_000)
        }
    }

    /// The seconds and nanoseconds of `of` are the ones given.
    pub proof fn lemma_of(secs: int, nanos: int)
        requires
            in_range(secs, nanos),
        ensures
            Timestamp::of(secs, nanos).seconds() == secs,
            Timestamp::of(secs, nanos).subsec_nanos() == nanos,
    {
    }

    /// The instant `secs` seconds and `nanos` nanoseconds after the epoch,
    /// where the pair is in range.
    pub fn new(secs: i64, nanos: u32) -> (r: Option<Timestamp>)
        ensures
            r == Timestamp::of_reading(Some((secs, nanos))),
            r is Some <==> in_range(secs as int, nanos as int),
            r matches Some(t) ==> t.seconds() == secs && t.subsec_nanos() == nanos,
    {
        if !(MIN_SECONDS <= secs && secs <= MAX_SECONDS && nanos < NANOS_LIMIT) {
            return None;
        }
        let last_of_minute = (secs - MIN_SECONDS) % 60 == 59;
        assert(last_of_minute == ends_minute(secs as int)) by {
            assert(MIN_SECONDS == -138_910_020_480 * 60);
            assert((secs - MIN_SECONDS) % 60 == (secs as int) % 60) by (nonlinear_arith)
                requires
                    MIN_SECONDS == -138_910_020_480 * 60,
            ;
        }
        if nanos < NANOS_PER_SECOND || last_of_minute {
            proof {
                Timestamp::lemma_of(secs as int, nanos as int);
            }
            Some(Timestamp { secs, nanos })
        } else {
            None
        }
    }

    /// The instant a whole number of seconds after the epoch.
    pub fn from_epoch_seconds(secs: i64) -> (r: Option<Timestamp>)
        ensures
            r == Timestamp::of_reading(Some((secs, 0u32))),
    {
        Timestamp::new(secs, 0)
    }

    /// The instant of a reading, where the reading denotes one.
    pub fn from_reading(reading: Option<(i64, u32)>) -> (r: Option<Timestamp>)
        ensures
            r == Timestamp::of_reading(reading),
    {
        match reading {
            Some((secs, nanos)) => Timestamp::new(secs, nanos),
            None => None,
        }
    }

    /// Reads an instant from a text: as RFC 3339 (a space may stand for the
    /// `T`), else as `YYYY-MM-DD HH:MM:SS` taken as UTC.
    pub fn parse(text: &str) -> (r: Option<Timestamp>)
        ensures
            r == Timestamp::of_text(text@),
    {
        match Timestamp::from_reading(read_rfc3339(text)) {
            Some(t) => Some(t),
            None => Timestamp::from_reading(read_pattern(text, PLAIN_FORMAT)),
        }
    }

    pub fn secs(&self) -> (r: i64)
        ensures
            r == self.seconds(),
            MIN_SECONDS <= r <= MAX_SECONDS,
    {
        proof {
            use_type_invariant(self);
        }
        self.secs
    }

    pub fn nanos(&self) -> (r: u32)
        ensures
            r == self.subsec_nanos(),
            r < NANOS_LIMIT,
    {
        proof {
            use_type_invariant(self);
        }
        self.nanos
    }

    /// Whether `self` is not after `other`.
    pub fn le(&self, other: &Timestamp) -> (r: bool)
        ensures
            r == self.le_spec(*other),
    {
        self.secs < other.secs || (self.secs == other.secs && self.nanos <= other.nanos)
    }

    /// Whole milliseconds from `self` to `later`, rounded toward zero.
    pub fn millis_until(&self, later: &Timestamp) -> (r: i64)
        ensures
            r == self.millis_until_spec(*later),
    {
        proof {
            use_type_invariant(self);
            use_type_invariant(later);
        }
        let d: i128 = (later.secs as i128 - self.secs as i128) * 1_000_000_000 + (later.nanos as i128
            - self.nanos as i128);
        if d >= 0 {
            (d / 1_000_000) as i64
        } else {
            -(((-d) / 1_000_000) as i64)
        }
    }
}

} // verus!
