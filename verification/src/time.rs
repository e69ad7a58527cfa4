//! Instants and the spans between them.

use vstd::prelude::*;

verus! {

/// Nanoseconds in one second.
pub const NANOS_PER_SECOND: i64 = 1_000_000_000;

/// An instant in UTC: whole seconds since the Unix epoch and the nanoseconds
/// past that second, the two numbers by which `chrono` identifies a
/// `DateTime<Utc>`.
#[derive(Clone, Copy, Debug, PartialEq, Eq, Structural)]
pub struct Timestamp {
    pub secs: i64,
    pub nanos: u32,
}

/// A signed span of time: whole seconds and further nanoseconds.
#[derive(Clone, Copy, Debug, PartialEq, Eq, Structural)]
pub struct Span {
    pub secs: i64,
    pub nanos: i32,
}

impl Span {
    /// The span in nanoseconds.
    pub open spec fn total_nanos(self) -> int {
        self.secs * NANOS_PER_SECOND + self.nanos
    }

    /// Whether the span is strictly longer than `seconds` whole seconds.
    pub open spec fn is_longer_than(self, seconds: i64) -> bool {
        self.total_nanos() > seconds * NANOS_PER_SECOND
    }

    /// Decides `is_longer_than`.
    pub fn exceeds(&self, seconds: i64) -> (r: bool)
        ensures
            r == self.is_longer_than(seconds),
    {
        let unit: i128 = 1_000_000_000;
        let span: i128 = (self.secs as i128) * unit + (self.nanos as i128);
        let limit: i128 = (seconds as i128) * unit;
        span > limit
    }
}

/// Seconds to either side of the Unix epoch within which every instant is
/// one that `chrono` represents: some 253 000 years, where `chrono` reaches
/// from the year 262144 BCE to the year 262142 CE.
pub const PLAIN_SECONDS: i64 = 8_000_000_000_000;

impl Timestamp {
    /// Whether the instant lies within `PLAIN_SECONDS` of the epoch and
    /// counts no leap second: its nanoseconds stay under one second.
    pub open spec fn is_plain(self) -> bool {
        -PLAIN_SECONDS <= self.secs <= PLAIN_SECONDS && self.nanos < NANOS_PER_SECOND
    }

    /// Nanoseconds from the epoch to the instant.
    pub open spec fn nanos_since_epoch(self) -> int {
        self.secs * NANOS_PER_SECOND + self.nanos
    }
}

/// What `chrono` computes as `later - earlier`, or `None` where it cannot
/// represent one of the two instants.
pub uninterp spec fn span_between(later: Timestamp, earlier: Timestamp) -> Option<Span>;

/// Nanoseconds from `earlier` to `later`. Between plain instants they are
/// the difference of the two counts; otherwise they are what `chrono`
/// makes of the two instants, if anything.
pub open spec fn nanos_between(later: Timestamp, earlier: Timestamp) -> Option<int> {
    if later.is_plain() && earlier.is_plain() {
        Some(later.nanos_since_epoch() - earlier.nanos_since_epoch())
    } else {
        match span_between(later, earlier) {
            Some(span) => Some(span.total_nanos()),
            None => None,
        }
    }
}

/// Whether `later` is more than `seconds` whole seconds after `earlier`.
pub open spec fn is_more_than(later: Timestamp, earlier: Timestamp, seconds: i64) -> bool {
    nanos_between(later, earlier) matches Some(nanos) && nanos > seconds * NANOS_PER_SECOND
}

/// Whether there is a span, as long as the difference of the two instants'
/// counts from the epoch.
pub open spec fn measures(span: Option<Span>, later: Timestamp, earlier: Timestamp) -> bool {
    span matches Some(s) && s.total_nanos() == later.nanos_since_epoch()
        - earlier.nanos_since_epoch()
}

/// `DateTime::signed_duration_since` on the two instants, after each has been
/// rebuilt by `DateTime::from_timestamp`; the result is read off with
/// `TimeDelta::num_seconds` and `TimeDelta::subsec_nanos`.
///
/// Trusted: the result is the named function of the two arguments. Between
/// plain instants there is a span, and it is as long as the difference of
/// their counts from the epoch: `from_timestamp` takes both, and the
/// subtraction adjusts nothing where no leap second is counted.
#[verifier::external_body]
pub(crate) fn elapsed(later: Timestamp, earlier: Timestamp) -> (span: Option<Span>)
    ensures
        span == span_between(later, earlier),
        later.is_plain() && earlier.is_plain() ==> measures(span, later, earlier),
{
    let a = chrono::DateTime::from_timestamp(later.secs, later.nanos)?;
    let b = chrono::DateTime::from_timestamp(earlier.secs, earlier.nanos)?;
    let delta = a.signed_duration_since(b);
    Some(Span { secs: delta.num_seconds(), nanos: delta.subsec_nanos() })
}

/// Whether `later` is more than `seconds` whole seconds after `earlier`.
/// It is not where `chrono` cannot represent one of the two.
pub fn more_than(later: Timestamp, earlier: Timestamp, seconds: i64) -> (r: bool)
    ensures
        r == is_more_than(later, earlier, seconds),
{
    match elapsed(later, earlier) {
        Some(span) => span.exceeds(seconds),
        None => false,
    }
}

/// `Utc::now`, read off with `DateTime::timestamp` and
/// `DateTime::timestamp_subsec_nanos`.
///
/// Trusted, and nothing is claimed of the instant: it is whatever the clock
/// says. `chrono` stops the program if the clock stands before 1970.
#[verifier::external_body]
pub(crate) fn current_time() -> (now: Timestamp) {
    let now = chrono::Utc::now();
    Timestamp { secs: now.timestamp(), nanos: now.timestamp_subsec_nanos() }
}

} // verus!
