//! Points in time, held as seconds and nanoseconds since the Unix epoch.

use vstd::prelude::*;

verus! {

/// An instant in UTC: whole seconds since 1970-01-01 00:00:00 and the
/// nanoseconds past that second.
#[derive(Clone, Copy, Debug, PartialEq, Eq, Structural)]
pub struct Timestamp {
    pub secs: i64,
    pub nanos: u32,
}

impl Timestamp {
    /// Whether `self` is strictly earlier than `other`: seconds decide, and
    /// nanoseconds break a tie.
    pub open spec fn spec_before(self, other: Timestamp) -> bool {
        self.secs < other.secs || (self.secs == other.secs && self.nanos < other.nanos)
    }

    /// Whether `self` is strictly earlier than `other`.
    #[verifier::when_used_as_spec(spec_before)]
    pub fn before(self, other: Timestamp) -> (earlier: bool)
        ensures
            earlier == self.spec_before(other),
    {
        self.secs < other.secs || (self.secs == other.secs && self.nanos < other.nanos)
    }
}

/// The later of two optional instants, where an unset instant is earlier than
/// every set one.
pub open spec fn later_of(a: Option<Timestamp>, b: Option<Timestamp>) -> Option<Timestamp> {
    match (a, b) {
        (None, _) => b,
        (_, None) => a,
        (Some(x), Some(y)) => if x.spec_before(y) { b } else { a },
    }
}

/// Whether `a` is no later than `b`, an unset instant being the earliest.
pub open spec fn no_later(a: Option<Timestamp>, b: Option<Timestamp>) -> bool {
    match (a, b) {
        (None, _) => true,
        (Some(_), None) => false,
        (Some(x), Some(y)) => !y.spec_before(x),
    }
}

/// The later of two optional instants.
pub fn later(a: Option<Timestamp>, b: Option<Timestamp>) -> (latest: Option<Timestamp>)
    ensures
        latest == later_of(a, b),
        no_later(a, latest),
        no_later(b, latest),
        latest == a || latest == b,
{
    match (a, b) {
        (None, _) => b,
        (_, None) => a,
        (Some(x), Some(y)) => if x.before(y) { b } else { a },
    }
}

/// The date and time of day of an instant as the `chrono` crate writes them
/// in the pattern `%Y-%m-%d %H:%M:%S`, or nothing where `chrono` has no date
/// for the instant.
pub uninterp spec fn utc_text(secs: i64, nanos: u32) -> Option<Seq<char>>;

/// `chrono::DateTime::from_timestamp` followed by `format` with the pattern
/// `%Y-%m-%d %H:%M:%S`: the text of the instant in UTC. The first call gives
/// nothing for an instant out of `chrono`'s range; the pattern is one that
/// `format` accepts. Nothing is proved of the text.
#[verifier::external_body]
pub(crate) fn format_utc(secs: i64, nanos: u32) -> (text: Option<String>)
    ensures
        match text {
            Some(written) => utc_text(secs, nanos) == Some(written@),
            None => utc_text(secs, nanos) is None,
        },
{
    match chrono::DateTime::from_timestamp(secs, nanos) {
        Some(at) => Some(at.format("%Y-%m-%d %H:%M:%S").to_string()),
        None => None,
    }
}

} // verus!
