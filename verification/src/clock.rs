//! Instants on the UTC time line, and the clock that yields them.

use vstd::prelude::*;

verus! {

/// An instant: whole seconds since 1970-01-01T00:00:00Z, and the nanoseconds
/// that have passed since that second began.
///
/// The nanosecond part is not bounded by a second: a value of a thousand
/// million or more stands for a leap second, so two instants are ordered by
/// their seconds first and by their nanoseconds only within one second.
#[derive(Clone, Copy, Debug, PartialEq, Eq, Structural)]
pub struct Timestamp {
    pub secs: i64,
    pub nanos: u32,
}

impl Timestamp {
    /// `self` is no later than `other`.
    pub open spec fn not_after(self, other: Timestamp) -> bool {
        self.secs < other.secs || (self.secs == other.secs && self.nanos <= other.nanos)
    }

    /// `self` is earlier than `other`.
    pub open spec fn before(self, other: Timestamp) -> bool {
        self.secs < other.secs || (self.secs == other.secs && self.nanos < other.nanos)
    }

    /// Whether `self` is no later than `other`.
    pub fn is_not_after(&self, other: &Timestamp) -> (b: bool)
        ensures
            b == self.not_after(*other),
    {
        self.secs < other.secs || (self.secs == other.secs && self.nanos <= other.nanos)
    }

    /// Whether `self` is earlier than `other`.
    pub fn is_before(&self, other: &Timestamp) -> (b: bool)
        ensures
            b == self.before(*other),
    {
        self.secs < other.secs || (self.secs == other.secs && self.nanos < other.nanos)
    }
}

/// The order of instants is total: of two instants one is no later than the
/// other, both ways only when they are the same instant, and the order carries
/// over a middle instant.
pub proof fn lemma_instants_are_totally_ordered(a: Timestamp, b: Timestamp, c: Timestamp)
    ensures
        a.not_after(a),
        a.not_after(b) || b.not_after(a),
        a.not_after(b) && b.not_after(a) ==> a == b,
        a.not_after(b) && b.not_after(c) ==> a.not_after(c),
        a.before(b) <==> a.not_after(b) && a != b,
{
}

/// The present instant, read from `chrono::Local::now` and taken apart with
/// `DateTime::timestamp` and `DateTime::timestamp_subsec_nanos`.
///
/// Nothing is claimed of the value: the system clock may be set to any time
/// and may step backwards between two calls. `chrono` panics when the clock
/// reads a time before 1970, and when the offset of the local time zone
/// cannot be told for the instant.
#[verifier::external_body]
pub(crate) fn now() -> Timestamp {
    let moment = chrono::Local::now();
    Timestamp { secs: moment.timestamp(), nanos: moment.timestamp_subsec_nanos() }
}

} // verus!
