//! Build times: instants read from RFC 3339 text.
use vstd::prelude::*;

verus! {

/// An instant in UTC: seconds since the Unix epoch and the nanoseconds past that second.
#[derive(Debug, Clone, Copy)]
pub struct BuildTime {
    pub seconds: i64,
    pub nanos: u32,
}

/// The instant that chrono reads from RFC 3339 text, or `None` where it refuses the text.
pub uninterp spec fn rfc3339_instant(text: Seq<char>) -> Option<BuildTime>;

/// Calls `chrono::DateTime::parse_from_rfc3339`, then `to_utc`, `timestamp` and
/// `timestamp_subsec_nanos`. The contract claims only that the result depends on the text alone
/// (named `rfc3339_instant`); which texts chrono accepts, and which instant it reads, is left unsaid.
#[verifier::external_body]
pub(crate) fn parse_rfc3339(text: &str) -> (r: Option<BuildTime>)
    ensures
        r == rfc3339_instant(text@),
{
    match chrono::DateTime::parse_from_rfc3339(text) {
        Ok(t) => Some(BuildTime { seconds: t.to_utc().timestamp(), nanos: t.to_utc().timestamp_subsec_nanos() }),
        Err(_) => None,
    }
}

/// `a` is not later than `b`: the order of `chrono::DateTime<Utc>`.
pub open spec fn not_later(a: BuildTime, b: BuildTime) -> bool {
    a.seconds < b.seconds || (a.seconds == b.seconds && a.nanos <= b.nanos)
}

/// The order is that of instants in time: an instant whose second comes first is earlier, and is not
/// later than one whose second comes after; within one second the nanoseconds decide.
pub proof fn lemma_not_later_is_chronological(a: BuildTime, b: BuildTime)
    ensures
        a.seconds < b.seconds ==> not_later(a, b) && !not_later(b, a),
        a.seconds == b.seconds ==> (not_later(a, b) <==> a.nanos <= b.nanos),
        not_later(a, b) ==> a.seconds <= b.seconds,
{
}

impl BuildTime {
    /// Whether `self` is not later than `other`.
    pub fn is_not_later_than(&self, other: &BuildTime) -> (r: bool)
        ensures
            r == not_later(*self, *other),
    {
        self.seconds < other.seconds || (self.seconds == other.seconds && self.nanos <= other.nanos)
    }
}

} // verus!
