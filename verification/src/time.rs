//! Points in time, and their text in the form of RFC 3339.
use crate::step::text_view;
use vstd::prelude::*;

verus! {

/// A point in time: the seconds since the start of 1970 in universal time,
/// and the nanoseconds into that second.
#[derive(Debug, Clone, Copy, PartialEq, Eq, Structural)]
pub struct Timestamp {
    pub secs: i64,
    pub nanos: u32,
}

/// The text of a point in time in the form of RFC 3339, in universal time;
/// nothing for a point in time outside the range of dates. It stands for
/// what `chrono::DateTime::to_rfc3339` returns for the date and time that
/// `chrono::DateTime::from_timestamp` makes of the seconds and nanoseconds.
pub uninterp spec fn rfc3339(secs: i64, nanos: u32) -> Option<Seq<char>>;

/// Writes a point in time with `chrono`: the date and time that
/// `DateTime::from_timestamp` makes of the seconds and nanoseconds, in the
/// text that `DateTime::to_rfc3339` gives it; `None` where
/// `from_timestamp` makes none.
#[verifier::external_body]
fn rfc3339_text(secs: i64, nanos: u32) -> (text: Option<String>)
    ensures
        text_view(text) == rfc3339(secs, nanos),
{
    match chrono::DateTime::from_timestamp(secs, nanos) {
        Some(moment) => Some(moment.to_rfc3339()),
        None => None,
    }
}

impl Timestamp {
    /// The text of the point in time in the form of RFC 3339.
    pub fn to_rfc3339(&self) -> (text: Option<String>)
        ensures
            text_view(text) == rfc3339(self.secs, self.nanos),
    {
        rfc3339_text(self.secs, self.nanos)
    }

    /// Whether the point in time comes before `other`.
    pub fn is_before(&self, other: &Timestamp) -> (before: bool)
        ensures
            before == (self.secs < other.secs || (self.secs == other.secs && self.nanos
                < other.nanos)),
    {
        self.secs < other.secs || (self.secs == other.secs && self.nanos < other.nanos)
    }
}

} // verus!
