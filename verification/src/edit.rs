//! Values as the user edits them.

use crate::recipe::Span;
use vstd::prelude::*;

verus! {

/// A length of time as the user enters it: hours, minutes and seconds, each
/// in a field of its own.
#[derive(Clone, Copy, Debug, PartialEq, Eq, Structural)]
pub struct EditedTime {
    /// Seconds component of the time.
    pub secs: u8,
    /// Minutes of the time.
    pub minutes: u8,
    /// Hours of the time.
    pub hours: u8,
}

impl Default for EditedTime {
    fn default() -> (time: EditedTime)
        ensures
            time == (EditedTime { secs: 0, minutes: 0, hours: 0 }),
    {
        EditedTime { secs: 0, minutes: 0, hours: 0 }
    }
}

impl EditedTime {
    /// The length of the time in seconds. The fields are taken as they are:
    /// ninety minutes count as an hour and a half.
    pub open spec fn spec_total_secs(&self) -> int {
        self.hours * 3600 + self.minutes * 60 + self.secs
    }

    /// The length of the time in seconds.
    pub fn total_secs(&self) -> (total: u64)
        ensures
            total == self.spec_total_secs(),
    {
        let hours: u64 = self.hours as u64;
        let minutes: u64 = self.minutes as u64;
        let secs: u64 = self.secs as u64;
        hours * 3600 + minutes * 60 + secs
    }

    /// The time as it is stored in a recipe: whole seconds.
    pub fn to_span(&self) -> (span: Span)
        ensures
            span.secs == self.spec_total_secs(),
            span.nanos == 0,
    {
        Span { secs: self.total_secs(), nanos: 0 }
    }
}

} // verus!
