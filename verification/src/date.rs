use vstd::prelude::*;

verus! {

/// An instant on the store's timeline, in milliseconds since an arbitrary
/// epoch.  The remote store treats timestamps as opaque comparable instants;
/// this model keeps them as plain integers so that conditional predicates
/// over upload times can be stated exactly.
#[derive(Debug, Clone, Copy, PartialEq, Eq, Structural)]
pub struct Date {
    pub millis: u64,
}

impl Date {
    /// Builds a date from milliseconds since the epoch.
    pub fn from_millis(millis: u64) -> (d: Date)
        ensures
            d.millis == millis,
    {
        Date { millis }
    }

    /// Whether this instant lies strictly before `other`.
    pub fn is_before(&self, other: &Date) -> (r: bool)
        ensures
            r == (self.millis < other.millis),
    {
        self.millis < other.millis
    }

    /// Whether this instant lies strictly after `other`.
    pub fn is_after(&self, other: &Date) -> (r: bool)
        ensures
            r == (self.millis > other.millis),
    {
        self.millis > other.millis
    }
}

} // verus!
