use vstd::prelude::*;

verus! {

/// A hybrid logical clock value: a physical-time component combined with a
/// logical counter. Compared lexicographically, such values give every
/// operation in the system a total order that approximates wall-clock order.
/// The clock that produces them is an external collaborator, injected by the
/// caller; this core only fixes how its values compare.
#[derive(Clone, Copy, Debug, PartialEq, Eq, Structural)]
pub struct Timestamp {
    /// The physical-time component.
    pub physical: u64,
    /// The logical counter, breaking ties within one physical tick.
    pub counter: u64,
}

/// Strict lexicographic order on (physical, counter).
pub open spec fn ts_lt(a: Timestamp, b: Timestamp) -> bool {
    a.physical < b.physical || (a.physical == b.physical && a.counter < b.counter)
}

impl Timestamp {
    /// True when `self` strictly precedes `other` in clock order.
    pub fn lt(&self, other: &Timestamp) -> (r: bool)
        ensures
            r == ts_lt(*self, *other),
    {
        self.physical < other.physical
            || (self.physical == other.physical && self.counter < other.counter)
    }
}

} // verus!
