//! How turns compare: by the time they started, and by nothing else.

use std::cmp::Ordering;
use vstd::prelude::*;
use crate::conversation::Turn;

verus! {

/// How the starting time of one turn stands to that of another.
pub open spec fn time_order(this: i64, that: i64) -> Ordering {
    if this < that {
        Ordering::Less
    } else if this == that {
        Ordering::Equal
    } else {
        Ordering::Greater
    }
}

impl PartialEq for Turn {
    /// Two turns are equal where they started at the same time, whatever
    /// they say and whoever wrote them.
    fn eq(&self, other: &Turn) -> (r: bool) {
        self.start_time == other.start_time
    }
}

impl vstd::std_specs::cmp::PartialEqSpecImpl for Turn {
    open spec fn obeys_eq_spec() -> bool {
        true
    }

    open spec fn eq_spec(&self, other: &Turn) -> bool {
        self.start_time == other.start_time
    }
}

impl Eq for Turn {

}

impl PartialOrd for Turn {
    /// Turns are ordered by the time they started.
    fn partial_cmp(&self, other: &Turn) -> (r: Option<Ordering>) {
        Some(self.cmp(other))
    }
}

impl vstd::std_specs::cmp::PartialOrdSpecImpl for Turn {
    open spec fn obeys_partial_cmp_spec() -> bool {
        true
    }

    open spec fn partial_cmp_spec(&self, other: &Turn) -> Option<Ordering> {
        Some(time_order(self.start_time, other.start_time))
    }
}

impl Turn {
    /// Compares two turns by the time they started.
    pub fn cmp(&self, other: &Turn) -> (r: Ordering)
        ensures
            r == time_order(self.start_time, other.start_time),
    {
        if self.start_time < other.start_time {
            Ordering::Less
        } else if self.start_time == other.start_time {
            Ordering::Equal
        } else {
            Ordering::Greater
        }
    }
}

} // verus!
