//! The order of waiting units: by the steps they have taken, and by
//! nothing else.

use std::cmp::Ordering;
use vstd::prelude::*;
use vstd::std_specs::cmp::{PartialEqSpecImpl, PartialOrdSpecImpl};
use super::unit::MovingWrapper;

verus! {

impl PartialEq for MovingWrapper {
    /// Two waiting units are equal when they have taken equally many
    /// steps.
    fn eq(&self, other: &MovingWrapper) -> (r: bool) {
        self.moves_made == other.moves_made
    }
}

impl PartialEqSpecImpl for MovingWrapper {
    open spec fn obeys_eq_spec() -> bool {
        true
    }

    open spec fn eq_spec(&self, other: &MovingWrapper) -> bool {
        self.moves_made == other.moves_made
    }
}

impl PartialOrd for MovingWrapper {
    /// A waiting unit is less than another when it has taken fewer steps.
    fn partial_cmp(&self, other: &MovingWrapper) -> (r: Option<Ordering>) {
        if self.moves_made < other.moves_made {
            Some(Ordering::Less)
        } else if self.moves_made == other.moves_made {
            Some(Ordering::Equal)
        } else {
            Some(Ordering::Greater)
        }
    }
}

impl PartialOrdSpecImpl for MovingWrapper {
    open spec fn obeys_partial_cmp_spec() -> bool {
        true
    }

    open spec fn partial_cmp_spec(&self, other: &MovingWrapper) -> Option<Ordering> {
        if self.moves_made < other.moves_made {
            Some(Ordering::Less)
        } else if self.moves_made == other.moves_made {
            Some(Ordering::Equal)
        } else {
            Some(Ordering::Greater)
        }
    }
}

} // verus!
