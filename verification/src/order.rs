//! The order of fixed-point numbers.

use crate::fixed::Fixed;
use core::cmp::Ordering;
use vstd::prelude::*;

verus! {

impl PartialOrd for Fixed {
    /// Numbers are ordered as their counts of hundred-thousandths are.
    fn partial_cmp(&self, other: &Fixed) -> (res: Option<Ordering>) {
        if self.raw < other.raw {
            Some(Ordering::Less)
        } else if self.raw > other.raw {
            Some(Ordering::Greater)
        } else {
            Some(Ordering::Equal)
        }
    }
}

impl vstd::std_specs::cmp::PartialOrdSpecImpl for Fixed {
    open spec fn obeys_partial_cmp_spec() -> bool {
        true
    }

    open spec fn partial_cmp_spec(&self, other: &Fixed) -> Option<Ordering> {
        if self@ < other@ {
            Some(Ordering::Less)
        } else if self@ > other@ {
            Some(Ordering::Greater)
        } else {
            Some(Ordering::Equal)
        }
    }
}

} // verus!
