//! The order of 256-bit words: by the higher limb, then by the lower one.

use core::cmp::Ordering;
use vstd::prelude::*;
use vstd::std_specs::cmp::PartialOrdSpec;
use crate::word::U256;

verus! {

impl vstd::std_specs::cmp::PartialOrdSpecImpl for U256 {
    open spec fn obeys_partial_cmp_spec() -> bool {
        true
    }

    open spec fn partial_cmp_spec(&self, other: &U256) -> Option<Ordering> {
        if self.higher < other.higher {
            Some(Ordering::Less)
        } else if self.higher > other.higher {
            Some(Ordering::Greater)
        } else if self.lower < other.lower {
            Some(Ordering::Less)
        } else if self.lower > other.lower {
            Some(Ordering::Greater)
        } else {
            Some(Ordering::Equal)
        }
    }
}

impl PartialOrd for U256 {
    /// Compares the higher limbs, and the lower limbs where those are equal.
    fn partial_cmp(&self, other: &U256) -> (r: Option<Ordering>) {
        if self.higher < other.higher {
            Some(Ordering::Less)
        } else if self.higher > other.higher {
            Some(Ordering::Greater)
        } else if self.lower < other.lower {
            Some(Ordering::Less)
        } else if self.lower > other.lower {
            Some(Ordering::Greater)
        } else {
            Some(Ordering::Equal)
        }
    }
}

/// The order of the words is the order of their values, and it is total.
pub proof fn lemma_order_is_numeric(a: U256, b: U256)
    ensures
        a.partial_cmp_spec(&b) == Some(Ordering::Less) <==> a@ < b@,
        a.partial_cmp_spec(&b) == Some(Ordering::Equal) <==> a@ == b@,
        a.partial_cmp_spec(&b) == Some(Ordering::Greater) <==> a@ > b@,
{
}

} // verus!
