//! Equality and order of versions for the operators `==`, `<`, `<=`, `>`, `>=`.
use crate::version::{version_order, Version};
use core::cmp::Ordering;
use vstd::prelude::*;

verus! {

impl PartialEq for Version {
    fn eq(&self, other: &Self) -> (r: bool) {
        self.same_as(other)
    }
}

impl vstd::std_specs::cmp::PartialEqSpecImpl for Version {
    open spec fn obeys_eq_spec() -> bool {
        true
    }

    open spec fn eq_spec(&self, other: &Version) -> bool {
        self@ == other@
    }
}

impl Eq for Version {

}

impl PartialOrd for Version {
    fn partial_cmp(&self, other: &Self) -> (r: Option<Ordering>) {
        let p = self.precedence(other);
        if p < 0 {
            Some(Ordering::Less)
        } else if p == 0 {
            Some(Ordering::Equal)
        } else {
            Some(Ordering::Greater)
        }
    }
}

impl vstd::std_specs::cmp::PartialOrdSpecImpl for Version {
    open spec fn obeys_partial_cmp_spec() -> bool {
        true
    }

    open spec fn partial_cmp_spec(&self, other: &Version) -> Option<Ordering> {
        let p = version_order(self@, other@);
        if p < 0 {
            Some(Ordering::Less)
        } else if p == 0 {
            Some(Ordering::Equal)
        } else {
            Some(Ordering::Greater)
        }
    }
}

} // verus!
