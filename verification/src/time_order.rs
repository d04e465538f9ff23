//! The order of points in time.
use core::cmp::Ordering;
use vstd::prelude::*;
use vstd::std_specs::cmp::PartialOrdSpecImpl;

use crate::time::{time_before, SEPTime, TimeView};

verus! {

/// How `a` compares with `b`: earlier points in time come first.
pub open spec fn time_order(a: TimeView, b: TimeView) -> Option<Ordering> {
    if time_before(a, b) {
        Some(Ordering::Less)
    } else if time_before(b, a) {
        Some(Ordering::Greater)
    } else {
        Some(Ordering::Equal)
    }
}

impl PartialOrd for SEPTime {
    fn partial_cmp(&self, other: &SEPTime) -> (r: Option<Ordering>) {
        if self.is_before(other) {
            Some(Ordering::Less)
        } else if other.is_before(self) {
            Some(Ordering::Greater)
        } else {
            Some(Ordering::Equal)
        }
    }
}

impl PartialOrdSpecImpl for SEPTime {
    open spec fn obeys_partial_cmp_spec() -> bool {
        true
    }

    open spec fn partial_cmp_spec(&self, other: &SEPTime) -> Option<Ordering> {
        time_order(self@, other@)
    }
}

} // verus!
