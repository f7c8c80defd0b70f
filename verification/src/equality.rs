//! `==` on policies, and the order of principles by the kind of scope.

use vstd::prelude::*;
use core::cmp::Ordering;
use crate::policy::{Policy, Principle};

verus! {

impl PartialEq for Policy {
    fn eq(&self, other: &Policy) -> (r: bool) {
        let same_until = match (self.until, other.until) {
            (Some(a), Some(b)) => a == b,
            (None, None) => true,
            _ => false,
        };
        self.principle == other.principle && self.action == other.action && self.effect
            == other.effect && same_until
    }
}

impl vstd::std_specs::cmp::PartialEqSpecImpl for Policy {
    open spec fn obeys_eq_spec() -> bool {
        true
    }

    open spec fn eq_spec(&self, other: &Policy) -> bool {
        self@ == other@
    }
}

impl Eq for Policy {

}

/// Principles are ordered by the kind of their scope alone,
/// `Global < Guild < Channel < Role < Member`: two different principles of
/// one kind are not comparable.
impl PartialOrd for Principle {
    fn partial_cmp(&self, other: &Principle) -> (r: Option<Ordering>) {
        let mine = self.rank();
        let theirs = other.rank();
        if mine < theirs {
            Some(Ordering::Less)
        } else if mine > theirs {
            Some(Ordering::Greater)
        } else if *self == *other {
            Some(Ordering::Equal)
        } else {
            None
        }
    }
}

impl vstd::std_specs::cmp::PartialOrdSpecImpl for Principle {
    open spec fn obeys_partial_cmp_spec() -> bool {
        true
    }

    open spec fn partial_cmp_spec(&self, other: &Principle) -> Option<Ordering> {
        if self.kind_rank() < other.kind_rank() {
            Some(Ordering::Less)
        } else if self.kind_rank() > other.kind_rank() {
            Some(Ordering::Greater)
        } else if *self == *other {
            Some(Ordering::Equal)
        } else {
            None
        }
    }
}

} // verus!
