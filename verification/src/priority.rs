//! Priority rules: which of two elements belongs nearer the root of a heap.

use vstd::prelude::*;
use vstd::std_specs::cmp::PartialOrdIs;

verus! {

/// A rule that says of two elements whether the first has strictly higher
/// priority than the second.
pub trait Priority<T>: Sized {
    /// Whether `a` has strictly higher priority than `b`.
    spec fn prefers(&self, a: T, b: T) -> bool;

    /// What the rule needs to hold of `T` before it can be consulted.
    spec fn lawful(&self) -> bool;

    /// Decides `prefers` on two elements.
    fn higher(&self, a: &T, b: &T) -> (r: bool)
        requires
            self.lawful(),
        ensures
            r == self.prefers(*a, *b),
    ;

    /// A lawful rule is a strict weak order: no element outranks one that
    /// outranks it, and "does not outrank" is transitive.
    proof fn weak_order(&self, a: T, b: T, c: T)
        requires
            self.lawful(),
        ensures
            self.prefers(a, b) ==> !self.prefers(b, a),
            !self.prefers(a, b) && !self.prefers(b, c) ==> !self.prefers(a, c),
    ;
}

/// The rule of a min-heap: the smaller element goes first.
#[derive(Clone, Copy, Debug)]
pub struct Least;

/// The rule of a max-heap: the larger element goes first.
#[derive(Clone, Copy, Debug)]
pub struct Greatest;

impl<T: Ord> Priority<T> for Least {
    open spec fn prefers(&self, a: T, b: T) -> bool {
        a.is_lt(&b)
    }

    open spec fn lawful(&self) -> bool {
        vstd::laws_cmp::obeys_cmp::<T>()
    }

    fn higher(&self, a: &T, b: &T) -> (r: bool) {
        proof {
            reveal(vstd::laws_cmp::obeys_cmp_partial_ord);
        }
        *a < *b
    }

    proof fn weak_order(&self, a: T, b: T, c: T) {
        total_order::<T>(a, b, c);
    }
}

impl<T: Ord> Priority<T> for Greatest {
    open spec fn prefers(&self, a: T, b: T) -> bool {
        a.is_gt(&b)
    }

    open spec fn lawful(&self) -> bool {
        vstd::laws_cmp::obeys_cmp::<T>()
    }

    fn higher(&self, a: &T, b: &T) -> (r: bool) {
        proof {
            reveal(vstd::laws_cmp::obeys_cmp_partial_ord);
        }
        *a > *b
    }

    proof fn weak_order(&self, a: T, b: T, c: T) {
        total_order::<T>(a, b, c);
    }
}

/// On a type whose comparisons obey the laws of a total order, both "less
/// than" and "greater than" are strict weak orders, and what is not less
/// (greater) than another element is greater (less) than it or equal to it.
pub proof fn total_order<T: Ord>(a: T, b: T, c: T)
    requires
        vstd::laws_cmp::obeys_cmp::<T>(),
    ensures
        a.is_lt(&b) ==> !b.is_lt(&a),
        !a.is_lt(&b) && !b.is_lt(&c) ==> !a.is_lt(&c),
        a.is_gt(&b) ==> !b.is_gt(&a),
        !a.is_gt(&b) && !b.is_gt(&c) ==> !a.is_gt(&c),
        !a.is_lt(&b) ==> b.is_le(&a),
        !a.is_gt(&b) ==> b.is_ge(&a),
{
    reveal(vstd::laws_cmp::obeys_cmp_partial_ord);
    reveal(vstd::laws_cmp::obeys_cmp_ord);
    reveal(vstd::laws_cmp::obeys_partial_cmp_spec_properties);
    reveal(vstd::laws_eq::obeys_eq_spec_properties);
}

} // verus!
