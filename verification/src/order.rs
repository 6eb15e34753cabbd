//! The numeric order of numbers.

use crate::malachite::to_rational;
use crate::number::Number;
use core::cmp::Ordering;
use vstd::prelude::*;
use vstd::std_specs::cmp::PartialOrdSpecImpl;

verus! {

/// The order of two rationals with positive denominators, by cross-multiplication.
pub open spec fn ratio_order(a: (int, nat), b: (int, nat)) -> Ordering {
    if a.0 * b.1 < b.0 * a.1 {
        Ordering::Less
    } else if a.0 * b.1 == b.0 * a.1 {
        Ordering::Equal
    } else {
        Ordering::Greater
    }
}

/// `Ord for Rational`: Malachite compares rationals by value.
#[verifier::external_body]
fn rational_order(a: &Number, b: &Number) -> (r: Ordering)
    ensures
        r == ratio_order(a@, b@),
{
    to_rational(a).cmp(&to_rational(b))
}

impl Number {
    /// Compares two numbers by value.
    pub fn cmp(&self, other: &Self) -> (r: Ordering)
        ensures
            r == ratio_order(self@, other@),
    {
        rational_order(self, other)
    }
}

impl PartialOrd for Number {
    fn partial_cmp(&self, other: &Self) -> (r: Option<Ordering>) {
        Some(self.cmp(other))
    }
}

impl PartialOrdSpecImpl for Number {
    open spec fn obeys_partial_cmp_spec() -> bool {
        true
    }

    open spec fn partial_cmp_spec(&self, other: &Self) -> Option<Ordering> {
        Some(ratio_order(self@, other@))
    }
}

} // verus!
