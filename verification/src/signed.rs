//! Zero, one, signs, absolute values and reciprocals.

use crate::number::Number;
use crate::order::ratio_order;
use crate::ratio::{abs, ratio_div, ratio_sub, sign};
use core::cmp::Ordering;
use vstd::prelude::*;

verus! {

impl Number {
    /// The number zero.
    pub fn zero() -> (r: Self)
        ensures
            r@ == (0int, 1nat),
    {
        Self::new_i64(0)
    }

    /// The number one.
    pub fn one() -> (r: Self)
        ensures
            r@ == (1int, 1nat),
    {
        Self::new_i64(1)
    }

    /// Whether the number is zero.
    pub fn is_zero(&self) -> (r: bool)
        ensures
            r == (self@ == (0int, 1nat)),
    {
        *self == Self::zero()
    }

    /// Whether the number is one.
    pub fn is_one(&self) -> (r: bool)
        ensures
            r == (self@ == (1int, 1nat)),
    {
        *self == Self::one()
    }

    /// Whether the number is above zero.
    pub fn is_positive(&self) -> (r: bool)
        ensures
            r == (self@.0 > 0),
    {
        proof {
            use_type_invariant(self);
            self.lemma_valid();
        }
        let zero = Self::new_i64(0);
        match self.cmp(&zero) {
            Ordering::Greater => true,
            _ => false,
        }
    }

    /// Whether the number is below zero.
    pub fn is_negative(&self) -> (r: bool)
        ensures
            r == (self@.0 < 0),
    {
        proof {
            use_type_invariant(self);
            self.lemma_valid();
        }
        let zero = Self::new_i64(0);
        match self.cmp(&zero) {
            Ordering::Less => true,
            _ => false,
        }
    }

    /// The absolute value.
    pub fn abs(&self) -> (r: Self)
        ensures
            r@ == (abs(self@.0) as int, self@.1),
    {
        if self.is_negative() {
            self.negated()
        } else {
            self.clone()
        }
    }

    /// The positive difference: zero when `self <= other`, else `self - other`.
    pub fn abs_sub(&self, other: &Self) -> (r: Self)
        ensures
            ratio_order(self@, other@) != Ordering::Greater ==> r@ == (0int, 1nat),
            ratio_order(self@, other@) == Ordering::Greater ==> r@ == ratio_sub(self@, other@),
    {
        if *self <= *other {
            Self::new_i64(0)
        } else {
            self - other
        }
    }

    /// Replaces the number with zero.
    pub fn set_zero(&mut self)
        ensures
            final(self)@ == (0int, 1nat),
    {
        *self = Self::zero();
    }

    /// Replaces the number with one.
    pub fn set_one(&mut self)
        ensures
            final(self)@ == (1int, 1nat),
    {
        *self = Self::one();
    }

    /// The sign: `1`, `0` or `-1`.
    pub fn signum(&self) -> (r: Self)
        ensures
            r@ == (sign(self@.0), 1nat),
    {
        if self.is_positive() {
            Self::new_i64(1)
        } else if self.is_negative() {
            Self::new_i64(-1)
        } else {
            Self::new_i64(0)
        }
    }


    /// The reciprocal of a nonzero number.
    pub fn inv(&self) -> (r: Self)
        requires
            self@.0 != 0,
        ensures
            r@ == ratio_div((1int, 1nat), self@),
    {
        Self::new_i64(1) / self
    }
}

} // verus!
