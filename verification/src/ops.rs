//! Arithmetic operators on numbers, with any operand that converts into a number.
//!
//! Each operator is exact: the result is the rational that the operands' sum, difference,
//! product, quotient or remainder denotes, in lowest terms. Division and remainder by zero
//! are left out by their preconditions (the operation panics there).

use crate::malachite::{rational_add, rational_div, rational_mul, rational_rem, rational_sub};
use crate::number::Number;
use crate::ratio::{ratio_add, ratio_div, ratio_mul, ratio_neg, ratio_rem, ratio_sub};
use core::ops::{Add, Div, Mul, Neg, Rem, Sub};
use vstd::prelude::*;
use vstd::std_specs::ops::{AddSpecImpl, DivSpecImpl, MulSpecImpl, NegSpecImpl, RemSpecImpl, SubSpecImpl};

verus! {

/// A value that converts exactly into a number.
pub trait IntoNumber: Sized {
    /// The rational that the value denotes, as a reduced numerator and denominator.
    spec fn number_view(&self) -> (int, nat);

    fn into_number(self) -> (r: Number)
        ensures
            r@ == self.number_view(),
    ;
}

impl IntoNumber for Number {
    open spec fn number_view(&self) -> (int, nat) {
        self@
    }

    fn into_number(self) -> (r: Number) {
        self
    }
}

impl<'a> IntoNumber for &'a Number {
    open spec fn number_view(&self) -> (int, nat) {
        (*self)@
    }

    fn into_number(self) -> (r: Number) {
        self.clone()
    }
}

impl<T: IntoNumber> Add<T> for Number {
    type Output = Number;

    fn add(self, rhs: T) -> (r: Number)
        ensures
            r@ == ratio_add(self@, rhs.number_view()),
    {
        let rhs = rhs.into_number();
        rational_add(&self, &rhs)
    }
}

impl<T: IntoNumber> AddSpecImpl<T> for Number {
    open spec fn obeys_add_spec() -> bool {
        false
    }

    open spec fn add_req(self, rhs: T) -> bool {
        true
    }

    open spec fn add_spec(self, rhs: T) -> Number {
        self
    }
}

impl<'a, T: IntoNumber> Add<T> for &'a Number {
    type Output = Number;

    fn add(self, rhs: T) -> (r: Number)
        ensures
            r@ == ratio_add((*self)@, rhs.number_view()),
    {
        let rhs = rhs.into_number();
        rational_add(self, &rhs)
    }
}

impl<'a, T: IntoNumber> AddSpecImpl<T> for &'a Number {
    open spec fn obeys_add_spec() -> bool {
        false
    }

    open spec fn add_req(self, rhs: T) -> bool {
        true
    }

    open spec fn add_spec(self, rhs: T) -> Number {
        *self
    }
}

impl<T: IntoNumber> Sub<T> for Number {
    type Output = Number;

    fn sub(self, rhs: T) -> (r: Number)
        ensures
            r@ == ratio_sub(self@, rhs.number_view()),
    {
        let rhs = rhs.into_number();
        rational_sub(&self, &rhs)
    }
}

impl<T: IntoNumber> SubSpecImpl<T> for Number {
    open spec fn obeys_sub_spec() -> bool {
        false
    }

    open spec fn sub_req(self, rhs: T) -> bool {
        true
    }

    open spec fn sub_spec(self, rhs: T) -> Number {
        self
    }
}

impl<'a, T: IntoNumber> Sub<T> for &'a Number {
    type Output = Number;

    fn sub(self, rhs: T) -> (r: Number)
        ensures
            r@ == ratio_sub((*self)@, rhs.number_view()),
    {
        let rhs = rhs.into_number();
        rational_sub(self, &rhs)
    }
}

impl<'a, T: IntoNumber> SubSpecImpl<T> for &'a Number {
    open spec fn obeys_sub_spec() -> bool {
        false
    }

    open spec fn sub_req(self, rhs: T) -> bool {
        true
    }

    open spec fn sub_spec(self, rhs: T) -> Number {
        *self
    }
}

impl<T: IntoNumber> Mul<T> for Number {
    type Output = Number;

    fn mul(self, rhs: T) -> (r: Number)
        ensures
            r@ == ratio_mul(self@, rhs.number_view()),
    {
        let rhs = rhs.into_number();
        rational_mul(&self, &rhs)
    }
}

impl<T: IntoNumber> MulSpecImpl<T> for Number {
    open spec fn obeys_mul_spec() -> bool {
        false
    }

    open spec fn mul_req(self, rhs: T) -> bool {
        true
    }

    open spec fn mul_spec(self, rhs: T) -> Number {
        self
    }
}

impl<'a, T: IntoNumber> Mul<T> for &'a Number {
    type Output = Number;

    fn mul(self, rhs: T) -> (r: Number)
        ensures
            r@ == ratio_mul((*self)@, rhs.number_view()),
    {
        let rhs = rhs.into_number();
        rational_mul(self, &rhs)
    }
}

impl<'a, T: IntoNumber> MulSpecImpl<T> for &'a Number {
    open spec fn obeys_mul_spec() -> bool {
        false
    }

    open spec fn mul_req(self, rhs: T) -> bool {
        true
    }

    open spec fn mul_spec(self, rhs: T) -> Number {
        *self
    }
}

impl<T: IntoNumber> Div<T> for Number {
    type Output = Number;

    fn div(self, rhs: T) -> (r: Number)
        ensures
            r@ == ratio_div(self@, rhs.number_view()),
    {
        let rhs = rhs.into_number();
        rational_div(&self, &rhs)
    }
}

impl<T: IntoNumber> DivSpecImpl<T> for Number {
    open spec fn obeys_div_spec() -> bool {
        false
    }

    open spec fn div_req(self, rhs: T) -> bool {
        rhs.number_view().0 != 0
    }

    open spec fn div_spec(self, rhs: T) -> Number {
        self
    }
}

impl<'a, T: IntoNumber> Div<T> for &'a Number {
    type Output = Number;

    fn div(self, rhs: T) -> (r: Number)
        ensures
            r@ == ratio_div((*self)@, rhs.number_view()),
    {
        let rhs = rhs.into_number();
        rational_div(self, &rhs)
    }
}

impl<'a, T: IntoNumber> DivSpecImpl<T> for &'a Number {
    open spec fn obeys_div_spec() -> bool {
        false
    }

    open spec fn div_req(self, rhs: T) -> bool {
        rhs.number_view().0 != 0
    }

    open spec fn div_spec(self, rhs: T) -> Number {
        *self
    }
}

impl<T: IntoNumber> Rem<T> for Number {
    type Output = Number;

    fn rem(self, rhs: T) -> (r: Number)
        ensures
            r@ == ratio_rem(self@, rhs.number_view()),
    {
        let rhs = rhs.into_number();
        rational_rem(&self, &rhs)
    }
}

impl<T: IntoNumber> RemSpecImpl<T> for Number {
    open spec fn obeys_rem_spec() -> bool {
        false
    }

    open spec fn rem_req(self, rhs: T) -> bool {
        rhs.number_view().0 != 0
    }

    open spec fn rem_spec(self, rhs: T) -> Number {
        self
    }
}

impl<'a, T: IntoNumber> Rem<T> for &'a Number {
    type Output = Number;

    fn rem(self, rhs: T) -> (r: Number)
        ensures
            r@ == ratio_rem((*self)@, rhs.number_view()),
    {
        let rhs = rhs.into_number();
        rational_rem(self, &rhs)
    }
}

impl<'a, T: IntoNumber> RemSpecImpl<T> for &'a Number {
    open spec fn obeys_rem_spec() -> bool {
        false
    }

    open spec fn rem_req(self, rhs: T) -> bool {
        rhs.number_view().0 != 0
    }

    open spec fn rem_spec(self, rhs: T) -> Number {
        *self
    }
}

/// The sum of rationals, from zero, left to right.
pub open spec fn ratio_sum(values: Seq<(int, nat)>) -> (int, nat)
    decreases values.len(),
{
    if values.len() == 0 {
        (0, 1)
    } else {
        ratio_add(ratio_sum(values.drop_last()), values.last())
    }
}

/// The rationals that numbers denote.
pub open spec fn views(values: Seq<Number>) -> Seq<(int, nat)> {
    values.map_values(|x: Number| x@)
}

impl Number {
    /// The sum of the numbers, from zero, left to right.
    pub fn sum_of(values: &[Number]) -> (r: Number)
        ensures
            r@ == ratio_sum(views(values@)),
    {
        let mut total = Number::new_i64(0);
        let mut index: usize = 0;
        proof {
            assert(views(values@.take(0)) =~= Seq::<(int, nat)>::empty());
        }
        while index < values.len()
            invariant
                index <= values@.len(),
                total@ == ratio_sum(views(values@.take(index as int))),
            decreases values.len() - index,
        {
            total = rational_add(&total, &values[index]);
            index = index + 1;
            proof {
                assert(views(values@.take(index as int)).drop_last() =~= views(values@.take(index - 1)));
            }
        }
        proof {
            assert(values@.take(index as int) =~= values@);
        }
        total
    }
}

impl Neg for Number {
    type Output = Number;

    fn neg(self) -> (r: Number)
        ensures
            r@ == ratio_neg(self@),
    {
        self.negated()
    }
}

impl NegSpecImpl for Number {
    open spec fn obeys_neg_spec() -> bool {
        false
    }

    open spec fn neg_req(self) -> bool {
        true
    }

    open spec fn neg_spec(self) -> Number {
        self
    }
}

impl<'a> Neg for &'a Number {
    type Output = Number;

    fn neg(self) -> (r: Number)
        ensures
            r@ == ratio_neg((*self)@),
    {
        self.negated()
    }
}

impl<'a> NegSpecImpl for &'a Number {
    open spec fn obeys_neg_spec() -> bool {
        false
    }

    open spec fn neg_req(self) -> bool {
        true
    }

    open spec fn neg_spec(self) -> Number {
        *self
    }
}

/// The sum of one number is that number.
pub proof fn law_sum_of_one(a: (int, nat))
    requires
        crate::ratio::is_lowest_terms(a.0, a.1),
    ensures
        ratio_sum(seq![a]) == a,
{
    assert(seq![a].drop_last() =~= Seq::<(int, nat)>::empty());
    assert(ratio_sum(Seq::<(int, nat)>::empty()) == (0int, 1nat));
    assert(seq![a].last() == a);
    assert(ratio_sum(seq![a]) == ratio_add((0, 1), a));
    crate::laws::law_add_commutative((0, 1), a);
    crate::laws::law_add_zero(a);
}

/// The sum of the rationals is always in lowest terms (denominators taken positive).
proof fn lemma_sum_lowest(values: Seq<(int, nat)>)
    requires
        forall|i: int| 0 <= i < values.len() ==> #[trigger] values[i].1 > 0,
    ensures
        crate::ratio::is_lowest_terms(ratio_sum(values).0, ratio_sum(values).1),
    decreases values.len(),
{
    if values.len() == 0 {
        crate::ratio::lemma_gcd_one_right(0);
    } else {
        let rest = values.drop_last();
        assert forall|i: int| 0 <= i < rest.len() implies #[trigger] rest[i].1 > 0 by {
            assert(rest[i] == values[i]);
        }
        lemma_sum_lowest(rest);
        let a = ratio_sum(rest);
        let b = values.last();
        assert(a.1 * b.1 > 0) by (nonlinear_arith)
            requires
                a.1 > 0,
                b.1 > 0,
        ;
        crate::ratio::lemma_reduced_is_lowest(a.0 * b.1 + b.0 * a.1, (a.1 * b.1) as nat);
    }
}

/// Sums add up: the sum of two runs of numbers one after the other is the sum of the first
/// plus the sum of the second. With a single number as the second run, adding a number at the
/// end adds it to the sum, whatever its sign.
pub proof fn law_sum_of_concatenation(xs: Seq<(int, nat)>, ys: Seq<(int, nat)>)
    requires
        forall|i: int| 0 <= i < xs.len() ==> #[trigger] xs[i].1 > 0,
        forall|i: int| 0 <= i < ys.len() ==> #[trigger] ys[i].1 > 0,
    ensures
        ratio_sum(xs + ys) == ratio_add(ratio_sum(xs), ratio_sum(ys)),
    decreases ys.len(),
{
    lemma_sum_lowest(xs);
    if ys.len() == 0 {
        assert(xs + ys =~= xs);
        crate::laws::law_add_zero(ratio_sum(xs));
    } else {
        let init = ys.drop_last();
        let y = ys.last();
        assert forall|i: int| 0 <= i < init.len() implies #[trigger] init[i].1 > 0 by {
            assert(init[i] == ys[i]);
        }
        law_sum_of_concatenation(xs, init);
        assert((xs + ys).drop_last() =~= xs + init);
        assert((xs + ys).last() == y);
        lemma_sum_lowest(init);
        assert(y.1 > 0) by {
            assert(y == ys[ys.len() - 1]);
        }
        crate::laws::law_add_associative(ratio_sum(xs), ratio_sum(init), y);
    }
}

/// Adding a number at the end of a run adds it to the sum, whatever its sign.
pub proof fn law_sum_of_push(xs: Seq<(int, nat)>, y: (int, nat))
    requires
        forall|i: int| 0 <= i < xs.len() ==> #[trigger] xs[i].1 > 0,
        crate::ratio::is_lowest_terms(y.0, y.1),
    ensures
        ratio_sum(xs.push(y)) == ratio_add(ratio_sum(xs), y),
{
    assert(seq![y][0] == y);
    law_sum_of_concatenation(xs, seq![y]);
    law_sum_of_one(y);
    assert(xs + seq![y] =~= xs.push(y));
}

} // verus!
