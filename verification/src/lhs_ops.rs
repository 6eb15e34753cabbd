//! Arithmetic operators with a primitive integer or a boolean state on the left of a number.

use crate::malachite::{rational_add, rational_div, rational_mul, rational_rem, rational_sub};
use crate::number::Number;
use crate::ops::IntoNumber;
use crate::ratio::{ratio_add, ratio_div, ratio_mul, ratio_rem, ratio_sub};
use core::ops::{Add, Div, Mul, Rem, Sub};
use vstd::prelude::*;
use vstd::std_specs::ops::{AddSpecImpl, DivSpecImpl, MulSpecImpl, RemSpecImpl, SubSpecImpl};

verus! {

impl Add<Number> for i8 {
    type Output = Number;

    fn add(self, rhs: Number) -> (r: Number)
        ensures
            r@ == ratio_add(self.number_view(), rhs@),
    {
        rational_add(&self.into_number(), &rhs)
    }
}

impl AddSpecImpl<Number> for i8 {
    open spec fn obeys_add_spec() -> bool {
        false
    }

    open spec fn add_req(self, rhs: Number) -> bool {
        true
    }

    open spec fn add_spec(self, rhs: Number) -> Number {
        arbitrary()
    }
}

impl<'a> Add<&'a Number> for i8 {
    type Output = Number;

    fn add(self, rhs: &'a Number) -> (r: Number)
        ensures
            r@ == ratio_add(self.number_view(), (*rhs)@),
    {
        rational_add(&self.into_number(), rhs)
    }
}

impl<'a> AddSpecImpl<&'a Number> for i8 {
    open spec fn obeys_add_spec() -> bool {
        false
    }

    open spec fn add_req(self, rhs: &'a Number) -> bool {
        true
    }

    open spec fn add_spec(self, rhs: &'a Number) -> Number {
        arbitrary()
    }
}

impl Sub<Number> for i8 {
    type Output = Number;

    fn sub(self, rhs: Number) -> (r: Number)
        ensures
            r@ == ratio_sub(self.number_view(), rhs@),
    {
        rational_sub(&self.into_number(), &rhs)
    }
}

impl SubSpecImpl<Number> for i8 {
    open spec fn obeys_sub_spec() -> bool {
        false
    }

    open spec fn sub_req(self, rhs: Number) -> bool {
        true
    }

    open spec fn sub_spec(self, rhs: Number) -> Number {
        arbitrary()
    }
}

impl<'a> Sub<&'a Number> for i8 {
    type Output = Number;

    fn sub(self, rhs: &'a Number) -> (r: Number)
        ensures
            r@ == ratio_sub(self.number_view(), (*rhs)@),
    {
        rational_sub(&self.into_number(), rhs)
    }
}

impl<'a> SubSpecImpl<&'a Number> for i8 {
    open spec fn obeys_sub_spec() -> bool {
        false
    }

    open spec fn sub_req(self, rhs: &'a Number) -> bool {
        true
    }

    open spec fn sub_spec(self, rhs: &'a Number) -> Number {
        arbitrary()
    }
}

impl Mul<Number> for i8 {
    type Output = Number;

    fn mul(self, rhs: Number) -> (r: Number)
        ensures
            r@ == ratio_mul(self.number_view(), rhs@),
    {
        rational_mul(&self.into_number(), &rhs)
    }
}

impl MulSpecImpl<Number> for i8 {
    open spec fn obeys_mul_spec() -> bool {
        false
    }

    open spec fn mul_req(self, rhs: Number) -> bool {
        true
    }

    open spec fn mul_spec(self, rhs: Number) -> Number {
        arbitrary()
    }
}

impl<'a> Mul<&'a Number> for i8 {
    type Output = Number;

    fn mul(self, rhs: &'a Number) -> (r: Number)
        ensures
            r@ == ratio_mul(self.number_view(), (*rhs)@),
    {
        rational_mul(&self.into_number(), rhs)
    }
}

impl<'a> MulSpecImpl<&'a Number> for i8 {
    open spec fn obeys_mul_spec() -> bool {
        false
    }

    open spec fn mul_req(self, rhs: &'a Number) -> bool {
        true
    }

    open spec fn mul_spec(self, rhs: &'a Number) -> Number {
        arbitrary()
    }
}

impl Div<Number> for i8 {
    type Output = Number;

    fn div(self, rhs: Number) -> (r: Number)
        ensures
            r@ == ratio_div(self.number_view(), rhs@),
    {
        rational_div(&self.into_number(), &rhs)
    }
}

impl DivSpecImpl<Number> for i8 {
    open spec fn obeys_div_spec() -> bool {
        false
    }

    open spec fn div_req(self, rhs: Number) -> bool {
        rhs@.0 != 0
    }

    open spec fn div_spec(self, rhs: Number) -> Number {
        arbitrary()
    }
}

impl<'a> Div<&'a Number> for i8 {
    type Output = Number;

    fn div(self, rhs: &'a Number) -> (r: Number)
        ensures
            r@ == ratio_div(self.number_view(), (*rhs)@),
    {
        rational_div(&self.into_number(), rhs)
    }
}

impl<'a> DivSpecImpl<&'a Number> for i8 {
    open spec fn obeys_div_spec() -> bool {
        false
    }

    open spec fn div_req(self, rhs: &'a Number) -> bool {
        (*rhs)@.0 != 0
    }

    open spec fn div_spec(self, rhs: &'a Number) -> Number {
        arbitrary()
    }
}

impl Rem<Number> for i8 {
    type Output = Number;

    fn rem(self, rhs: Number) -> (r: Number)
        ensures
            r@ == ratio_rem(self.number_view(), rhs@),
    {
        rational_rem(&self.into_number(), &rhs)
    }
}

impl RemSpecImpl<Number> for i8 {
    open spec fn obeys_rem_spec() -> bool {
        false
    }

    open spec fn rem_req(self, rhs: Number) -> bool {
        rhs@.0 != 0
    }

    open spec fn rem_spec(self, rhs: Number) -> Number {
        arbitrary()
    }
}

impl<'a> Rem<&'a Number> for i8 {
    type Output = Number;

    fn rem(self, rhs: &'a Number) -> (r: Number)
        ensures
            r@ == ratio_rem(self.number_view(), (*rhs)@),
    {
        rational_rem(&self.into_number(), rhs)
    }
}

impl<'a> RemSpecImpl<&'a Number> for i8 {
    open spec fn obeys_rem_spec() -> bool {
        false
    }

    open spec fn rem_req(self, rhs: &'a Number) -> bool {
        (*rhs)@.0 != 0
    }

    open spec fn rem_spec(self, rhs: &'a Number) -> Number {
        arbitrary()
    }
}

impl Add<Number> for i16 {
    type Output = Number;

    fn add(self, rhs: Number) -> (r: Number)
        ensures
            r@ == ratio_add(self.number_view(), rhs@),
    {
        rational_add(&self.into_number(), &rhs)
    }
}

impl AddSpecImpl<Number> for i16 {
    open spec fn obeys_add_spec() -> bool {
        false
    }

    open spec fn add_req(self, rhs: Number) -> bool {
        true
    }

    open spec fn add_spec(self, rhs: Number) -> Number {
        arbitrary()
    }
}

impl<'a> Add<&'a Number> for i16 {
    type Output = Number;

    fn add(self, rhs: &'a Number) -> (r: Number)
        ensures
            r@ == ratio_add(self.number_view(), (*rhs)@),
    {
        rational_add(&self.into_number(), rhs)
    }
}

impl<'a> AddSpecImpl<&'a Number> for i16 {
    open spec fn obeys_add_spec() -> bool {
        false
    }

    open spec fn add_req(self, rhs: &'a Number) -> bool {
        true
    }

    open spec fn add_spec(self, rhs: &'a Number) -> Number {
        arbitrary()
    }
}

impl Sub<Number> for i16 {
    type Output = Number;

    fn sub(self, rhs: Number) -> (r: Number)
        ensures
            r@ == ratio_sub(self.number_view(), rhs@),
    {
        rational_sub(&self.into_number(), &rhs)
    }
}

impl SubSpecImpl<Number> for i16 {
    open spec fn obeys_sub_spec() -> bool {
        false
    }

    open spec fn sub_req(self, rhs: Number) -> bool {
        true
    }

    open spec fn sub_spec(self, rhs: Number) -> Number {
        arbitrary()
    }
}

impl<'a> Sub<&'a Number> for i16 {
    type Output = Number;

    fn sub(self, rhs: &'a Number) -> (r: Number)
        ensures
            r@ == ratio_sub(self.number_view(), (*rhs)@),
    {
        rational_sub(&self.into_number(), rhs)
    }
}

impl<'a> SubSpecImpl<&'a Number> for i16 {
    open spec fn obeys_sub_spec() -> bool {
        false
    }

    open spec fn sub_req(self, rhs: &'a Number) -> bool {
        true
    }

    open spec fn sub_spec(self, rhs: &'a Number) -> Number {
        arbitrary()
    }
}

impl Mul<Number> for i16 {
    type Output = Number;

    fn mul(self, rhs: Number) -> (r: Number)
        ensures
            r@ == ratio_mul(self.number_view(), rhs@),
    {
        rational_mul(&self.into_number(), &rhs)
    }
}

impl MulSpecImpl<Number> for i16 {
    open spec fn obeys_mul_spec() -> bool {
        false
    }

    open spec fn mul_req(self, rhs: Number) -> bool {
        true
    }

    open spec fn mul_spec(self, rhs: Number) -> Number {
        arbitrary()
    }
}

impl<'a> Mul<&'a Number> for i16 {
    type Output = Number;

    fn mul(self, rhs: &'a Number) -> (r: Number)
        ensures
            r@ == ratio_mul(self.number_view(), (*rhs)@),
    {
        rational_mul(&self.into_number(), rhs)
    }
}

impl<'a> MulSpecImpl<&'a Number> for i16 {
    open spec fn obeys_mul_spec() -> bool {
        false
    }

    open spec fn mul_req(self, rhs: &'a Number) -> bool {
        true
    }

    open spec fn mul_spec(self, rhs: &'a Number) -> Number {
        arbitrary()
    }
}

impl Div<Number> for i16 {
    type Output = Number;

    fn div(self, rhs: Number) -> (r: Number)
        ensures
            r@ == ratio_div(self.number_view(), rhs@),
    {
        rational_div(&self.into_number(), &rhs)
    }
}

impl DivSpecImpl<Number> for i16 {
    open spec fn obeys_div_spec() -> bool {
        false
    }

    open spec fn div_req(self, rhs: Number) -> bool {
        rhs@.0 != 0
    }

    open spec fn div_spec(self, rhs: Number) -> Number {
        arbitrary()
    }
}

impl<'a> Div<&'a Number> for i16 {
    type Output = Number;

    fn div(self, rhs: &'a Number) -> (r: Number)
        ensures
            r@ == ratio_div(self.number_view(), (*rhs)@),
    {
        rational_div(&self.into_number(), rhs)
    }
}

impl<'a> DivSpecImpl<&'a Number> for i16 {
    open spec fn obeys_div_spec() -> bool {
        false
    }

    open spec fn div_req(self, rhs: &'a Number) -> bool {
        (*rhs)@.0 != 0
    }

    open spec fn div_spec(self, rhs: &'a Number) -> Number {
        arbitrary()
    }
}

impl Rem<Number> for i16 {
    type Output = Number;

    fn rem(self, rhs: Number) -> (r: Number)
        ensures
            r@ == ratio_rem(self.number_view(), rhs@),
    {
        rational_rem(&self.into_number(), &rhs)
    }
}

impl RemSpecImpl<Number> for i16 {
    open spec fn obeys_rem_spec() -> bool {
        false
    }

    open spec fn rem_req(self, rhs: Number) -> bool {
        rhs@.0 != 0
    }

    open spec fn rem_spec(self, rhs: Number) -> Number {
        arbitrary()
    }
}

impl<'a> Rem<&'a Number> for i16 {
    type Output = Number;

    fn rem(self, rhs: &'a Number) -> (r: Number)
        ensures
            r@ == ratio_rem(self.number_view(), (*rhs)@),
    {
        rational_rem(&self.into_number(), rhs)
    }
}

impl<'a> RemSpecImpl<&'a Number> for i16 {
    open spec fn obeys_rem_spec() -> bool {
        false
    }

    open spec fn rem_req(self, rhs: &'a Number) -> bool {
        (*rhs)@.0 != 0
    }

    open spec fn rem_spec(self, rhs: &'a Number) -> Number {
        arbitrary()
    }
}

impl Add<Number> for i32 {
    type Output = Number;

    fn add(self, rhs: Number) -> (r: Number)
        ensures
            r@ == ratio_add(self.number_view(), rhs@),
    {
        rational_add(&self.into_number(), &rhs)
    }
}

impl AddSpecImpl<Number> for i32 {
    open spec fn obeys_add_spec() -> bool {
        false
    }

    open spec fn add_req(self, rhs: Number) -> bool {
        true
    }

    open spec fn add_spec(self, rhs: Number) -> Number {
        arbitrary()
    }
}

impl<'a> Add<&'a Number> for i32 {
    type Output = Number;

    fn add(self, rhs: &'a Number) -> (r: Number)
        ensures
            r@ == ratio_add(self.number_view(), (*rhs)@),
    {
        rational_add(&self.into_number(), rhs)
    }
}

impl<'a> AddSpecImpl<&'a Number> for i32 {
    open spec fn obeys_add_spec() -> bool {
        false
    }

    open spec fn add_req(self, rhs: &'a Number) -> bool {
        true
    }

    open spec fn add_spec(self, rhs: &'a Number) -> Number {
        arbitrary()
    }
}

impl Sub<Number> for i32 {
    type Output = Number;

    fn sub(self, rhs: Number) -> (r: Number)
        ensures
            r@ == ratio_sub(self.number_view(), rhs@),
    {
        rational_sub(&self.into_number(), &rhs)
    }
}

impl SubSpecImpl<Number> for i32 {
    open spec fn obeys_sub_spec() -> bool {
        false
    }

    open spec fn sub_req(self, rhs: Number) -> bool {
        true
    }

    open spec fn sub_spec(self, rhs: Number) -> Number {
        arbitrary()
    }
}

impl<'a> Sub<&'a Number> for i32 {
    type Output = Number;

    fn sub(self, rhs: &'a Number) -> (r: Number)
        ensures
            r@ == ratio_sub(self.number_view(), (*rhs)@),
    {
        rational_sub(&self.into_number(), rhs)
    }
}

impl<'a> SubSpecImpl<&'a Number> for i32 {
    open spec fn obeys_sub_spec() -> bool {
        false
    }

    open spec fn sub_req(self, rhs: &'a Number) -> bool {
        true
    }

    open spec fn sub_spec(self, rhs: &'a Number) -> Number {
        arbitrary()
    }
}

impl Mul<Number> for i32 {
    type Output = Number;

    fn mul(self, rhs: Number) -> (r: Number)
        ensures
            r@ == ratio_mul(self.number_view(), rhs@),
    {
        rational_mul(&self.into_number(), &rhs)
    }
}

impl MulSpecImpl<Number> for i32 {
    open spec fn obeys_mul_spec() -> bool {
        false
    }

    open spec fn mul_req(self, rhs: Number) -> bool {
        true
    }

    open spec fn mul_spec(self, rhs: Number) -> Number {
        arbitrary()
    }
}

impl<'a> Mul<&'a Number> for i32 {
    type Output = Number;

    fn mul(self, rhs: &'a Number) -> (r: Number)
        ensures
            r@ == ratio_mul(self.number_view(), (*rhs)@),
    {
        rational_mul(&self.into_number(), rhs)
    }
}

impl<'a> MulSpecImpl<&'a Number> for i32 {
    open spec fn obeys_mul_spec() -> bool {
        false
    }

    open spec fn mul_req(self, rhs: &'a Number) -> bool {
        true
    }

    open spec fn mul_spec(self, rhs: &'a Number) -> Number {
        arbitrary()
    }
}

impl Div<Number> for i32 {
    type Output = Number;

    fn div(self, rhs: Number) -> (r: Number)
        ensures
            r@ == ratio_div(self.number_view(), rhs@),
    {
        rational_div(&self.into_number(), &rhs)
    }
}

impl DivSpecImpl<Number> for i32 {
    open spec fn obeys_div_spec() -> bool {
        false
    }

    open spec fn div_req(self, rhs: Number) -> bool {
        rhs@.0 != 0
    }

    open spec fn div_spec(self, rhs: Number) -> Number {
        arbitrary()
    }
}

impl<'a> Div<&'a Number> for i32 {
    type Output = Number;

    fn div(self, rhs: &'a Number) -> (r: Number)
        ensures
            r@ == ratio_div(self.number_view(), (*rhs)@),
    {
        rational_div(&self.into_number(), rhs)
    }
}

impl<'a> DivSpecImpl<&'a Number> for i32 {
    open spec fn obeys_div_spec() -> bool {
        false
    }

    open spec fn div_req(self, rhs: &'a Number) -> bool {
        (*rhs)@.0 != 0
    }

    open spec fn div_spec(self, rhs: &'a Number) -> Number {
        arbitrary()
    }
}

impl Rem<Number> for i32 {
    type Output = Number;

    fn rem(self, rhs: Number) -> (r: Number)
        ensures
            r@ == ratio_rem(self.number_view(), rhs@),
    {
        rational_rem(&self.into_number(), &rhs)
    }
}

impl RemSpecImpl<Number> for i32 {
    open spec fn obeys_rem_spec() -> bool {
        false
    }

    open spec fn rem_req(self, rhs: Number) -> bool {
        rhs@.0 != 0
    }

    open spec fn rem_spec(self, rhs: Number) -> Number {
        arbitrary()
    }
}

impl<'a> Rem<&'a Number> for i32 {
    type Output = Number;

    fn rem(self, rhs: &'a Number) -> (r: Number)
        ensures
            r@ == ratio_rem(self.number_view(), (*rhs)@),
    {
        rational_rem(&self.into_number(), rhs)
    }
}

impl<'a> RemSpecImpl<&'a Number> for i32 {
    open spec fn obeys_rem_spec() -> bool {
        false
    }

    open spec fn rem_req(self, rhs: &'a Number) -> bool {
        (*rhs)@.0 != 0
    }

    open spec fn rem_spec(self, rhs: &'a Number) -> Number {
        arbitrary()
    }
}

impl Add<Number> for i64 {
    type Output = Number;

    fn add(self, rhs: Number) -> (r: Number)
        ensures
            r@ == ratio_add(self.number_view(), rhs@),
    {
        rational_add(&self.into_number(), &rhs)
    }
}

impl AddSpecImpl<Number> for i64 {
    open spec fn obeys_add_spec() -> bool {
        false
    }

    open spec fn add_req(self, rhs: Number) -> bool {
        true
    }

    open spec fn add_spec(self, rhs: Number) -> Number {
        arbitrary()
    }
}

impl<'a> Add<&'a Number> for i64 {
    type Output = Number;

    fn add(self, rhs: &'a Number) -> (r: Number)
        ensures
            r@ == ratio_add(self.number_view(), (*rhs)@),
    {
        rational_add(&self.into_number(), rhs)
    }
}

impl<'a> AddSpecImpl<&'a Number> for i64 {
    open spec fn obeys_add_spec() -> bool {
        false
    }

    open spec fn add_req(self, rhs: &'a Number) -> bool {
        true
    }

    open spec fn add_spec(self, rhs: &'a Number) -> Number {
        arbitrary()
    }
}

impl Sub<Number> for i64 {
    type Output = Number;

    fn sub(self, rhs: Number) -> (r: Number)
        ensures
            r@ == ratio_sub(self.number_view(), rhs@),
    {
        rational_sub(&self.into_number(), &rhs)
    }
}

impl SubSpecImpl<Number> for i64 {
    open spec fn obeys_sub_spec() -> bool {
        false
    }

    open spec fn sub_req(self, rhs: Number) -> bool {
        true
    }

    open spec fn sub_spec(self, rhs: Number) -> Number {
        arbitrary()
    }
}

impl<'a> Sub<&'a Number> for i64 {
    type Output = Number;

    fn sub(self, rhs: &'a Number) -> (r: Number)
        ensures
            r@ == ratio_sub(self.number_view(), (*rhs)@),
    {
        rational_sub(&self.into_number(), rhs)
    }
}

impl<'a> SubSpecImpl<&'a Number> for i64 {
    open spec fn obeys_sub_spec() -> bool {
        false
    }

    open spec fn sub_req(self, rhs: &'a Number) -> bool {
        true
    }

    open spec fn sub_spec(self, rhs: &'a Number) -> Number {
        arbitrary()
    }
}

impl Mul<Number> for i64 {
    type Output = Number;

    fn mul(self, rhs: Number) -> (r: Number)
        ensures
            r@ == ratio_mul(self.number_view(), rhs@),
    {
        rational_mul(&self.into_number(), &rhs)
    }
}

impl MulSpecImpl<Number> for i64 {
    open spec fn obeys_mul_spec() -> bool {
        false
    }

    open spec fn mul_req(self, rhs: Number) -> bool {
        true
    }

    open spec fn mul_spec(self, rhs: Number) -> Number {
        arbitrary()
    }
}

impl<'a> Mul<&'a Number> for i64 {
    type Output = Number;

    fn mul(self, rhs: &'a Number) -> (r: Number)
        ensures
            r@ == ratio_mul(self.number_view(), (*rhs)@),
    {
        rational_mul(&self.into_number(), rhs)
    }
}

impl<'a> MulSpecImpl<&'a Number> for i64 {
    open spec fn obeys_mul_spec() -> bool {
        false
    }

    open spec fn mul_req(self, rhs: &'a Number) -> bool {
        true
    }

    open spec fn mul_spec(self, rhs: &'a Number) -> Number {
        arbitrary()
    }
}

impl Div<Number> for i64 {
    type Output = Number;

    fn div(self, rhs: Number) -> (r: Number)
        ensures
            r@ == ratio_div(self.number_view(), rhs@),
    {
        rational_div(&self.into_number(), &rhs)
    }
}

impl DivSpecImpl<Number> for i64 {
    open spec fn obeys_div_spec() -> bool {
        false
    }

    open spec fn div_req(self, rhs: Number) -> bool {
        rhs@.0 != 0
    }

    open spec fn div_spec(self, rhs: Number) -> Number {
        arbitrary()
    }
}

impl<'a> Div<&'a Number> for i64 {
    type Output = Number;

    fn div(self, rhs: &'a Number) -> (r: Number)
        ensures
            r@ == ratio_div(self.number_view(), (*rhs)@),
    {
        rational_div(&self.into_number(), rhs)
    }
}

impl<'a> DivSpecImpl<&'a Number> for i64 {
    open spec fn obeys_div_spec() -> bool {
        false
    }

    open spec fn div_req(self, rhs: &'a Number) -> bool {
        (*rhs)@.0 != 0
    }

    open spec fn div_spec(self, rhs: &'a Number) -> Number {
        arbitrary()
    }
}

impl Rem<Number> for i64 {
    type Output = Number;

    fn rem(self, rhs: Number) -> (r: Number)
        ensures
            r@ == ratio_rem(self.number_view(), rhs@),
    {
        rational_rem(&self.into_number(), &rhs)
    }
}

impl RemSpecImpl<Number> for i64 {
    open spec fn obeys_rem_spec() -> bool {
        false
    }

    open spec fn rem_req(self, rhs: Number) -> bool {
        rhs@.0 != 0
    }

    open spec fn rem_spec(self, rhs: Number) -> Number {
        arbitrary()
    }
}

impl<'a> Rem<&'a Number> for i64 {
    type Output = Number;

    fn rem(self, rhs: &'a Number) -> (r: Number)
        ensures
            r@ == ratio_rem(self.number_view(), (*rhs)@),
    {
        rational_rem(&self.into_number(), rhs)
    }
}

impl<'a> RemSpecImpl<&'a Number> for i64 {
    open spec fn obeys_rem_spec() -> bool {
        false
    }

    open spec fn rem_req(self, rhs: &'a Number) -> bool {
        (*rhs)@.0 != 0
    }

    open spec fn rem_spec(self, rhs: &'a Number) -> Number {
        arbitrary()
    }
}

impl Add<Number> for i128 {
    type Output = Number;

    fn add(self, rhs: Number) -> (r: Number)
        ensures
            r@ == ratio_add(self.number_view(), rhs@),
    {
        rational_add(&self.into_number(), &rhs)
    }
}

impl AddSpecImpl<Number> for i128 {
    open spec fn obeys_add_spec() -> bool {
        false
    }

    open spec fn add_req(self, rhs: Number) -> bool {
        true
    }

    open spec fn add_spec(self, rhs: Number) -> Number {
        arbitrary()
    }
}

impl<'a> Add<&'a Number> for i128 {
    type Output = Number;

    fn add(self, rhs: &'a Number) -> (r: Number)
        ensures
            r@ == ratio_add(self.number_view(), (*rhs)@),
    {
        rational_add(&self.into_number(), rhs)
    }
}

impl<'a> AddSpecImpl<&'a Number> for i128 {
    open spec fn obeys_add_spec() -> bool {
        false
    }

    open spec fn add_req(self, rhs: &'a Number) -> bool {
        true
    }

    open spec fn add_spec(self, rhs: &'a Number) -> Number {
        arbitrary()
    }
}

impl Sub<Number> for i128 {
    type Output = Number;

    fn sub(self, rhs: Number) -> (r: Number)
        ensures
            r@ == ratio_sub(self.number_view(), rhs@),
    {
        rational_sub(&self.into_number(), &rhs)
    }
}

impl SubSpecImpl<Number> for i128 {
    open spec fn obeys_sub_spec() -> bool {
        false
    }

    open spec fn sub_req(self, rhs: Number) -> bool {
        true
    }

    open spec fn sub_spec(self, rhs: Number) -> Number {
        arbitrary()
    }
}

impl<'a> Sub<&'a Number> for i128 {
    type Output = Number;

    fn sub(self, rhs: &'a Number) -> (r: Number)
        ensures
            r@ == ratio_sub(self.number_view(), (*rhs)@),
    {
        rational_sub(&self.into_number(), rhs)
    }
}

impl<'a> SubSpecImpl<&'a Number> for i128 {
    open spec fn obeys_sub_spec() -> bool {
        false
    }

    open spec fn sub_req(self, rhs: &'a Number) -> bool {
        true
    }

    open spec fn sub_spec(self, rhs: &'a Number) -> Number {
        arbitrary()
    }
}

impl Mul<Number> for i128 {
    type Output = Number;

    fn mul(self, rhs: Number) -> (r: Number)
        ensures
            r@ == ratio_mul(self.number_view(), rhs@),
    {
        rational_mul(&self.into_number(), &rhs)
    }
}

impl MulSpecImpl<Number> for i128 {
    open spec fn obeys_mul_spec() -> bool {
        false
    }

    open spec fn mul_req(self, rhs: Number) -> bool {
        true
    }

    open spec fn mul_spec(self, rhs: Number) -> Number {
        arbitrary()
    }
}

impl<'a> Mul<&'a Number> for i128 {
    type Output = Number;

    fn mul(self, rhs: &'a Number) -> (r: Number)
        ensures
            r@ == ratio_mul(self.number_view(), (*rhs)@),
    {
        rational_mul(&self.into_number(), rhs)
    }
}

impl<'a> MulSpecImpl<&'a Number> for i128 {
    open spec fn obeys_mul_spec() -> bool {
        false
    }

    open spec fn mul_req(self, rhs: &'a Number) -> bool {
        true
    }

    open spec fn mul_spec(self, rhs: &'a Number) -> Number {
        arbitrary()
    }
}

impl Div<Number> for i128 {
    type Output = Number;

    fn div(self, rhs: Number) -> (r: Number)
        ensures
            r@ == ratio_div(self.number_view(), rhs@),
    {
        rational_div(&self.into_number(), &rhs)
    }
}

impl DivSpecImpl<Number> for i128 {
    open spec fn obeys_div_spec() -> bool {
        false
    }

    open spec fn div_req(self, rhs: Number) -> bool {
        rhs@.0 != 0
    }

    open spec fn div_spec(self, rhs: Number) -> Number {
        arbitrary()
    }
}

impl<'a> Div<&'a Number> for i128 {
    type Output = Number;

    fn div(self, rhs: &'a Number) -> (r: Number)
        ensures
            r@ == ratio_div(self.number_view(), (*rhs)@),
    {
        rational_div(&self.into_number(), rhs)
    }
}

impl<'a> DivSpecImpl<&'a Number> for i128 {
    open spec fn obeys_div_spec() -> bool {
        false
    }

    open spec fn div_req(self, rhs: &'a Number) -> bool {
        (*rhs)@.0 != 0
    }

    open spec fn div_spec(self, rhs: &'a Number) -> Number {
        arbitrary()
    }
}

impl Rem<Number> for i128 {
    type Output = Number;

    fn rem(self, rhs: Number) -> (r: Number)
        ensures
            r@ == ratio_rem(self.number_view(), rhs@),
    {
        rational_rem(&self.into_number(), &rhs)
    }
}

impl RemSpecImpl<Number> for i128 {
    open spec fn obeys_rem_spec() -> bool {
        false
    }

    open spec fn rem_req(self, rhs: Number) -> bool {
        rhs@.0 != 0
    }

    open spec fn rem_spec(self, rhs: Number) -> Number {
        arbitrary()
    }
}

impl<'a> Rem<&'a Number> for i128 {
    type Output = Number;

    fn rem(self, rhs: &'a Number) -> (r: Number)
        ensures
            r@ == ratio_rem(self.number_view(), (*rhs)@),
    {
        rational_rem(&self.into_number(), rhs)
    }
}

impl<'a> RemSpecImpl<&'a Number> for i128 {
    open spec fn obeys_rem_spec() -> bool {
        false
    }

    open spec fn rem_req(self, rhs: &'a Number) -> bool {
        (*rhs)@.0 != 0
    }

    open spec fn rem_spec(self, rhs: &'a Number) -> Number {
        arbitrary()
    }
}

impl Add<Number> for isize {
    type Output = Number;

    fn add(self, rhs: Number) -> (r: Number)
        ensures
            r@ == ratio_add(self.number_view(), rhs@),
    {
        rational_add(&self.into_number(), &rhs)
    }
}

impl AddSpecImpl<Number> for isize {
    open spec fn obeys_add_spec() -> bool {
        false
    }

    open spec fn add_req(self, rhs: Number) -> bool {
        true
    }

    open spec fn add_spec(self, rhs: Number) -> Number {
        arbitrary()
    }
}

impl<'a> Add<&'a Number> for isize {
    type Output = Number;

    fn add(self, rhs: &'a Number) -> (r: Number)
        ensures
            r@ == ratio_add(self.number_view(), (*rhs)@),
    {
        rational_add(&self.into_number(), rhs)
    }
}

impl<'a> AddSpecImpl<&'a Number> for isize {
    open spec fn obeys_add_spec() -> bool {
        false
    }

    open spec fn add_req(self, rhs: &'a Number) -> bool {
        true
    }

    open spec fn add_spec(self, rhs: &'a Number) -> Number {
        arbitrary()
    }
}

impl Sub<Number> for isize {
    type Output = Number;

    fn sub(self, rhs: Number) -> (r: Number)
        ensures
            r@ == ratio_sub(self.number_view(), rhs@),
    {
        rational_sub(&self.into_number(), &rhs)
    }
}

impl SubSpecImpl<Number> for isize {
    open spec fn obeys_sub_spec() -> bool {
        false
    }

    open spec fn sub_req(self, rhs: Number) -> bool {
        true
    }

    open spec fn sub_spec(self, rhs: Number) -> Number {
        arbitrary()
    }
}

impl<'a> Sub<&'a Number> for isize {
    type Output = Number;

    fn sub(self, rhs: &'a Number) -> (r: Number)
        ensures
            r@ == ratio_sub(self.number_view(), (*rhs)@),
    {
        rational_sub(&self.into_number(), rhs)
    }
}

impl<'a> SubSpecImpl<&'a Number> for isize {
    open spec fn obeys_sub_spec() -> bool {
        false
    }

    open spec fn sub_req(self, rhs: &'a Number) -> bool {
        true
    }

    open spec fn sub_spec(self, rhs: &'a Number) -> Number {
        arbitrary()
    }
}

impl Mul<Number> for isize {
    type Output = Number;

    fn mul(self, rhs: Number) -> (r: Number)
        ensures
            r@ == ratio_mul(self.number_view(), rhs@),
    {
        rational_mul(&self.into_number(), &rhs)
    }
}

impl MulSpecImpl<Number> for isize {
    open spec fn obeys_mul_spec() -> bool {
        false
    }

    open spec fn mul_req(self, rhs: Number) -> bool {
        true
    }

    open spec fn mul_spec(self, rhs: Number) -> Number {
        arbitrary()
    }
}

impl<'a> Mul<&'a Number> for isize {
    type Output = Number;

    fn mul(self, rhs: &'a Number) -> (r: Number)
        ensures
            r@ == ratio_mul(self.number_view(), (*rhs)@),
    {
        rational_mul(&self.into_number(), rhs)
    }
}

impl<'a> MulSpecImpl<&'a Number> for isize {
    open spec fn obeys_mul_spec() -> bool {
        false
    }

    open spec fn mul_req(self, rhs: &'a Number) -> bool {
        true
    }

    open spec fn mul_spec(self, rhs: &'a Number) -> Number {
        arbitrary()
    }
}

impl Div<Number> for isize {
    type Output = Number;

    fn div(self, rhs: Number) -> (r: Number)
        ensures
            r@ == ratio_div(self.number_view(), rhs@),
    {
        rational_div(&self.into_number(), &rhs)
    }
}

impl DivSpecImpl<Number> for isize {
    open spec fn obeys_div_spec() -> bool {
        false
    }

    open spec fn div_req(self, rhs: Number) -> bool {
        rhs@.0 != 0
    }

    open spec fn div_spec(self, rhs: Number) -> Number {
        arbitrary()
    }
}

impl<'a> Div<&'a Number> for isize {
    type Output = Number;

    fn div(self, rhs: &'a Number) -> (r: Number)
        ensures
            r@ == ratio_div(self.number_view(), (*rhs)@),
    {
        rational_div(&self.into_number(), rhs)
    }
}

impl<'a> DivSpecImpl<&'a Number> for isize {
    open spec fn obeys_div_spec() -> bool {
        false
    }

    open spec fn div_req(self, rhs: &'a Number) -> bool {
        (*rhs)@.0 != 0
    }

    open spec fn div_spec(self, rhs: &'a Number) -> Number {
        arbitrary()
    }
}

impl Rem<Number> for isize {
    type Output = Number;

    fn rem(self, rhs: Number) -> (r: Number)
        ensures
            r@ == ratio_rem(self.number_view(), rhs@),
    {
        rational_rem(&self.into_number(), &rhs)
    }
}

impl RemSpecImpl<Number> for isize {
    open spec fn obeys_rem_spec() -> bool {
        false
    }

    open spec fn rem_req(self, rhs: Number) -> bool {
        rhs@.0 != 0
    }

    open spec fn rem_spec(self, rhs: Number) -> Number {
        arbitrary()
    }
}

impl<'a> Rem<&'a Number> for isize {
    type Output = Number;

    fn rem(self, rhs: &'a Number) -> (r: Number)
        ensures
            r@ == ratio_rem(self.number_view(), (*rhs)@),
    {
        rational_rem(&self.into_number(), rhs)
    }
}

impl<'a> RemSpecImpl<&'a Number> for isize {
    open spec fn obeys_rem_spec() -> bool {
        false
    }

    open spec fn rem_req(self, rhs: &'a Number) -> bool {
        (*rhs)@.0 != 0
    }

    open spec fn rem_spec(self, rhs: &'a Number) -> Number {
        arbitrary()
    }
}

impl Add<Number> for u8 {
    type Output = Number;

    fn add(self, rhs: Number) -> (r: Number)
        ensures
            r@ == ratio_add(self.number_view(), rhs@),
    {
        rational_add(&self.into_number(), &rhs)
    }
}

impl AddSpecImpl<Number> for u8 {
    open spec fn obeys_add_spec() -> bool {
        false
    }

    open spec fn add_req(self, rhs: Number) -> bool {
        true
    }

    open spec fn add_spec(self, rhs: Number) -> Number {
        arbitrary()
    }
}

impl<'a> Add<&'a Number> for u8 {
    type Output = Number;

    fn add(self, rhs: &'a Number) -> (r: Number)
        ensures
            r@ == ratio_add(self.number_view(), (*rhs)@),
    {
        rational_add(&self.into_number(), rhs)
    }
}

impl<'a> AddSpecImpl<&'a Number> for u8 {
    open spec fn obeys_add_spec() -> bool {
        false
    }

    open spec fn add_req(self, rhs: &'a Number) -> bool {
        true
    }

    open spec fn add_spec(self, rhs: &'a Number) -> Number {
        arbitrary()
    }
}

impl Sub<Number> for u8 {
    type Output = Number;

    fn sub(self, rhs: Number) -> (r: Number)
        ensures
            r@ == ratio_sub(self.number_view(), rhs@),
    {
        rational_sub(&self.into_number(), &rhs)
    }
}

impl SubSpecImpl<Number> for u8 {
    open spec fn obeys_sub_spec() -> bool {
        false
    }

    open spec fn sub_req(self, rhs: Number) -> bool {
        true
    }

    open spec fn sub_spec(self, rhs: Number) -> Number {
        arbitrary()
    }
}

impl<'a> Sub<&'a Number> for u8 {
    type Output = Number;

    fn sub(self, rhs: &'a Number) -> (r: Number)
        ensures
            r@ == ratio_sub(self.number_view(), (*rhs)@),
    {
        rational_sub(&self.into_number(), rhs)
    }
}

impl<'a> SubSpecImpl<&'a Number> for u8 {
    open spec fn obeys_sub_spec() -> bool {
        false
    }

    open spec fn sub_req(self, rhs: &'a Number) -> bool {
        true
    }

    open spec fn sub_spec(self, rhs: &'a Number) -> Number {
        arbitrary()
    }
}

impl Mul<Number> for u8 {
    type Output = Number;

    fn mul(self, rhs: Number) -> (r: Number)
        ensures
            r@ == ratio_mul(self.number_view(), rhs@),
    {
        rational_mul(&self.into_number(), &rhs)
    }
}

impl MulSpecImpl<Number> for u8 {
    open spec fn obeys_mul_spec() -> bool {
        false
    }

    open spec fn mul_req(self, rhs: Number) -> bool {
        true
    }

    open spec fn mul_spec(self, rhs: Number) -> Number {
        arbitrary()
    }
}

impl<'a> Mul<&'a Number> for u8 {
    type Output = Number;

    fn mul(self, rhs: &'a Number) -> (r: Number)
        ensures
            r@ == ratio_mul(self.number_view(), (*rhs)@),
    {
        rational_mul(&self.into_number(), rhs)
    }
}

impl<'a> MulSpecImpl<&'a Number> for u8 {
    open spec fn obeys_mul_spec() -> bool {
        false
    }

    open spec fn mul_req(self, rhs: &'a Number) -> bool {
        true
    }

    open spec fn mul_spec(self, rhs: &'a Number) -> Number {
        arbitrary()
    }
}

impl Div<Number> for u8 {
    type Output = Number;

    fn div(self, rhs: Number) -> (r: Number)
        ensures
            r@ == ratio_div(self.number_view(), rhs@),
    {
        rational_div(&self.into_number(), &rhs)
    }
}

impl DivSpecImpl<Number> for u8 {
    open spec fn obeys_div_spec() -> bool {
        false
    }

    open spec fn div_req(self, rhs: Number) -> bool {
        rhs@.0 != 0
    }

    open spec fn div_spec(self, rhs: Number) -> Number {
        arbitrary()
    }
}

impl<'a> Div<&'a Number> for u8 {
    type Output = Number;

    fn div(self, rhs: &'a Number) -> (r: Number)
        ensures
            r@ == ratio_div(self.number_view(), (*rhs)@),
    {
        rational_div(&self.into_number(), rhs)
    }
}

impl<'a> DivSpecImpl<&'a Number> for u8 {
    open spec fn obeys_div_spec() -> bool {
        false
    }

    open spec fn div_req(self, rhs: &'a Number) -> bool {
        (*rhs)@.0 != 0
    }

    open spec fn div_spec(self, rhs: &'a Number) -> Number {
        arbitrary()
    }
}

impl Rem<Number> for u8 {
    type Output = Number;

    fn rem(self, rhs: Number) -> (r: Number)
        ensures
            r@ == ratio_rem(self.number_view(), rhs@),
    {
        rational_rem(&self.into_number(), &rhs)
    }
}

impl RemSpecImpl<Number> for u8 {
    open spec fn obeys_rem_spec() -> bool {
        false
    }

    open spec fn rem_req(self, rhs: Number) -> bool {
        rhs@.0 != 0
    }

    open spec fn rem_spec(self, rhs: Number) -> Number {
        arbitrary()
    }
}

impl<'a> Rem<&'a Number> for u8 {
    type Output = Number;

    fn rem(self, rhs: &'a Number) -> (r: Number)
        ensures
            r@ == ratio_rem(self.number_view(), (*rhs)@),
    {
        rational_rem(&self.into_number(), rhs)
    }
}

impl<'a> RemSpecImpl<&'a Number> for u8 {
    open spec fn obeys_rem_spec() -> bool {
        false
    }

    open spec fn rem_req(self, rhs: &'a Number) -> bool {
        (*rhs)@.0 != 0
    }

    open spec fn rem_spec(self, rhs: &'a Number) -> Number {
        arbitrary()
    }
}

impl Add<Number> for u16 {
    type Output = Number;

    fn add(self, rhs: Number) -> (r: Number)
        ensures
            r@ == ratio_add(self.number_view(), rhs@),
    {
        rational_add(&self.into_number(), &rhs)
    }
}

impl AddSpecImpl<Number> for u16 {
    open spec fn obeys_add_spec() -> bool {
        false
    }

    open spec fn add_req(self, rhs: Number) -> bool {
        true
    }

    open spec fn add_spec(self, rhs: Number) -> Number {
        arbitrary()
    }
}

impl<'a> Add<&'a Number> for u16 {
    type Output = Number;

    fn add(self, rhs: &'a Number) -> (r: Number)
        ensures
            r@ == ratio_add(self.number_view(), (*rhs)@),
    {
        rational_add(&self.into_number(), rhs)
    }
}

impl<'a> AddSpecImpl<&'a Number> for u16 {
    open spec fn obeys_add_spec() -> bool {
        false
    }

    open spec fn add_req(self, rhs: &'a Number) -> bool {
        true
    }

    open spec fn add_spec(self, rhs: &'a Number) -> Number {
        arbitrary()
    }
}

impl Sub<Number> for u16 {
    type Output = Number;

    fn sub(self, rhs: Number) -> (r: Number)
        ensures
            r@ == ratio_sub(self.number_view(), rhs@),
    {
        rational_sub(&self.into_number(), &rhs)
    }
}

impl SubSpecImpl<Number> for u16 {
    open spec fn obeys_sub_spec() -> bool {
        false
    }

    open spec fn sub_req(self, rhs: Number) -> bool {
        true
    }

    open spec fn sub_spec(self, rhs: Number) -> Number {
        arbitrary()
    }
}

impl<'a> Sub<&'a Number> for u16 {
    type Output = Number;

    fn sub(self, rhs: &'a Number) -> (r: Number)
        ensures
            r@ == ratio_sub(self.number_view(), (*rhs)@),
    {
        rational_sub(&self.into_number(), rhs)
    }
}

impl<'a> SubSpecImpl<&'a Number> for u16 {
    open spec fn obeys_sub_spec() -> bool {
        false
    }

    open spec fn sub_req(self, rhs: &'a Number) -> bool {
        true
    }

    open spec fn sub_spec(self, rhs: &'a Number) -> Number {
        arbitrary()
    }
}

impl Mul<Number> for u16 {
    type Output = Number;

    fn mul(self, rhs: Number) -> (r: Number)
        ensures
            r@ == ratio_mul(self.number_view(), rhs@),
    {
        rational_mul(&self.into_number(), &rhs)
    }
}

impl MulSpecImpl<Number> for u16 {
    open spec fn obeys_mul_spec() -> bool {
        false
    }

    open spec fn mul_req(self, rhs: Number) -> bool {
        true
    }

    open spec fn mul_spec(self, rhs: Number) -> Number {
        arbitrary()
    }
}

impl<'a> Mul<&'a Number> for u16 {
    type Output = Number;

    fn mul(self, rhs: &'a Number) -> (r: Number)
        ensures
            r@ == ratio_mul(self.number_view(), (*rhs)@),
    {
        rational_mul(&self.into_number(), rhs)
    }
}

impl<'a> MulSpecImpl<&'a Number> for u16 {
    open spec fn obeys_mul_spec() -> bool {
        false
    }

    open spec fn mul_req(self, rhs: &'a Number) -> bool {
        true
    }

    open spec fn mul_spec(self, rhs: &'a Number) -> Number {
        arbitrary()
    }
}

impl Div<Number> for u16 {
    type Output = Number;

    fn div(self, rhs: Number) -> (r: Number)
        ensures
            r@ == ratio_div(self.number_view(), rhs@),
    {
        rational_div(&self.into_number(), &rhs)
    }
}

impl DivSpecImpl<Number> for u16 {
    open spec fn obeys_div_spec() -> bool {
        false
    }

    open spec fn div_req(self, rhs: Number) -> bool {
        rhs@.0 != 0
    }

    open spec fn div_spec(self, rhs: Number) -> Number {
        arbitrary()
    }
}

impl<'a> Div<&'a Number> for u16 {
    type Output = Number;

    fn div(self, rhs: &'a Number) -> (r: Number)
        ensures
            r@ == ratio_div(self.number_view(), (*rhs)@),
    {
        rational_div(&self.into_number(), rhs)
    }
}

impl<'a> DivSpecImpl<&'a Number> for u16 {
    open spec fn obeys_div_spec() -> bool {
        false
    }

    open spec fn div_req(self, rhs: &'a Number) -> bool {
        (*rhs)@.0 != 0
    }

    open spec fn div_spec(self, rhs: &'a Number) -> Number {
        arbitrary()
    }
}

impl Rem<Number> for u16 {
    type Output = Number;

    fn rem(self, rhs: Number) -> (r: Number)
        ensures
            r@ == ratio_rem(self.number_view(), rhs@),
    {
        rational_rem(&self.into_number(), &rhs)
    }
}

impl RemSpecImpl<Number> for u16 {
    open spec fn obeys_rem_spec() -> bool {
        false
    }

    open spec fn rem_req(self, rhs: Number) -> bool {
        rhs@.0 != 0
    }

    open spec fn rem_spec(self, rhs: Number) -> Number {
        arbitrary()
    }
}

impl<'a> Rem<&'a Number> for u16 {
    type Output = Number;

    fn rem(self, rhs: &'a Number) -> (r: Number)
        ensures
            r@ == ratio_rem(self.number_view(), (*rhs)@),
    {
        rational_rem(&self.into_number(), rhs)
    }
}

impl<'a> RemSpecImpl<&'a Number> for u16 {
    open spec fn obeys_rem_spec() -> bool {
        false
    }

    open spec fn rem_req(self, rhs: &'a Number) -> bool {
        (*rhs)@.0 != 0
    }

    open spec fn rem_spec(self, rhs: &'a Number) -> Number {
        arbitrary()
    }
}

impl Add<Number> for u32 {
    type Output = Number;

    fn add(self, rhs: Number) -> (r: Number)
        ensures
            r@ == ratio_add(self.number_view(), rhs@),
    {
        rational_add(&self.into_number(), &rhs)
    }
}

impl AddSpecImpl<Number> for u32 {
    open spec fn obeys_add_spec() -> bool {
        false
    }

    open spec fn add_req(self, rhs: Number) -> bool {
        true
    }

    open spec fn add_spec(self, rhs: Number) -> Number {
        arbitrary()
    }
}

impl<'a> Add<&'a Number> for u32 {
    type Output = Number;

    fn add(self, rhs: &'a Number) -> (r: Number)
        ensures
            r@ == ratio_add(self.number_view(), (*rhs)@),
    {
        rational_add(&self.into_number(), rhs)
    }
}

impl<'a> AddSpecImpl<&'a Number> for u32 {
    open spec fn obeys_add_spec() -> bool {
        false
    }

    open spec fn add_req(self, rhs: &'a Number) -> bool {
        true
    }

    open spec fn add_spec(self, rhs: &'a Number) -> Number {
        arbitrary()
    }
}

impl Sub<Number> for u32 {
    type Output = Number;

    fn sub(self, rhs: Number) -> (r: Number)
        ensures
            r@ == ratio_sub(self.number_view(), rhs@),
    {
        rational_sub(&self.into_number(), &rhs)
    }
}

impl SubSpecImpl<Number> for u32 {
    open spec fn obeys_sub_spec() -> bool {
        false
    }

    open spec fn sub_req(self, rhs: Number) -> bool {
        true
    }

    open spec fn sub_spec(self, rhs: Number) -> Number {
        arbitrary()
    }
}

impl<'a> Sub<&'a Number> for u32 {
    type Output = Number;

    fn sub(self, rhs: &'a Number) -> (r: Number)
        ensures
            r@ == ratio_sub(self.number_view(), (*rhs)@),
    {
        rational_sub(&self.into_number(), rhs)
    }
}

impl<'a> SubSpecImpl<&'a Number> for u32 {
    open spec fn obeys_sub_spec() -> bool {
        false
    }

    open spec fn sub_req(self, rhs: &'a Number) -> bool {
        true
    }

    open spec fn sub_spec(self, rhs: &'a Number) -> Number {
        arbitrary()
    }
}

impl Mul<Number> for u32 {
    type Output = Number;

    fn mul(self, rhs: Number) -> (r: Number)
        ensures
            r@ == ratio_mul(self.number_view(), rhs@),
    {
        rational_mul(&self.into_number(), &rhs)
    }
}

impl MulSpecImpl<Number> for u32 {
    open spec fn obeys_mul_spec() -> bool {
        false
    }

    open spec fn mul_req(self, rhs: Number) -> bool {
        true
    }

    open spec fn mul_spec(self, rhs: Number) -> Number {
        arbitrary()
    }
}

impl<'a> Mul<&'a Number> for u32 {
    type Output = Number;

    fn mul(self, rhs: &'a Number) -> (r: Number)
        ensures
            r@ == ratio_mul(self.number_view(), (*rhs)@),
    {
        rational_mul(&self.into_number(), rhs)
    }
}

impl<'a> MulSpecImpl<&'a Number> for u32 {
    open spec fn obeys_mul_spec() -> bool {
        false
    }

    open spec fn mul_req(self, rhs: &'a Number) -> bool {
        true
    }

    open spec fn mul_spec(self, rhs: &'a Number) -> Number {
        arbitrary()
    }
}

impl Div<Number> for u32 {
    type Output = Number;

    fn div(self, rhs: Number) -> (r: Number)
        ensures
            r@ == ratio_div(self.number_view(), rhs@),
    {
        rational_div(&self.into_number(), &rhs)
    }
}

impl DivSpecImpl<Number> for u32 {
    open spec fn obeys_div_spec() -> bool {
        false
    }

    open spec fn div_req(self, rhs: Number) -> bool {
        rhs@.0 != 0
    }

    open spec fn div_spec(self, rhs: Number) -> Number {
        arbitrary()
    }
}

impl<'a> Div<&'a Number> for u32 {
    type Output = Number;

    fn div(self, rhs: &'a Number) -> (r: Number)
        ensures
            r@ == ratio_div(self.number_view(), (*rhs)@),
    {
        rational_div(&self.into_number(), rhs)
    }
}

impl<'a> DivSpecImpl<&'a Number> for u32 {
    open spec fn obeys_div_spec() -> bool {
        false
    }

    open spec fn div_req(self, rhs: &'a Number) -> bool {
        (*rhs)@.0 != 0
    }

    open spec fn div_spec(self, rhs: &'a Number) -> Number {
        arbitrary()
    }
}

impl Rem<Number> for u32 {
    type Output = Number;

    fn rem(self, rhs: Number) -> (r: Number)
        ensures
            r@ == ratio_rem(self.number_view(), rhs@),
    {
        rational_rem(&self.into_number(), &rhs)
    }
}

impl RemSpecImpl<Number> for u32 {
    open spec fn obeys_rem_spec() -> bool {
        false
    }

    open spec fn rem_req(self, rhs: Number) -> bool {
        rhs@.0 != 0
    }

    open spec fn rem_spec(self, rhs: Number) -> Number {
        arbitrary()
    }
}

impl<'a> Rem<&'a Number> for u32 {
    type Output = Number;

    fn rem(self, rhs: &'a Number) -> (r: Number)
        ensures
            r@ == ratio_rem(self.number_view(), (*rhs)@),
    {
        rational_rem(&self.into_number(), rhs)
    }
}

impl<'a> RemSpecImpl<&'a Number> for u32 {
    open spec fn obeys_rem_spec() -> bool {
        false
    }

    open spec fn rem_req(self, rhs: &'a Number) -> bool {
        (*rhs)@.0 != 0
    }

    open spec fn rem_spec(self, rhs: &'a Number) -> Number {
        arbitrary()
    }
}

impl Add<Number> for u64 {
    type Output = Number;

    fn add(self, rhs: Number) -> (r: Number)
        ensures
            r@ == ratio_add(self.number_view(), rhs@),
    {
        rational_add(&self.into_number(), &rhs)
    }
}

impl AddSpecImpl<Number> for u64 {
    open spec fn obeys_add_spec() -> bool {
        false
    }

    open spec fn add_req(self, rhs: Number) -> bool {
        true
    }

    open spec fn add_spec(self, rhs: Number) -> Number {
        arbitrary()
    }
}

impl<'a> Add<&'a Number> for u64 {
    type Output = Number;

    fn add(self, rhs: &'a Number) -> (r: Number)
        ensures
            r@ == ratio_add(self.number_view(), (*rhs)@),
    {
        rational_add(&self.into_number(), rhs)
    }
}

impl<'a> AddSpecImpl<&'a Number> for u64 {
    open spec fn obeys_add_spec() -> bool {
        false
    }

    open spec fn add_req(self, rhs: &'a Number) -> bool {
        true
    }

    open spec fn add_spec(self, rhs: &'a Number) -> Number {
        arbitrary()
    }
}

impl Sub<Number> for u64 {
    type Output = Number;

    fn sub(self, rhs: Number) -> (r: Number)
        ensures
            r@ == ratio_sub(self.number_view(), rhs@),
    {
        rational_sub(&self.into_number(), &rhs)
    }
}

impl SubSpecImpl<Number> for u64 {
    open spec fn obeys_sub_spec() -> bool {
        false
    }

    open spec fn sub_req(self, rhs: Number) -> bool {
        true
    }

    open spec fn sub_spec(self, rhs: Number) -> Number {
        arbitrary()
    }
}

impl<'a> Sub<&'a Number> for u64 {
    type Output = Number;

    fn sub(self, rhs: &'a Number) -> (r: Number)
        ensures
            r@ == ratio_sub(self.number_view(), (*rhs)@),
    {
        rational_sub(&self.into_number(), rhs)
    }
}

impl<'a> SubSpecImpl<&'a Number> for u64 {
    open spec fn obeys_sub_spec() -> bool {
        false
    }

    open spec fn sub_req(self, rhs: &'a Number) -> bool {
        true
    }

    open spec fn sub_spec(self, rhs: &'a Number) -> Number {
        arbitrary()
    }
}

impl Mul<Number> for u64 {
    type Output = Number;

    fn mul(self, rhs: Number) -> (r: Number)
        ensures
            r@ == ratio_mul(self.number_view(), rhs@),
    {
        rational_mul(&self.into_number(), &rhs)
    }
}

impl MulSpecImpl<Number> for u64 {
    open spec fn obeys_mul_spec() -> bool {
        false
    }

    open spec fn mul_req(self, rhs: Number) -> bool {
        true
    }

    open spec fn mul_spec(self, rhs: Number) -> Number {
        arbitrary()
    }
}

impl<'a> Mul<&'a Number> for u64 {
    type Output = Number;

    fn mul(self, rhs: &'a Number) -> (r: Number)
        ensures
            r@ == ratio_mul(self.number_view(), (*rhs)@),
    {
        rational_mul(&self.into_number(), rhs)
    }
}

impl<'a> MulSpecImpl<&'a Number> for u64 {
    open spec fn obeys_mul_spec() -> bool {
        false
    }

    open spec fn mul_req(self, rhs: &'a Number) -> bool {
        true
    }

    open spec fn mul_spec(self, rhs: &'a Number) -> Number {
        arbitrary()
    }
}

impl Div<Number> for u64 {
    type Output = Number;

    fn div(self, rhs: Number) -> (r: Number)
        ensures
            r@ == ratio_div(self.number_view(), rhs@),
    {
        rational_div(&self.into_number(), &rhs)
    }
}

impl DivSpecImpl<Number> for u64 {
    open spec fn obeys_div_spec() -> bool {
        false
    }

    open spec fn div_req(self, rhs: Number) -> bool {
        rhs@.0 != 0
    }

    open spec fn div_spec(self, rhs: Number) -> Number {
        arbitrary()
    }
}

impl<'a> Div<&'a Number> for u64 {
    type Output = Number;

    fn div(self, rhs: &'a Number) -> (r: Number)
        ensures
            r@ == ratio_div(self.number_view(), (*rhs)@),
    {
        rational_div(&self.into_number(), rhs)
    }
}

impl<'a> DivSpecImpl<&'a Number> for u64 {
    open spec fn obeys_div_spec() -> bool {
        false
    }

    open spec fn div_req(self, rhs: &'a Number) -> bool {
        (*rhs)@.0 != 0
    }

    open spec fn div_spec(self, rhs: &'a Number) -> Number {
        arbitrary()
    }
}

impl Rem<Number> for u64 {
    type Output = Number;

    fn rem(self, rhs: Number) -> (r: Number)
        ensures
            r@ == ratio_rem(self.number_view(), rhs@),
    {
        rational_rem(&self.into_number(), &rhs)
    }
}

impl RemSpecImpl<Number> for u64 {
    open spec fn obeys_rem_spec() -> bool {
        false
    }

    open spec fn rem_req(self, rhs: Number) -> bool {
        rhs@.0 != 0
    }

    open spec fn rem_spec(self, rhs: Number) -> Number {
        arbitrary()
    }
}

impl<'a> Rem<&'a Number> for u64 {
    type Output = Number;

    fn rem(self, rhs: &'a Number) -> (r: Number)
        ensures
            r@ == ratio_rem(self.number_view(), (*rhs)@),
    {
        rational_rem(&self.into_number(), rhs)
    }
}

impl<'a> RemSpecImpl<&'a Number> for u64 {
    open spec fn obeys_rem_spec() -> bool {
        false
    }

    open spec fn rem_req(self, rhs: &'a Number) -> bool {
        (*rhs)@.0 != 0
    }

    open spec fn rem_spec(self, rhs: &'a Number) -> Number {
        arbitrary()
    }
}

impl Add<Number> for u128 {
    type Output = Number;

    fn add(self, rhs: Number) -> (r: Number)
        ensures
            r@ == ratio_add(self.number_view(), rhs@),
    {
        rational_add(&self.into_number(), &rhs)
    }
}

impl AddSpecImpl<Number> for u128 {
    open spec fn obeys_add_spec() -> bool {
        false
    }

    open spec fn add_req(self, rhs: Number) -> bool {
        true
    }

    open spec fn add_spec(self, rhs: Number) -> Number {
        arbitrary()
    }
}

impl<'a> Add<&'a Number> for u128 {
    type Output = Number;

    fn add(self, rhs: &'a Number) -> (r: Number)
        ensures
            r@ == ratio_add(self.number_view(), (*rhs)@),
    {
        rational_add(&self.into_number(), rhs)
    }
}

impl<'a> AddSpecImpl<&'a Number> for u128 {
    open spec fn obeys_add_spec() -> bool {
        false
    }

    open spec fn add_req(self, rhs: &'a Number) -> bool {
        true
    }

    open spec fn add_spec(self, rhs: &'a Number) -> Number {
        arbitrary()
    }
}

impl Sub<Number> for u128 {
    type Output = Number;

    fn sub(self, rhs: Number) -> (r: Number)
        ensures
            r@ == ratio_sub(self.number_view(), rhs@),
    {
        rational_sub(&self.into_number(), &rhs)
    }
}

impl SubSpecImpl<Number> for u128 {
    open spec fn obeys_sub_spec() -> bool {
        false
    }

    open spec fn sub_req(self, rhs: Number) -> bool {
        true
    }

    open spec fn sub_spec(self, rhs: Number) -> Number {
        arbitrary()
    }
}

impl<'a> Sub<&'a Number> for u128 {
    type Output = Number;

    fn sub(self, rhs: &'a Number) -> (r: Number)
        ensures
            r@ == ratio_sub(self.number_view(), (*rhs)@),
    {
        rational_sub(&self.into_number(), rhs)
    }
}

impl<'a> SubSpecImpl<&'a Number> for u128 {
    open spec fn obeys_sub_spec() -> bool {
        false
    }

    open spec fn sub_req(self, rhs: &'a Number) -> bool {
        true
    }

    open spec fn sub_spec(self, rhs: &'a Number) -> Number {
        arbitrary()
    }
}

impl Mul<Number> for u128 {
    type Output = Number;

    fn mul(self, rhs: Number) -> (r: Number)
        ensures
            r@ == ratio_mul(self.number_view(), rhs@),
    {
        rational_mul(&self.into_number(), &rhs)
    }
}

impl MulSpecImpl<Number> for u128 {
    open spec fn obeys_mul_spec() -> bool {
        false
    }

    open spec fn mul_req(self, rhs: Number) -> bool {
        true
    }

    open spec fn mul_spec(self, rhs: Number) -> Number {
        arbitrary()
    }
}

impl<'a> Mul<&'a Number> for u128 {
    type Output = Number;

    fn mul(self, rhs: &'a Number) -> (r: Number)
        ensures
            r@ == ratio_mul(self.number_view(), (*rhs)@),
    {
        rational_mul(&self.into_number(), rhs)
    }
}

impl<'a> MulSpecImpl<&'a Number> for u128 {
    open spec fn obeys_mul_spec() -> bool {
        false
    }

    open spec fn mul_req(self, rhs: &'a Number) -> bool {
        true
    }

    open spec fn mul_spec(self, rhs: &'a Number) -> Number {
        arbitrary()
    }
}

impl Div<Number> for u128 {
    type Output = Number;

    fn div(self, rhs: Number) -> (r: Number)
        ensures
            r@ == ratio_div(self.number_view(), rhs@),
    {
        rational_div(&self.into_number(), &rhs)
    }
}

impl DivSpecImpl<Number> for u128 {
    open spec fn obeys_div_spec() -> bool {
        false
    }

    open spec fn div_req(self, rhs: Number) -> bool {
        rhs@.0 != 0
    }

    open spec fn div_spec(self, rhs: Number) -> Number {
        arbitrary()
    }
}

impl<'a> Div<&'a Number> for u128 {
    type Output = Number;

    fn div(self, rhs: &'a Number) -> (r: Number)
        ensures
            r@ == ratio_div(self.number_view(), (*rhs)@),
    {
        rational_div(&self.into_number(), rhs)
    }
}

impl<'a> DivSpecImpl<&'a Number> for u128 {
    open spec fn obeys_div_spec() -> bool {
        false
    }

    open spec fn div_req(self, rhs: &'a Number) -> bool {
        (*rhs)@.0 != 0
    }

    open spec fn div_spec(self, rhs: &'a Number) -> Number {
        arbitrary()
    }
}

impl Rem<Number> for u128 {
    type Output = Number;

    fn rem(self, rhs: Number) -> (r: Number)
        ensures
            r@ == ratio_rem(self.number_view(), rhs@),
    {
        rational_rem(&self.into_number(), &rhs)
    }
}

impl RemSpecImpl<Number> for u128 {
    open spec fn obeys_rem_spec() -> bool {
        false
    }

    open spec fn rem_req(self, rhs: Number) -> bool {
        rhs@.0 != 0
    }

    open spec fn rem_spec(self, rhs: Number) -> Number {
        arbitrary()
    }
}

impl<'a> Rem<&'a Number> for u128 {
    type Output = Number;

    fn rem(self, rhs: &'a Number) -> (r: Number)
        ensures
            r@ == ratio_rem(self.number_view(), (*rhs)@),
    {
        rational_rem(&self.into_number(), rhs)
    }
}

impl<'a> RemSpecImpl<&'a Number> for u128 {
    open spec fn obeys_rem_spec() -> bool {
        false
    }

    open spec fn rem_req(self, rhs: &'a Number) -> bool {
        (*rhs)@.0 != 0
    }

    open spec fn rem_spec(self, rhs: &'a Number) -> Number {
        arbitrary()
    }
}

impl Add<Number> for usize {
    type Output = Number;

    fn add(self, rhs: Number) -> (r: Number)
        ensures
            r@ == ratio_add(self.number_view(), rhs@),
    {
        rational_add(&self.into_number(), &rhs)
    }
}

impl AddSpecImpl<Number> for usize {
    open spec fn obeys_add_spec() -> bool {
        false
    }

    open spec fn add_req(self, rhs: Number) -> bool {
        true
    }

    open spec fn add_spec(self, rhs: Number) -> Number {
        arbitrary()
    }
}

impl<'a> Add<&'a Number> for usize {
    type Output = Number;

    fn add(self, rhs: &'a Number) -> (r: Number)
        ensures
            r@ == ratio_add(self.number_view(), (*rhs)@),
    {
        rational_add(&self.into_number(), rhs)
    }
}

impl<'a> AddSpecImpl<&'a Number> for usize {
    open spec fn obeys_add_spec() -> bool {
        false
    }

    open spec fn add_req(self, rhs: &'a Number) -> bool {
        true
    }

    open spec fn add_spec(self, rhs: &'a Number) -> Number {
        arbitrary()
    }
}

impl Sub<Number> for usize {
    type Output = Number;

    fn sub(self, rhs: Number) -> (r: Number)
        ensures
            r@ == ratio_sub(self.number_view(), rhs@),
    {
        rational_sub(&self.into_number(), &rhs)
    }
}

impl SubSpecImpl<Number> for usize {
    open spec fn obeys_sub_spec() -> bool {
        false
    }

    open spec fn sub_req(self, rhs: Number) -> bool {
        true
    }

    open spec fn sub_spec(self, rhs: Number) -> Number {
        arbitrary()
    }
}

impl<'a> Sub<&'a Number> for usize {
    type Output = Number;

    fn sub(self, rhs: &'a Number) -> (r: Number)
        ensures
            r@ == ratio_sub(self.number_view(), (*rhs)@),
    {
        rational_sub(&self.into_number(), rhs)
    }
}

impl<'a> SubSpecImpl<&'a Number> for usize {
    open spec fn obeys_sub_spec() -> bool {
        false
    }

    open spec fn sub_req(self, rhs: &'a Number) -> bool {
        true
    }

    open spec fn sub_spec(self, rhs: &'a Number) -> Number {
        arbitrary()
    }
}

impl Mul<Number> for usize {
    type Output = Number;

    fn mul(self, rhs: Number) -> (r: Number)
        ensures
            r@ == ratio_mul(self.number_view(), rhs@),
    {
        rational_mul(&self.into_number(), &rhs)
    }
}

impl MulSpecImpl<Number> for usize {
    open spec fn obeys_mul_spec() -> bool {
        false
    }

    open spec fn mul_req(self, rhs: Number) -> bool {
        true
    }

    open spec fn mul_spec(self, rhs: Number) -> Number {
        arbitrary()
    }
}

impl<'a> Mul<&'a Number> for usize {
    type Output = Number;

    fn mul(self, rhs: &'a Number) -> (r: Number)
        ensures
            r@ == ratio_mul(self.number_view(), (*rhs)@),
    {
        rational_mul(&self.into_number(), rhs)
    }
}

impl<'a> MulSpecImpl<&'a Number> for usize {
    open spec fn obeys_mul_spec() -> bool {
        false
    }

    open spec fn mul_req(self, rhs: &'a Number) -> bool {
        true
    }

    open spec fn mul_spec(self, rhs: &'a Number) -> Number {
        arbitrary()
    }
}

impl Div<Number> for usize {
    type Output = Number;

    fn div(self, rhs: Number) -> (r: Number)
        ensures
            r@ == ratio_div(self.number_view(), rhs@),
    {
        rational_div(&self.into_number(), &rhs)
    }
}

impl DivSpecImpl<Number> for usize {
    open spec fn obeys_div_spec() -> bool {
        false
    }

    open spec fn div_req(self, rhs: Number) -> bool {
        rhs@.0 != 0
    }

    open spec fn div_spec(self, rhs: Number) -> Number {
        arbitrary()
    }
}

impl<'a> Div<&'a Number> for usize {
    type Output = Number;

    fn div(self, rhs: &'a Number) -> (r: Number)
        ensures
            r@ == ratio_div(self.number_view(), (*rhs)@),
    {
        rational_div(&self.into_number(), rhs)
    }
}

impl<'a> DivSpecImpl<&'a Number> for usize {
    open spec fn obeys_div_spec() -> bool {
        false
    }

    open spec fn div_req(self, rhs: &'a Number) -> bool {
        (*rhs)@.0 != 0
    }

    open spec fn div_spec(self, rhs: &'a Number) -> Number {
        arbitrary()
    }
}

impl Rem<Number> for usize {
    type Output = Number;

    fn rem(self, rhs: Number) -> (r: Number)
        ensures
            r@ == ratio_rem(self.number_view(), rhs@),
    {
        rational_rem(&self.into_number(), &rhs)
    }
}

impl RemSpecImpl<Number> for usize {
    open spec fn obeys_rem_spec() -> bool {
        false
    }

    open spec fn rem_req(self, rhs: Number) -> bool {
        rhs@.0 != 0
    }

    open spec fn rem_spec(self, rhs: Number) -> Number {
        arbitrary()
    }
}

impl<'a> Rem<&'a Number> for usize {
    type Output = Number;

    fn rem(self, rhs: &'a Number) -> (r: Number)
        ensures
            r@ == ratio_rem(self.number_view(), (*rhs)@),
    {
        rational_rem(&self.into_number(), rhs)
    }
}

impl<'a> RemSpecImpl<&'a Number> for usize {
    open spec fn obeys_rem_spec() -> bool {
        false
    }

    open spec fn rem_req(self, rhs: &'a Number) -> bool {
        (*rhs)@.0 != 0
    }

    open spec fn rem_spec(self, rhs: &'a Number) -> Number {
        arbitrary()
    }
}

impl Add<Number> for bool {
    type Output = Number;

    fn add(self, rhs: Number) -> (r: Number)
        ensures
            r@ == ratio_add(self.number_view(), rhs@),
    {
        rational_add(&self.into_number(), &rhs)
    }
}

impl AddSpecImpl<Number> for bool {
    open spec fn obeys_add_spec() -> bool {
        false
    }

    open spec fn add_req(self, rhs: Number) -> bool {
        true
    }

    open spec fn add_spec(self, rhs: Number) -> Number {
        arbitrary()
    }
}

impl<'a> Add<&'a Number> for bool {
    type Output = Number;

    fn add(self, rhs: &'a Number) -> (r: Number)
        ensures
            r@ == ratio_add(self.number_view(), (*rhs)@),
    {
        rational_add(&self.into_number(), rhs)
    }
}

impl<'a> AddSpecImpl<&'a Number> for bool {
    open spec fn obeys_add_spec() -> bool {
        false
    }

    open spec fn add_req(self, rhs: &'a Number) -> bool {
        true
    }

    open spec fn add_spec(self, rhs: &'a Number) -> Number {
        arbitrary()
    }
}

impl Sub<Number> for bool {
    type Output = Number;

    fn sub(self, rhs: Number) -> (r: Number)
        ensures
            r@ == ratio_sub(self.number_view(), rhs@),
    {
        rational_sub(&self.into_number(), &rhs)
    }
}

impl SubSpecImpl<Number> for bool {
    open spec fn obeys_sub_spec() -> bool {
        false
    }

    open spec fn sub_req(self, rhs: Number) -> bool {
        true
    }

    open spec fn sub_spec(self, rhs: Number) -> Number {
        arbitrary()
    }
}

impl<'a> Sub<&'a Number> for bool {
    type Output = Number;

    fn sub(self, rhs: &'a Number) -> (r: Number)
        ensures
            r@ == ratio_sub(self.number_view(), (*rhs)@),
    {
        rational_sub(&self.into_number(), rhs)
    }
}

impl<'a> SubSpecImpl<&'a Number> for bool {
    open spec fn obeys_sub_spec() -> bool {
        false
    }

    open spec fn sub_req(self, rhs: &'a Number) -> bool {
        true
    }

    open spec fn sub_spec(self, rhs: &'a Number) -> Number {
        arbitrary()
    }
}

impl Mul<Number> for bool {
    type Output = Number;

    fn mul(self, rhs: Number) -> (r: Number)
        ensures
            r@ == ratio_mul(self.number_view(), rhs@),
    {
        rational_mul(&self.into_number(), &rhs)
    }
}

impl MulSpecImpl<Number> for bool {
    open spec fn obeys_mul_spec() -> bool {
        false
    }

    open spec fn mul_req(self, rhs: Number) -> bool {
        true
    }

    open spec fn mul_spec(self, rhs: Number) -> Number {
        arbitrary()
    }
}

impl<'a> Mul<&'a Number> for bool {
    type Output = Number;

    fn mul(self, rhs: &'a Number) -> (r: Number)
        ensures
            r@ == ratio_mul(self.number_view(), (*rhs)@),
    {
        rational_mul(&self.into_number(), rhs)
    }
}

impl<'a> MulSpecImpl<&'a Number> for bool {
    open spec fn obeys_mul_spec() -> bool {
        false
    }

    open spec fn mul_req(self, rhs: &'a Number) -> bool {
        true
    }

    open spec fn mul_spec(self, rhs: &'a Number) -> Number {
        arbitrary()
    }
}

impl Div<Number> for bool {
    type Output = Number;

    fn div(self, rhs: Number) -> (r: Number)
        ensures
            r@ == ratio_div(self.number_view(), rhs@),
    {
        rational_div(&self.into_number(), &rhs)
    }
}

impl DivSpecImpl<Number> for bool {
    open spec fn obeys_div_spec() -> bool {
        false
    }

    open spec fn div_req(self, rhs: Number) -> bool {
        rhs@.0 != 0
    }

    open spec fn div_spec(self, rhs: Number) -> Number {
        arbitrary()
    }
}

impl<'a> Div<&'a Number> for bool {
    type Output = Number;

    fn div(self, rhs: &'a Number) -> (r: Number)
        ensures
            r@ == ratio_div(self.number_view(), (*rhs)@),
    {
        rational_div(&self.into_number(), rhs)
    }
}

impl<'a> DivSpecImpl<&'a Number> for bool {
    open spec fn obeys_div_spec() -> bool {
        false
    }

    open spec fn div_req(self, rhs: &'a Number) -> bool {
        (*rhs)@.0 != 0
    }

    open spec fn div_spec(self, rhs: &'a Number) -> Number {
        arbitrary()
    }
}

impl Rem<Number> for bool {
    type Output = Number;

    fn rem(self, rhs: Number) -> (r: Number)
        ensures
            r@ == ratio_rem(self.number_view(), rhs@),
    {
        rational_rem(&self.into_number(), &rhs)
    }
}

impl RemSpecImpl<Number> for bool {
    open spec fn obeys_rem_spec() -> bool {
        false
    }

    open spec fn rem_req(self, rhs: Number) -> bool {
        rhs@.0 != 0
    }

    open spec fn rem_spec(self, rhs: Number) -> Number {
        arbitrary()
    }
}

impl<'a> Rem<&'a Number> for bool {
    type Output = Number;

    fn rem(self, rhs: &'a Number) -> (r: Number)
        ensures
            r@ == ratio_rem(self.number_view(), (*rhs)@),
    {
        rational_rem(&self.into_number(), rhs)
    }
}

impl<'a> RemSpecImpl<&'a Number> for bool {
    open spec fn obeys_rem_spec() -> bool {
        false
    }

    open spec fn rem_req(self, rhs: &'a Number) -> bool {
        (*rhs)@.0 != 0
    }

    open spec fn rem_spec(self, rhs: &'a Number) -> Number {
        arbitrary()
    }
}

impl Add<Number> for Option<bool> {
    type Output = Number;

    fn add(self, rhs: Number) -> (r: Number)
        ensures
            r@ == ratio_add(self.number_view(), rhs@),
    {
        rational_add(&self.into_number(), &rhs)
    }
}

impl AddSpecImpl<Number> for Option<bool> {
    open spec fn obeys_add_spec() -> bool {
        false
    }

    open spec fn add_req(self, rhs: Number) -> bool {
        true
    }

    open spec fn add_spec(self, rhs: Number) -> Number {
        arbitrary()
    }
}

impl<'a> Add<&'a Number> for Option<bool> {
    type Output = Number;

    fn add(self, rhs: &'a Number) -> (r: Number)
        ensures
            r@ == ratio_add(self.number_view(), (*rhs)@),
    {
        rational_add(&self.into_number(), rhs)
    }
}

impl<'a> AddSpecImpl<&'a Number> for Option<bool> {
    open spec fn obeys_add_spec() -> bool {
        false
    }

    open spec fn add_req(self, rhs: &'a Number) -> bool {
        true
    }

    open spec fn add_spec(self, rhs: &'a Number) -> Number {
        arbitrary()
    }
}

impl Sub<Number> for Option<bool> {
    type Output = Number;

    fn sub(self, rhs: Number) -> (r: Number)
        ensures
            r@ == ratio_sub(self.number_view(), rhs@),
    {
        rational_sub(&self.into_number(), &rhs)
    }
}

impl SubSpecImpl<Number> for Option<bool> {
    open spec fn obeys_sub_spec() -> bool {
        false
    }

    open spec fn sub_req(self, rhs: Number) -> bool {
        true
    }

    open spec fn sub_spec(self, rhs: Number) -> Number {
        arbitrary()
    }
}

impl<'a> Sub<&'a Number> for Option<bool> {
    type Output = Number;

    fn sub(self, rhs: &'a Number) -> (r: Number)
        ensures
            r@ == ratio_sub(self.number_view(), (*rhs)@),
    {
        rational_sub(&self.into_number(), rhs)
    }
}

impl<'a> SubSpecImpl<&'a Number> for Option<bool> {
    open spec fn obeys_sub_spec() -> bool {
        false
    }

    open spec fn sub_req(self, rhs: &'a Number) -> bool {
        true
    }

    open spec fn sub_spec(self, rhs: &'a Number) -> Number {
        arbitrary()
    }
}

impl Mul<Number> for Option<bool> {
    type Output = Number;

    fn mul(self, rhs: Number) -> (r: Number)
        ensures
            r@ == ratio_mul(self.number_view(), rhs@),
    {
        rational_mul(&self.into_number(), &rhs)
    }
}

impl MulSpecImpl<Number> for Option<bool> {
    open spec fn obeys_mul_spec() -> bool {
        false
    }

    open spec fn mul_req(self, rhs: Number) -> bool {
        true
    }

    open spec fn mul_spec(self, rhs: Number) -> Number {
        arbitrary()
    }
}

impl<'a> Mul<&'a Number> for Option<bool> {
    type Output = Number;

    fn mul(self, rhs: &'a Number) -> (r: Number)
        ensures
            r@ == ratio_mul(self.number_view(), (*rhs)@),
    {
        rational_mul(&self.into_number(), rhs)
    }
}

impl<'a> MulSpecImpl<&'a Number> for Option<bool> {
    open spec fn obeys_mul_spec() -> bool {
        false
    }

    open spec fn mul_req(self, rhs: &'a Number) -> bool {
        true
    }

    open spec fn mul_spec(self, rhs: &'a Number) -> Number {
        arbitrary()
    }
}

impl Div<Number> for Option<bool> {
    type Output = Number;

    fn div(self, rhs: Number) -> (r: Number)
        ensures
            r@ == ratio_div(self.number_view(), rhs@),
    {
        rational_div(&self.into_number(), &rhs)
    }
}

impl DivSpecImpl<Number> for Option<bool> {
    open spec fn obeys_div_spec() -> bool {
        false
    }

    open spec fn div_req(self, rhs: Number) -> bool {
        rhs@.0 != 0
    }

    open spec fn div_spec(self, rhs: Number) -> Number {
        arbitrary()
    }
}

impl<'a> Div<&'a Number> for Option<bool> {
    type Output = Number;

    fn div(self, rhs: &'a Number) -> (r: Number)
        ensures
            r@ == ratio_div(self.number_view(), (*rhs)@),
    {
        rational_div(&self.into_number(), rhs)
    }
}

impl<'a> DivSpecImpl<&'a Number> for Option<bool> {
    open spec fn obeys_div_spec() -> bool {
        false
    }

    open spec fn div_req(self, rhs: &'a Number) -> bool {
        (*rhs)@.0 != 0
    }

    open spec fn div_spec(self, rhs: &'a Number) -> Number {
        arbitrary()
    }
}

impl Rem<Number> for Option<bool> {
    type Output = Number;

    fn rem(self, rhs: Number) -> (r: Number)
        ensures
            r@ == ratio_rem(self.number_view(), rhs@),
    {
        rational_rem(&self.into_number(), &rhs)
    }
}

impl RemSpecImpl<Number> for Option<bool> {
    open spec fn obeys_rem_spec() -> bool {
        false
    }

    open spec fn rem_req(self, rhs: Number) -> bool {
        rhs@.0 != 0
    }

    open spec fn rem_spec(self, rhs: Number) -> Number {
        arbitrary()
    }
}

impl<'a> Rem<&'a Number> for Option<bool> {
    type Output = Number;

    fn rem(self, rhs: &'a Number) -> (r: Number)
        ensures
            r@ == ratio_rem(self.number_view(), (*rhs)@),
    {
        rational_rem(&self.into_number(), rhs)
    }
}

impl<'a> RemSpecImpl<&'a Number> for Option<bool> {
    open spec fn obeys_rem_spec() -> bool {
        false
    }

    open spec fn rem_req(self, rhs: &'a Number) -> bool {
        (*rhs)@.0 != 0
    }

    open spec fn rem_spec(self, rhs: &'a Number) -> Number {
        arbitrary()
    }
}

} // verus!
