//! Exact conversions into numbers: `From` for the primitive integers, booleans and
//! references, and the operand conversion that the arithmetic operators use.

use crate::number::Number;
use crate::ops::IntoNumber;
use vstd::prelude::*;
use vstd::std_specs::convert::FromSpecImpl;

verus! {

/// The value that a boolean state stands for: `1` for true, `-1` for false.
pub open spec fn bool_view(value: bool) -> (int, nat) {
    if value {
        (1, 1)
    } else {
        (-1, 1)
    }
}

/// The value that an optional boolean state stands for: `0` when absent.
pub open spec fn option_bool_view(value: Option<bool>) -> (int, nat) {
    match value {
        Some(b) => bool_view(b),
        None => (0, 1),
    }
}

impl From<i8> for Number {
    fn from(value: i8) -> (r: Self)
        ensures
            r@ == (value as int, 1nat),
    {
        Self::new_i8(value)
    }
}

impl FromSpecImpl<i8> for Number {
    open spec fn obeys_from_spec() -> bool {
        false
    }

    open spec fn from_spec(v: i8) -> Number {
        arbitrary()
    }
}

impl IntoNumber for i8 {
    open spec fn number_view(&self) -> (int, nat) {
        (*self as int, 1)
    }

    fn into_number(self) -> (r: Number) {
        Number::new_i8(self)
    }
}

impl From<i16> for Number {
    fn from(value: i16) -> (r: Self)
        ensures
            r@ == (value as int, 1nat),
    {
        Self::new_i16(value)
    }
}

impl FromSpecImpl<i16> for Number {
    open spec fn obeys_from_spec() -> bool {
        false
    }

    open spec fn from_spec(v: i16) -> Number {
        arbitrary()
    }
}

impl IntoNumber for i16 {
    open spec fn number_view(&self) -> (int, nat) {
        (*self as int, 1)
    }

    fn into_number(self) -> (r: Number) {
        Number::new_i16(self)
    }
}

impl From<i32> for Number {
    fn from(value: i32) -> (r: Self)
        ensures
            r@ == (value as int, 1nat),
    {
        Self::new_i32(value)
    }
}

impl FromSpecImpl<i32> for Number {
    open spec fn obeys_from_spec() -> bool {
        false
    }

    open spec fn from_spec(v: i32) -> Number {
        arbitrary()
    }
}

impl IntoNumber for i32 {
    open spec fn number_view(&self) -> (int, nat) {
        (*self as int, 1)
    }

    fn into_number(self) -> (r: Number) {
        Number::new_i32(self)
    }
}

impl From<i64> for Number {
    fn from(value: i64) -> (r: Self)
        ensures
            r@ == (value as int, 1nat),
    {
        Self::new_i64(value)
    }
}

impl FromSpecImpl<i64> for Number {
    open spec fn obeys_from_spec() -> bool {
        false
    }

    open spec fn from_spec(v: i64) -> Number {
        arbitrary()
    }
}

impl IntoNumber for i64 {
    open spec fn number_view(&self) -> (int, nat) {
        (*self as int, 1)
    }

    fn into_number(self) -> (r: Number) {
        Number::new_i64(self)
    }
}

impl From<i128> for Number {
    fn from(value: i128) -> (r: Self)
        ensures
            r@ == (value as int, 1nat),
    {
        Self::new_i128(value)
    }
}

impl FromSpecImpl<i128> for Number {
    open spec fn obeys_from_spec() -> bool {
        false
    }

    open spec fn from_spec(v: i128) -> Number {
        arbitrary()
    }
}

impl IntoNumber for i128 {
    open spec fn number_view(&self) -> (int, nat) {
        (*self as int, 1)
    }

    fn into_number(self) -> (r: Number) {
        Number::new_i128(self)
    }
}

impl From<isize> for Number {
    fn from(value: isize) -> (r: Self)
        ensures
            r@ == (value as int, 1nat),
    {
        Self::new_isize(value)
    }
}

impl FromSpecImpl<isize> for Number {
    open spec fn obeys_from_spec() -> bool {
        false
    }

    open spec fn from_spec(v: isize) -> Number {
        arbitrary()
    }
}

impl IntoNumber for isize {
    open spec fn number_view(&self) -> (int, nat) {
        (*self as int, 1)
    }

    fn into_number(self) -> (r: Number) {
        Number::new_isize(self)
    }
}

impl From<u8> for Number {
    fn from(value: u8) -> (r: Self)
        ensures
            r@ == (value as int, 1nat),
    {
        Self::new_u8(value)
    }
}

impl FromSpecImpl<u8> for Number {
    open spec fn obeys_from_spec() -> bool {
        false
    }

    open spec fn from_spec(v: u8) -> Number {
        arbitrary()
    }
}

impl IntoNumber for u8 {
    open spec fn number_view(&self) -> (int, nat) {
        (*self as int, 1)
    }

    fn into_number(self) -> (r: Number) {
        Number::new_u8(self)
    }
}

impl From<u16> for Number {
    fn from(value: u16) -> (r: Self)
        ensures
            r@ == (value as int, 1nat),
    {
        Self::new_u16(value)
    }
}

impl FromSpecImpl<u16> for Number {
    open spec fn obeys_from_spec() -> bool {
        false
    }

    open spec fn from_spec(v: u16) -> Number {
        arbitrary()
    }
}

impl IntoNumber for u16 {
    open spec fn number_view(&self) -> (int, nat) {
        (*self as int, 1)
    }

    fn into_number(self) -> (r: Number) {
        Number::new_u16(self)
    }
}

impl From<u32> for Number {
    fn from(value: u32) -> (r: Self)
        ensures
            r@ == (value as int, 1nat),
    {
        Self::new_u32(value)
    }
}

impl FromSpecImpl<u32> for Number {
    open spec fn obeys_from_spec() -> bool {
        false
    }

    open spec fn from_spec(v: u32) -> Number {
        arbitrary()
    }
}

impl IntoNumber for u32 {
    open spec fn number_view(&self) -> (int, nat) {
        (*self as int, 1)
    }

    fn into_number(self) -> (r: Number) {
        Number::new_u32(self)
    }
}

impl From<u64> for Number {
    fn from(value: u64) -> (r: Self)
        ensures
            r@ == (value as int, 1nat),
    {
        Self::new_u64(value)
    }
}

impl FromSpecImpl<u64> for Number {
    open spec fn obeys_from_spec() -> bool {
        false
    }

    open spec fn from_spec(v: u64) -> Number {
        arbitrary()
    }
}

impl IntoNumber for u64 {
    open spec fn number_view(&self) -> (int, nat) {
        (*self as int, 1)
    }

    fn into_number(self) -> (r: Number) {
        Number::new_u64(self)
    }
}

impl From<u128> for Number {
    fn from(value: u128) -> (r: Self)
        ensures
            r@ == (value as int, 1nat),
    {
        Self::new_u128(value)
    }
}

impl FromSpecImpl<u128> for Number {
    open spec fn obeys_from_spec() -> bool {
        false
    }

    open spec fn from_spec(v: u128) -> Number {
        arbitrary()
    }
}

impl IntoNumber for u128 {
    open spec fn number_view(&self) -> (int, nat) {
        (*self as int, 1)
    }

    fn into_number(self) -> (r: Number) {
        Number::new_u128(self)
    }
}

impl From<usize> for Number {
    fn from(value: usize) -> (r: Self)
        ensures
            r@ == (value as int, 1nat),
    {
        Self::new_usize(value)
    }
}

impl FromSpecImpl<usize> for Number {
    open spec fn obeys_from_spec() -> bool {
        false
    }

    open spec fn from_spec(v: usize) -> Number {
        arbitrary()
    }
}

impl IntoNumber for usize {
    open spec fn number_view(&self) -> (int, nat) {
        (*self as int, 1)
    }

    fn into_number(self) -> (r: Number) {
        Number::new_usize(self)
    }
}

impl From<bool> for Number {
    fn from(value: bool) -> (r: Self)
        ensures
            r@ == bool_view(value),
    {
        if value {
            Self::new_i64(1)
        } else {
            Self::new_i64(-1)
        }
    }
}

impl FromSpecImpl<bool> for Number {
    open spec fn obeys_from_spec() -> bool {
        false
    }

    open spec fn from_spec(v: bool) -> Number {
        arbitrary()
    }
}

impl IntoNumber for bool {
    open spec fn number_view(&self) -> (int, nat) {
        bool_view(*self)
    }

    fn into_number(self) -> (r: Number) {
        Number::from(self)
    }
}

impl From<Option<bool>> for Number {
    fn from(value: Option<bool>) -> (r: Self)
        ensures
            r@ == option_bool_view(value),
    {
        match value {
            Some(value) => Self::from(value),
            None => Self::new_i64(0),
        }
    }
}

impl FromSpecImpl<Option<bool>> for Number {
    open spec fn obeys_from_spec() -> bool {
        false
    }

    open spec fn from_spec(v: Option<bool>) -> Number {
        arbitrary()
    }
}

impl IntoNumber for Option<bool> {
    open spec fn number_view(&self) -> (int, nat) {
        option_bool_view(*self)
    }

    fn into_number(self) -> (r: Number) {
        Number::from(self)
    }
}

impl<'a> From<&'a Number> for Number {
    fn from(value: &'a Number) -> (r: Self)
        ensures
            r@ == value@,
    {
        value.clone()
    }
}

impl<'a> FromSpecImpl<&'a Number> for Number {
    open spec fn obeys_from_spec() -> bool {
        false
    }

    open spec fn from_spec(v: &'a Number) -> Number {
        *v
    }
}

} // verus!
