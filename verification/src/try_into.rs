//! Checked conversions from numbers into primitive integers.

use crate::number::Number;
use vstd::prelude::*;
use vstd::std_specs::convert::TryFromSpecImpl;

verus! {

/// A number is not an integer in the target type's range.
#[derive(Clone, Copy, Debug, PartialEq, Eq)]
pub struct TryFromNumberError;

/// The number `v` is an integer within `[lo, hi]`.
pub open spec fn is_integer_in(v: (int, nat), lo: int, hi: int) -> bool {
    v.1 == 1 && lo <= v.0 <= hi
}

/// A number made from an integer converts back to that integer in every integer type whose
/// range holds it.
pub proof fn law_integer_converts_back(v: int, lo: int, hi: int)
    requires
        lo <= v <= hi,
    ensures
        is_integer_in((v, 1nat), lo, hi),
{
}

impl Number {
    /// The number as an `i128`, when it is an integer in range.
    pub fn try_to_i128(&self) -> (r: Result<i128, TryFromNumberError>)
        ensures
            match r {
                Ok(x) => is_integer_in(self@, i128::MIN as int, i128::MAX as int) && x == self@.0,
                Err(_) => !is_integer_in(self@, i128::MIN as int, i128::MAX as int),
            },
    {
        match self.integer_magnitude() {
            None => Err(TryFromNumberError),
            Some(m) => {
                if self.is_negative_sign() {
                    if m > 0x8000_0000_0000_0000_0000_0000_0000_0000u128 {
                        Err(TryFromNumberError)
                    } else if m == 0x8000_0000_0000_0000_0000_0000_0000_0000u128 {
                        Ok(i128::MIN)
                    } else {
                        Ok(-(m as i128))
                    }
                } else if m > i128::MAX as u128 {
                    Err(TryFromNumberError)
                } else {
                    Ok(m as i128)
                }
            },
        }
    }

    /// The number as a `u128`, when it is an integer in range.
    pub fn try_to_u128(&self) -> (r: Result<u128, TryFromNumberError>)
        ensures
            match r {
                Ok(x) => is_integer_in(self@, 0, u128::MAX as int) && x == self@.0,
                Err(_) => !is_integer_in(self@, 0, u128::MAX as int),
            },
    {
        match self.integer_magnitude() {
            None => Err(TryFromNumberError),
            Some(m) => {
                if self.is_negative_sign() && m != 0 {
                    Err(TryFromNumberError)
                } else {
                    Ok(m)
                }
            },
        }
    }


    /// The number as an `i8`, when it is an integer in range.
    pub fn try_to_i8(&self) -> (r: Result<i8, TryFromNumberError>)
        ensures
            match r {
                Ok(x) => is_integer_in(self@, i8::MIN as int, i8::MAX as int) && x == self@.0,
                Err(_) => !is_integer_in(self@, i8::MIN as int, i8::MAX as int),
            },
    {
        let wide = self.try_to_i128()?;
        if wide < i8::MIN as i128 || wide > i8::MAX as i128 {
            Err(TryFromNumberError)
        } else {
            Ok(wide as i8)
        }
    }


    /// The number as an `i16`, when it is an integer in range.
    pub fn try_to_i16(&self) -> (r: Result<i16, TryFromNumberError>)
        ensures
            match r {
                Ok(x) => is_integer_in(self@, i16::MIN as int, i16::MAX as int) && x == self@.0,
                Err(_) => !is_integer_in(self@, i16::MIN as int, i16::MAX as int),
            },
    {
        let wide = self.try_to_i128()?;
        if wide < i16::MIN as i128 || wide > i16::MAX as i128 {
            Err(TryFromNumberError)
        } else {
            Ok(wide as i16)
        }
    }


    /// The number as an `i32`, when it is an integer in range.
    pub fn try_to_i32(&self) -> (r: Result<i32, TryFromNumberError>)
        ensures
            match r {
                Ok(x) => is_integer_in(self@, i32::MIN as int, i32::MAX as int) && x == self@.0,
                Err(_) => !is_integer_in(self@, i32::MIN as int, i32::MAX as int),
            },
    {
        let wide = self.try_to_i128()?;
        if wide < i32::MIN as i128 || wide > i32::MAX as i128 {
            Err(TryFromNumberError)
        } else {
            Ok(wide as i32)
        }
    }


    /// The number as an `i64`, when it is an integer in range.
    pub fn try_to_i64(&self) -> (r: Result<i64, TryFromNumberError>)
        ensures
            match r {
                Ok(x) => is_integer_in(self@, i64::MIN as int, i64::MAX as int) && x == self@.0,
                Err(_) => !is_integer_in(self@, i64::MIN as int, i64::MAX as int),
            },
    {
        let wide = self.try_to_i128()?;
        if wide < i64::MIN as i128 || wide > i64::MAX as i128 {
            Err(TryFromNumberError)
        } else {
            Ok(wide as i64)
        }
    }


    /// The number as an `isize`, when it is an integer in range.
    pub fn try_to_isize(&self) -> (r: Result<isize, TryFromNumberError>)
        ensures
            match r {
                Ok(x) => is_integer_in(self@, isize::MIN as int, isize::MAX as int) && x == self@.0,
                Err(_) => !is_integer_in(self@, isize::MIN as int, isize::MAX as int),
            },
    {
        let wide = self.try_to_i128()?;
        if wide < isize::MIN as i128 || wide > isize::MAX as i128 {
            Err(TryFromNumberError)
        } else {
            Ok(wide as isize)
        }
    }


    /// The number as an `u8`, when it is an integer in range.
    pub fn try_to_u8(&self) -> (r: Result<u8, TryFromNumberError>)
        ensures
            match r {
                Ok(x) => is_integer_in(self@, u8::MIN as int, u8::MAX as int) && x == self@.0,
                Err(_) => !is_integer_in(self@, u8::MIN as int, u8::MAX as int),
            },
    {
        let wide = self.try_to_u128()?;
        if wide < u8::MIN as u128 || wide > u8::MAX as u128 {
            Err(TryFromNumberError)
        } else {
            Ok(wide as u8)
        }
    }


    /// The number as an `u16`, when it is an integer in range.
    pub fn try_to_u16(&self) -> (r: Result<u16, TryFromNumberError>)
        ensures
            match r {
                Ok(x) => is_integer_in(self@, u16::MIN as int, u16::MAX as int) && x == self@.0,
                Err(_) => !is_integer_in(self@, u16::MIN as int, u16::MAX as int),
            },
    {
        let wide = self.try_to_u128()?;
        if wide < u16::MIN as u128 || wide > u16::MAX as u128 {
            Err(TryFromNumberError)
        } else {
            Ok(wide as u16)
        }
    }


    /// The number as an `u32`, when it is an integer in range.
    pub fn try_to_u32(&self) -> (r: Result<u32, TryFromNumberError>)
        ensures
            match r {
                Ok(x) => is_integer_in(self@, u32::MIN as int, u32::MAX as int) && x == self@.0,
                Err(_) => !is_integer_in(self@, u32::MIN as int, u32::MAX as int),
            },
    {
        let wide = self.try_to_u128()?;
        if wide < u32::MIN as u128 || wide > u32::MAX as u128 {
            Err(TryFromNumberError)
        } else {
            Ok(wide as u32)
        }
    }


    /// The number as an `u64`, when it is an integer in range.
    pub fn try_to_u64(&self) -> (r: Result<u64, TryFromNumberError>)
        ensures
            match r {
                Ok(x) => is_integer_in(self@, u64::MIN as int, u64::MAX as int) && x == self@.0,
                Err(_) => !is_integer_in(self@, u64::MIN as int, u64::MAX as int),
            },
    {
        let wide = self.try_to_u128()?;
        if wide < u64::MIN as u128 || wide > u64::MAX as u128 {
            Err(TryFromNumberError)
        } else {
            Ok(wide as u64)
        }
    }


    /// The number as an `usize`, when it is an integer in range.
    pub fn try_to_usize(&self) -> (r: Result<usize, TryFromNumberError>)
        ensures
            match r {
                Ok(x) => is_integer_in(self@, usize::MIN as int, usize::MAX as int) && x == self@.0,
                Err(_) => !is_integer_in(self@, usize::MIN as int, usize::MAX as int),
            },
    {
        let wide = self.try_to_u128()?;
        if wide < usize::MIN as u128 || wide > usize::MAX as u128 {
            Err(TryFromNumberError)
        } else {
            Ok(wide as usize)
        }
    }

}

impl<'a> TryFrom<&'a Number> for i8 {
    type Error = TryFromNumberError;

    fn try_from(value: &'a Number) -> (r: Result<i8, TryFromNumberError>)
        ensures
            match r {
                Ok(x) => is_integer_in((*value)@, i8::MIN as int, i8::MAX as int) && x == (*value)@.0,
                Err(_) => !is_integer_in((*value)@, i8::MIN as int, i8::MAX as int),
            },
    {
        value.try_to_i8()
    }
}

impl<'a> TryFromSpecImpl<&'a Number> for i8 {
    open spec fn obeys_try_from_spec() -> bool {
        false
    }

    open spec fn try_from_spec(v: &'a Number) -> Result<i8, TryFromNumberError> {
        Err(TryFromNumberError)
    }
}

impl TryFrom<Number> for i8 {
    type Error = TryFromNumberError;

    fn try_from(value: Number) -> (r: Result<i8, TryFromNumberError>)
        ensures
            match r {
                Ok(x) => is_integer_in(value@, i8::MIN as int, i8::MAX as int) && x == value@.0,
                Err(_) => !is_integer_in(value@, i8::MIN as int, i8::MAX as int),
            },
    {
        value.try_to_i8()
    }
}

impl TryFromSpecImpl<Number> for i8 {
    open spec fn obeys_try_from_spec() -> bool {
        false
    }

    open spec fn try_from_spec(v: Number) -> Result<i8, TryFromNumberError> {
        Err(TryFromNumberError)
    }
}

impl<'a> TryFrom<&'a Number> for i16 {
    type Error = TryFromNumberError;

    fn try_from(value: &'a Number) -> (r: Result<i16, TryFromNumberError>)
        ensures
            match r {
                Ok(x) => is_integer_in((*value)@, i16::MIN as int, i16::MAX as int) && x == (*value)@.0,
                Err(_) => !is_integer_in((*value)@, i16::MIN as int, i16::MAX as int),
            },
    {
        value.try_to_i16()
    }
}

impl<'a> TryFromSpecImpl<&'a Number> for i16 {
    open spec fn obeys_try_from_spec() -> bool {
        false
    }

    open spec fn try_from_spec(v: &'a Number) -> Result<i16, TryFromNumberError> {
        Err(TryFromNumberError)
    }
}

impl TryFrom<Number> for i16 {
    type Error = TryFromNumberError;

    fn try_from(value: Number) -> (r: Result<i16, TryFromNumberError>)
        ensures
            match r {
                Ok(x) => is_integer_in(value@, i16::MIN as int, i16::MAX as int) && x == value@.0,
                Err(_) => !is_integer_in(value@, i16::MIN as int, i16::MAX as int),
            },
    {
        value.try_to_i16()
    }
}

impl TryFromSpecImpl<Number> for i16 {
    open spec fn obeys_try_from_spec() -> bool {
        false
    }

    open spec fn try_from_spec(v: Number) -> Result<i16, TryFromNumberError> {
        Err(TryFromNumberError)
    }
}

impl<'a> TryFrom<&'a Number> for i32 {
    type Error = TryFromNumberError;

    fn try_from(value: &'a Number) -> (r: Result<i32, TryFromNumberError>)
        ensures
            match r {
                Ok(x) => is_integer_in((*value)@, i32::MIN as int, i32::MAX as int) && x == (*value)@.0,
                Err(_) => !is_integer_in((*value)@, i32::MIN as int, i32::MAX as int),
            },
    {
        value.try_to_i32()
    }
}

impl<'a> TryFromSpecImpl<&'a Number> for i32 {
    open spec fn obeys_try_from_spec() -> bool {
        false
    }

    open spec fn try_from_spec(v: &'a Number) -> Result<i32, TryFromNumberError> {
        Err(TryFromNumberError)
    }
}

impl TryFrom<Number> for i32 {
    type Error = TryFromNumberError;

    fn try_from(value: Number) -> (r: Result<i32, TryFromNumberError>)
        ensures
            match r {
                Ok(x) => is_integer_in(value@, i32::MIN as int, i32::MAX as int) && x == value@.0,
                Err(_) => !is_integer_in(value@, i32::MIN as int, i32::MAX as int),
            },
    {
        value.try_to_i32()
    }
}

impl TryFromSpecImpl<Number> for i32 {
    open spec fn obeys_try_from_spec() -> bool {
        false
    }

    open spec fn try_from_spec(v: Number) -> Result<i32, TryFromNumberError> {
        Err(TryFromNumberError)
    }
}

impl<'a> TryFrom<&'a Number> for i64 {
    type Error = TryFromNumberError;

    fn try_from(value: &'a Number) -> (r: Result<i64, TryFromNumberError>)
        ensures
            match r {
                Ok(x) => is_integer_in((*value)@, i64::MIN as int, i64::MAX as int) && x == (*value)@.0,
                Err(_) => !is_integer_in((*value)@, i64::MIN as int, i64::MAX as int),
            },
    {
        value.try_to_i64()
    }
}

impl<'a> TryFromSpecImpl<&'a Number> for i64 {
    open spec fn obeys_try_from_spec() -> bool {
        false
    }

    open spec fn try_from_spec(v: &'a Number) -> Result<i64, TryFromNumberError> {
        Err(TryFromNumberError)
    }
}

impl TryFrom<Number> for i64 {
    type Error = TryFromNumberError;

    fn try_from(value: Number) -> (r: Result<i64, TryFromNumberError>)
        ensures
            match r {
                Ok(x) => is_integer_in(value@, i64::MIN as int, i64::MAX as int) && x == value@.0,
                Err(_) => !is_integer_in(value@, i64::MIN as int, i64::MAX as int),
            },
    {
        value.try_to_i64()
    }
}

impl TryFromSpecImpl<Number> for i64 {
    open spec fn obeys_try_from_spec() -> bool {
        false
    }

    open spec fn try_from_spec(v: Number) -> Result<i64, TryFromNumberError> {
        Err(TryFromNumberError)
    }
}

impl<'a> TryFrom<&'a Number> for isize {
    type Error = TryFromNumberError;

    fn try_from(value: &'a Number) -> (r: Result<isize, TryFromNumberError>)
        ensures
            match r {
                Ok(x) => is_integer_in((*value)@, isize::MIN as int, isize::MAX as int) && x == (*value)@.0,
                Err(_) => !is_integer_in((*value)@, isize::MIN as int, isize::MAX as int),
            },
    {
        value.try_to_isize()
    }
}

impl<'a> TryFromSpecImpl<&'a Number> for isize {
    open spec fn obeys_try_from_spec() -> bool {
        false
    }

    open spec fn try_from_spec(v: &'a Number) -> Result<isize, TryFromNumberError> {
        Err(TryFromNumberError)
    }
}

impl TryFrom<Number> for isize {
    type Error = TryFromNumberError;

    fn try_from(value: Number) -> (r: Result<isize, TryFromNumberError>)
        ensures
            match r {
                Ok(x) => is_integer_in(value@, isize::MIN as int, isize::MAX as int) && x == value@.0,
                Err(_) => !is_integer_in(value@, isize::MIN as int, isize::MAX as int),
            },
    {
        value.try_to_isize()
    }
}

impl TryFromSpecImpl<Number> for isize {
    open spec fn obeys_try_from_spec() -> bool {
        false
    }

    open spec fn try_from_spec(v: Number) -> Result<isize, TryFromNumberError> {
        Err(TryFromNumberError)
    }
}

impl<'a> TryFrom<&'a Number> for u8 {
    type Error = TryFromNumberError;

    fn try_from(value: &'a Number) -> (r: Result<u8, TryFromNumberError>)
        ensures
            match r {
                Ok(x) => is_integer_in((*value)@, u8::MIN as int, u8::MAX as int) && x == (*value)@.0,
                Err(_) => !is_integer_in((*value)@, u8::MIN as int, u8::MAX as int),
            },
    {
        value.try_to_u8()
    }
}

impl<'a> TryFromSpecImpl<&'a Number> for u8 {
    open spec fn obeys_try_from_spec() -> bool {
        false
    }

    open spec fn try_from_spec(v: &'a Number) -> Result<u8, TryFromNumberError> {
        Err(TryFromNumberError)
    }
}

impl TryFrom<Number> for u8 {
    type Error = TryFromNumberError;

    fn try_from(value: Number) -> (r: Result<u8, TryFromNumberError>)
        ensures
            match r {
                Ok(x) => is_integer_in(value@, u8::MIN as int, u8::MAX as int) && x == value@.0,
                Err(_) => !is_integer_in(value@, u8::MIN as int, u8::MAX as int),
            },
    {
        value.try_to_u8()
    }
}

impl TryFromSpecImpl<Number> for u8 {
    open spec fn obeys_try_from_spec() -> bool {
        false
    }

    open spec fn try_from_spec(v: Number) -> Result<u8, TryFromNumberError> {
        Err(TryFromNumberError)
    }
}

impl<'a> TryFrom<&'a Number> for u16 {
    type Error = TryFromNumberError;

    fn try_from(value: &'a Number) -> (r: Result<u16, TryFromNumberError>)
        ensures
            match r {
                Ok(x) => is_integer_in((*value)@, u16::MIN as int, u16::MAX as int) && x == (*value)@.0,
                Err(_) => !is_integer_in((*value)@, u16::MIN as int, u16::MAX as int),
            },
    {
        value.try_to_u16()
    }
}

impl<'a> TryFromSpecImpl<&'a Number> for u16 {
    open spec fn obeys_try_from_spec() -> bool {
        false
    }

    open spec fn try_from_spec(v: &'a Number) -> Result<u16, TryFromNumberError> {
        Err(TryFromNumberError)
    }
}

impl TryFrom<Number> for u16 {
    type Error = TryFromNumberError;

    fn try_from(value: Number) -> (r: Result<u16, TryFromNumberError>)
        ensures
            match r {
                Ok(x) => is_integer_in(value@, u16::MIN as int, u16::MAX as int) && x == value@.0,
                Err(_) => !is_integer_in(value@, u16::MIN as int, u16::MAX as int),
            },
    {
        value.try_to_u16()
    }
}

impl TryFromSpecImpl<Number> for u16 {
    open spec fn obeys_try_from_spec() -> bool {
        false
    }

    open spec fn try_from_spec(v: Number) -> Result<u16, TryFromNumberError> {
        Err(TryFromNumberError)
    }
}

impl<'a> TryFrom<&'a Number> for u32 {
    type Error = TryFromNumberError;

    fn try_from(value: &'a Number) -> (r: Result<u32, TryFromNumberError>)
        ensures
            match r {
                Ok(x) => is_integer_in((*value)@, u32::MIN as int, u32::MAX as int) && x == (*value)@.0,
                Err(_) => !is_integer_in((*value)@, u32::MIN as int, u32::MAX as int),
            },
    {
        value.try_to_u32()
    }
}

impl<'a> TryFromSpecImpl<&'a Number> for u32 {
    open spec fn obeys_try_from_spec() -> bool {
        false
    }

    open spec fn try_from_spec(v: &'a Number) -> Result<u32, TryFromNumberError> {
        Err(TryFromNumberError)
    }
}

impl TryFrom<Number> for u32 {
    type Error = TryFromNumberError;

    fn try_from(value: Number) -> (r: Result<u32, TryFromNumberError>)
        ensures
            match r {
                Ok(x) => is_integer_in(value@, u32::MIN as int, u32::MAX as int) && x == value@.0,
                Err(_) => !is_integer_in(value@, u32::MIN as int, u32::MAX as int),
            },
    {
        value.try_to_u32()
    }
}

impl TryFromSpecImpl<Number> for u32 {
    open spec fn obeys_try_from_spec() -> bool {
        false
    }

    open spec fn try_from_spec(v: Number) -> Result<u32, TryFromNumberError> {
        Err(TryFromNumberError)
    }
}

impl<'a> TryFrom<&'a Number> for u64 {
    type Error = TryFromNumberError;

    fn try_from(value: &'a Number) -> (r: Result<u64, TryFromNumberError>)
        ensures
            match r {
                Ok(x) => is_integer_in((*value)@, u64::MIN as int, u64::MAX as int) && x == (*value)@.0,
                Err(_) => !is_integer_in((*value)@, u64::MIN as int, u64::MAX as int),
            },
    {
        value.try_to_u64()
    }
}

impl<'a> TryFromSpecImpl<&'a Number> for u64 {
    open spec fn obeys_try_from_spec() -> bool {
        false
    }

    open spec fn try_from_spec(v: &'a Number) -> Result<u64, TryFromNumberError> {
        Err(TryFromNumberError)
    }
}

impl TryFrom<Number> for u64 {
    type Error = TryFromNumberError;

    fn try_from(value: Number) -> (r: Result<u64, TryFromNumberError>)
        ensures
            match r {
                Ok(x) => is_integer_in(value@, u64::MIN as int, u64::MAX as int) && x == value@.0,
                Err(_) => !is_integer_in(value@, u64::MIN as int, u64::MAX as int),
            },
    {
        value.try_to_u64()
    }
}

impl TryFromSpecImpl<Number> for u64 {
    open spec fn obeys_try_from_spec() -> bool {
        false
    }

    open spec fn try_from_spec(v: Number) -> Result<u64, TryFromNumberError> {
        Err(TryFromNumberError)
    }
}

impl<'a> TryFrom<&'a Number> for usize {
    type Error = TryFromNumberError;

    fn try_from(value: &'a Number) -> (r: Result<usize, TryFromNumberError>)
        ensures
            match r {
                Ok(x) => is_integer_in((*value)@, usize::MIN as int, usize::MAX as int) && x == (*value)@.0,
                Err(_) => !is_integer_in((*value)@, usize::MIN as int, usize::MAX as int),
            },
    {
        value.try_to_usize()
    }
}

impl<'a> TryFromSpecImpl<&'a Number> for usize {
    open spec fn obeys_try_from_spec() -> bool {
        false
    }

    open spec fn try_from_spec(v: &'a Number) -> Result<usize, TryFromNumberError> {
        Err(TryFromNumberError)
    }
}

impl TryFrom<Number> for usize {
    type Error = TryFromNumberError;

    fn try_from(value: Number) -> (r: Result<usize, TryFromNumberError>)
        ensures
            match r {
                Ok(x) => is_integer_in(value@, usize::MIN as int, usize::MAX as int) && x == value@.0,
                Err(_) => !is_integer_in(value@, usize::MIN as int, usize::MAX as int),
            },
    {
        value.try_to_usize()
    }
}

impl TryFromSpecImpl<Number> for usize {
    open spec fn obeys_try_from_spec() -> bool {
        false
    }

    open spec fn try_from_spec(v: Number) -> Result<usize, TryFromNumberError> {
        Err(TryFromNumberError)
    }
}

impl<'a> TryFrom<&'a Number> for i128 {
    type Error = TryFromNumberError;

    fn try_from(value: &'a Number) -> (r: Result<i128, TryFromNumberError>)
        ensures
            match r {
                Ok(x) => is_integer_in((*value)@, i128::MIN as int, i128::MAX as int) && x == (*value)@.0,
                Err(_) => !is_integer_in((*value)@, i128::MIN as int, i128::MAX as int),
            },
    {
        value.try_to_i128()
    }
}

impl<'a> TryFromSpecImpl<&'a Number> for i128 {
    open spec fn obeys_try_from_spec() -> bool {
        false
    }

    open spec fn try_from_spec(v: &'a Number) -> Result<i128, TryFromNumberError> {
        Err(TryFromNumberError)
    }
}

impl TryFrom<Number> for i128 {
    type Error = TryFromNumberError;

    fn try_from(value: Number) -> (r: Result<i128, TryFromNumberError>)
        ensures
            match r {
                Ok(x) => is_integer_in(value@, i128::MIN as int, i128::MAX as int) && x == value@.0,
                Err(_) => !is_integer_in(value@, i128::MIN as int, i128::MAX as int),
            },
    {
        value.try_to_i128()
    }
}

impl TryFromSpecImpl<Number> for i128 {
    open spec fn obeys_try_from_spec() -> bool {
        false
    }

    open spec fn try_from_spec(v: Number) -> Result<i128, TryFromNumberError> {
        Err(TryFromNumberError)
    }
}

impl<'a> TryFrom<&'a Number> for u128 {
    type Error = TryFromNumberError;

    fn try_from(value: &'a Number) -> (r: Result<u128, TryFromNumberError>)
        ensures
            match r {
                Ok(x) => is_integer_in((*value)@, u128::MIN as int, u128::MAX as int) && x == (*value)@.0,
                Err(_) => !is_integer_in((*value)@, u128::MIN as int, u128::MAX as int),
            },
    {
        value.try_to_u128()
    }
}

impl<'a> TryFromSpecImpl<&'a Number> for u128 {
    open spec fn obeys_try_from_spec() -> bool {
        false
    }

    open spec fn try_from_spec(v: &'a Number) -> Result<u128, TryFromNumberError> {
        Err(TryFromNumberError)
    }
}

impl TryFrom<Number> for u128 {
    type Error = TryFromNumberError;

    fn try_from(value: Number) -> (r: Result<u128, TryFromNumberError>)
        ensures
            match r {
                Ok(x) => is_integer_in(value@, u128::MIN as int, u128::MAX as int) && x == value@.0,
                Err(_) => !is_integer_in(value@, u128::MIN as int, u128::MAX as int),
            },
    {
        value.try_to_u128()
    }
}

impl TryFromSpecImpl<Number> for u128 {
    open spec fn obeys_try_from_spec() -> bool {
        false
    }

    open spec fn try_from_spec(v: Number) -> Result<u128, TryFromNumberError> {
        Err(TryFromNumberError)
    }
}

} // verus!
