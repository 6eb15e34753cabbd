//! The exact rational number type and its constructors from primitive integers.

use crate::natural::{canonical_limbs, lemma_canonical_limbs_lower_bound, lemma_limbs_value_pair, limb_radix, lemma_canonical_limbs_unique, lemma_limbs_value_small, lemma_canonical_limbs_positive, limbs_value};
use crate::malachite::{rational_from_signeds_i128, rational_from_signeds_i64, rational_pow};
use crate::ratio::{ratio_of, ratio_pow, abs, is_lowest_terms, lemma_gcd_one_right, ratio_neg};
use vstd::prelude::*;

verus! {

/// An exact rational number of arbitrary size.
///
/// It is held in lowest terms: a sign, the magnitude of the numerator and the positive
/// denominator, each as little-endian `u64` limbs without a most significant zero limb.
/// Zero is `0/1` and is never negative.
#[derive(Debug, Hash)]
pub struct Number {
    pub(crate) negative: bool,
    pub(crate) numerator: Vec<u64>,
    pub(crate) denominator: Vec<u64>,
}

impl View for Number {
    /// The numerator and the denominator.
    type V = (int, nat);

    closed spec fn view(&self) -> (int, nat) {
        let magnitude = limbs_value(self.numerator@) as int;
        (if self.negative { -magnitude } else { magnitude }, limbs_value(self.denominator@))
    }
}

/// `2^64`, the radix of one limb, as a `u128`.
pub(crate) const LIMB_RADIX: u128 = 0x1_0000_0000_0000_0000u128;

impl Clone for Number {
    fn clone(&self) -> (r: Self)
        ensures
            r@ == self@,
    {
        proof {
            use_type_invariant(self);
        }
        let numerator = self.numerator.clone();
        let denominator = self.denominator.clone();
        proof {
            assert(numerator@ =~= self.numerator@);
            assert(denominator@ =~= self.denominator@);
        }
        Number { negative: self.negative, numerator, denominator }
    }
}

/// Whether two limb vectors hold the same limbs.
fn limbs_equal(a: &Vec<u64>, b: &Vec<u64>) -> (r: bool)
    ensures
        r == (a@ == b@),
{
    if a.len() != b.len() {
        return false;
    }
    let mut i: usize = 0;
    while i < a.len()
        invariant
            a.len() == b.len(),
            i <= a.len(),
            forall|j: int| 0 <= j < i ==> a@[j] == b@[j],
        decreases a.len() - i,
    {
        if a[i] != b[i] {
            return false;
        }
        i = i + 1;
    }
    assert(a@ =~= b@);
    true
}

impl PartialEq for Number {
    fn eq(&self, other: &Self) -> (r: bool) {
        proof {
            use_type_invariant(self);
            use_type_invariant(other);
            if self@ == other@ {
                lemma_canonical_limbs_unique(self.numerator@, other.numerator@);
                lemma_canonical_limbs_unique(self.denominator@, other.denominator@);
            }
        }
        self.negative == other.negative && limbs_equal(&self.numerator, &other.numerator)
            && limbs_equal(&self.denominator, &other.denominator)
    }
}

impl vstd::std_specs::cmp::PartialEqSpecImpl for Number {
    open spec fn obeys_eq_spec() -> bool {
        true
    }

    open spec fn eq_spec(&self, other: &Self) -> bool {
        self@ == other@
    }
}

impl Eq for Number {
}

impl Number {
    /// The representation is canonical and the ratio is in lowest terms.
    #[verifier::type_invariant]
    pub closed spec fn is_valid(&self) -> bool {
        &&& canonical_limbs(self.numerator@)
        &&& canonical_limbs(self.denominator@)
        &&& is_lowest_terms(self@.0, self@.1)
        &&& (self.negative ==> limbs_value(self.numerator@) > 0)
    }

    /// The fields that the derived `Hash` reads: the sign and the limbs of the numerator and
    /// the denominator.
    pub closed spec fn representation(&self) -> (bool, Seq<u64>, Seq<u64>) {
        (self.negative, self.numerator@, self.denominator@)
    }

    /// Equal numbers have the same representation, so the derived `Hash` agrees with `==`.
    pub proof fn law_equal_numbers_share_representation(a: Number, b: Number)
        requires
            a.is_valid(),
            b.is_valid(),
            a@ == b@,
        ensures
            a.representation() == b.representation(),
    {
        lemma_canonical_limbs_unique(a.numerator@, b.numerator@);
        lemma_canonical_limbs_unique(a.denominator@, b.denominator@);
    }

    /// A valid number is a ratio in lowest terms.
    pub proof fn lemma_valid(&self)
        requires
            self.is_valid(),
        ensures
            is_lowest_terms(self@.0, self@.1),
            self@.1 > 0,
    {
    }

    /// Limbs of a `u64` magnitude.
    fn limbs_of_u64(m: u64) -> (r: Vec<u64>)
        ensures
            canonical_limbs(r@),
            limbs_value(r@) == m,
    {
        let mut r: Vec<u64> = Vec::new();
        proof {
            lemma_limbs_value_small(m);
        }
        if m != 0 {
            r.push(m);
            assert(r@ =~= seq![m]);
        } else {
            assert(r@ =~= Seq::<u64>::empty());
        }
        r
    }

    /// Limbs of a `u128` magnitude.
    fn limbs_of_u128(m: u128) -> (r: Vec<u64>)
        ensures
            canonical_limbs(r@),
            limbs_value(r@) == m,
    {
        let lo = (m % LIMB_RADIX) as u64;
        let hi = (m / LIMB_RADIX) as u64;
        if hi == 0 {
            Self::limbs_of_u64(lo)
        } else {
            let mut r: Vec<u64> = Vec::new();
            r.push(lo);
            r.push(hi);
            proof {
                assert(r@.drop_first() =~= seq![hi]);
                lemma_limbs_value_small(hi);
            }
            r
        }
    }

    /// The number `±magnitude / 1`, negative only when `negative` holds and the magnitude is
    /// not zero.
    fn integer_from_parts(negative: bool, numerator: Vec<u64>) -> (r: Self)
        requires
            canonical_limbs(numerator@),
        ensures
            r@ == (if negative { -(limbs_value(numerator@) as int) } else {
                limbs_value(numerator@) as int
            }, 1nat),
    {
        let negative = negative && numerator.len() > 0;
        proof {
            if numerator.len() > 0 {
                lemma_canonical_limbs_positive(numerator@);
            }
            assert(numerator.len() == 0 ==> numerator@ =~= Seq::<u64>::empty());
            lemma_gcd_one_right(limbs_value(numerator@));
            assert(abs(if negative { -(limbs_value(numerator@) as int) } else { limbs_value(numerator@) as int }) == limbs_value(numerator@));
        }
        let denominator = Self::limbs_of_u64(1);
        Number { negative, numerator, denominator }
    }

    /// The negation of a number.
    pub fn negated(&self) -> (r: Self)
        ensures
            r@ == ratio_neg(self@),
    {
        proof {
            use_type_invariant(self);
            assert(abs(-self@.0) == abs(self@.0));
        }
        let negative = !self.negative && self.numerator.len() > 0;
        let numerator = self.numerator.clone();
        let denominator = self.denominator.clone();
        proof {
            assert(numerator@ =~= self.numerator@);
            assert(denominator@ =~= self.denominator@);
            if self.numerator.len() > 0 {
                lemma_canonical_limbs_positive(self.numerator@);
            } else {
                assert(self.numerator@ =~= Seq::<u64>::empty());
                lemma_limbs_value_small(0);
            }
        }
        Number { negative, numerator, denominator }
    }

    /// The magnitude of an integer number, when it fits in 128 bits.
    pub(crate) fn integer_magnitude(&self) -> (r: Option<u128>)
        ensures
            match r {
                Some(m) => self@.1 == 1 && m == abs(self@.0),
                None => self@.1 != 1 || abs(self@.0) > u128::MAX,
            },
    {
        proof {
            use_type_invariant(self);
            lemma_limbs_value_small(1);
            if self@.1 == 1 {
                lemma_canonical_limbs_unique(self.denominator@, seq![1u64]);
            }
        }
        if self.denominator.len() != 1 || self.denominator[0] != 1 {
            proof {
                if self.denominator.len() == 1 {
                    assert(self.denominator@ != seq![1u64]);
                }
            }
            return None;
        }
        proof {
            assert(self.denominator@ =~= seq![1u64]);
        }
        let len = self.numerator.len();
        if len == 0 {
            proof {
                assert(self.numerator@ =~= Seq::<u64>::empty());
            }
            Some(0)
        } else if len == 1 {
            proof {
                assert(self.numerator@ =~= seq![self.numerator@[0]]);
                lemma_limbs_value_small(self.numerator@[0]);
            }
            Some(self.numerator[0] as u128)
        } else if len == 2 {
            let lo = self.numerator[0];
            let hi = self.numerator[1];
            proof {
                assert(self.numerator@ =~= seq![lo, hi]);
                lemma_limbs_value_pair(lo, hi);
            }
            Some(lo as u128 + hi as u128 * LIMB_RADIX)
        } else {
            proof {
                lemma_canonical_limbs_lower_bound(self.numerator@);
                vstd::arithmetic::power::lemma_pow_increases(limb_radix(), 2, (len - 1) as nat);
                vstd::arithmetic::power::lemma_pow_adds(limb_radix() as int, 1, 1);
                vstd::arithmetic::power::lemma_pow1(limb_radix() as int);
            }
            None
        }
    }

    /// The limbs of the numerator's magnitude.
    pub(crate) fn numerator_limbs(&self) -> (r: &Vec<u64>)
        ensures
            canonical_limbs(r@),
            limbs_value(r@) == abs(self@.0),
    {
        proof {
            use_type_invariant(self);
        }
        &self.numerator
    }

    /// The limbs of the denominator.
    pub(crate) fn denominator_limbs(&self) -> (r: &Vec<u64>)
        ensures
            canonical_limbs(r@),
            limbs_value(r@) == self@.1,
            self@.1 > 0,
    {
        proof {
            use_type_invariant(self);
        }
        &self.denominator
    }

    /// Whether the number is below zero.
    pub(crate) fn is_negative_sign(&self) -> (r: bool)
        ensures
            r == (self@.0 < 0),
    {
        proof {
            use_type_invariant(self);
        }
        self.negative
    }

    pub fn new_i64(value: i64) -> (r: Self)
        ensures
            r@ == (value as int, 1nat),
    {
        let magnitude: u64 = if value < 0 {
            (-(value as i128)) as u64
        } else {
            value as u64
        };
        Self::integer_from_parts(value < 0, Self::limbs_of_u64(magnitude))
    }

    pub fn new_i8(value: i8) -> (r: Self)
        ensures
            r@ == (value as int, 1nat),
    {
        Self::new_i64(value as i64)
    }

    pub fn new_i16(value: i16) -> (r: Self)
        ensures
            r@ == (value as int, 1nat),
    {
        Self::new_i64(value as i64)
    }

    pub fn new_i32(value: i32) -> (r: Self)
        ensures
            r@ == (value as int, 1nat),
    {
        Self::new_i64(value as i64)
    }

    pub fn new_isize(value: isize) -> (r: Self)
        ensures
            r@ == (value as int, 1nat),
    {
        Self::new_i128(value as i128)
    }

    pub fn new_i128(value: i128) -> (r: Self)
        ensures
            r@ == (value as int, 1nat),
    {
        let magnitude: u128 = if value < 0 {
            (-(value + 1)) as u128 + 1
        } else {
            value as u128
        };
        Self::integer_from_parts(value < 0, Self::limbs_of_u128(magnitude))
    }

    pub fn new_u64(value: u64) -> (r: Self)
        ensures
            r@ == (value as int, 1nat),
    {
        Self::integer_from_parts(false, Self::limbs_of_u64(value))
    }

    pub fn new_u8(value: u8) -> (r: Self)
        ensures
            r@ == (value as int, 1nat),
    {
        Self::new_u64(value as u64)
    }

    pub fn new_u16(value: u16) -> (r: Self)
        ensures
            r@ == (value as int, 1nat),
    {
        Self::new_u64(value as u64)
    }

    pub fn new_u32(value: u32) -> (r: Self)
        ensures
            r@ == (value as int, 1nat),
    {
        Self::new_u64(value as u64)
    }

    pub fn new_usize(value: usize) -> (r: Self)
        ensures
            r@ == (value as int, 1nat),
    {
        Self::new_u128(value as u128)
    }

    pub fn new_u128(value: u128) -> (r: Self)
        ensures
            r@ == (value as int, 1nat),
    {
        Self::integer_from_parts(false, Self::limbs_of_u128(value))
    }
}

impl Number {
    /// The number `numerator / denominator`, in lowest terms.
    pub fn new_ratio_i64(numerator: i64, denominator: i64) -> (r: Self)
        requires
            denominator != 0,
        ensures
            r@ == ratio_of(numerator as int, denominator as int),
    {
        rational_from_signeds_i64(numerator, denominator)
    }

    /// The number `numerator / denominator`, in lowest terms.
    pub fn new_ratio_i128(numerator: i128, denominator: i128) -> (r: Self)
        requires
            denominator != 0,
        ensures
            r@ == ratio_of(numerator as int, denominator as int),
    {
        rational_from_signeds_i128(numerator, denominator)
    }

    /// The number raised to an integer power; a negative power of zero is left out.
    pub fn pow(self, exponent: i16) -> (r: Self)
        requires
            exponent >= 0 || self@.0 != 0,
        ensures
            r@ == ratio_pow(self@, exponent as int),
    {
        rational_pow(&self, exponent as i64)
    }
}

} // verus!
