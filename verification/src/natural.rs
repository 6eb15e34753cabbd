//! Arbitrary-size natural numbers held as plain values: little-endian `u64` limbs, or
//! little-endian digits in a small base.

use vstd::prelude::*;

verus! {

/// The radix of one limb.
pub open spec fn limb_radix() -> nat {
    0x1_0000_0000_0000_0000nat
}

/// The value of little-endian limbs.
pub open spec fn limbs_value(limbs: Seq<u64>) -> nat
    decreases limbs.len(),
{
    if limbs.len() == 0 {
        0
    } else {
        limbs[0] as nat + limb_radix() * limbs_value(limbs.drop_first())
    }
}

/// Limbs without a most significant zero limb (zero is the empty sequence).
pub open spec fn canonical_limbs(limbs: Seq<u64>) -> bool {
    limbs.len() == 0 || limbs.last() != 0
}

/// The value of little-endian digits in base `base`.
pub open spec fn digits_value(digits: Seq<u8>, base: nat) -> nat
    decreases digits.len(),
{
    if digits.len() == 0 {
        0
    } else {
        digits[0] as nat + base * digits_value(digits.drop_first(), base)
    }
}

/// Digits, each below `base`, without a most significant zero digit.
pub open spec fn canonical_digits(digits: Seq<u8>, base: nat) -> bool {
    &&& forall|i: int| 0 <= i < digits.len() ==> (#[trigger] digits[i]) < base
    &&& (digits.len() == 0 || digits.last() != 0)
}

/// The value of no limbs and of one limb.
pub proof fn lemma_limbs_value_small(x: u64)
    ensures
        limbs_value(Seq::<u64>::empty()) == 0,
        limbs_value(seq![x]) == x,
{
    assert(seq![x].drop_first() =~= Seq::<u64>::empty());
}

/// A nonempty canonical limb sequence is at least the radix to the power of its length less one.
pub proof fn lemma_canonical_limbs_lower_bound(limbs: Seq<u64>)
    requires
        canonical_limbs(limbs),
        limbs.len() > 0,
    ensures
        limbs_value(limbs) >= vstd::arithmetic::power::pow(limb_radix() as int, (limbs.len() - 1) as nat),
    decreases limbs.len(),
{
    let r = limb_radix() as int;
    if limbs.len() == 1 {
        assert(limbs.drop_first() =~= Seq::<u64>::empty());
        vstd::arithmetic::power::lemma_pow0(r);
    } else {
        assert(limbs.drop_first().last() == limbs.last());
        lemma_canonical_limbs_lower_bound(limbs.drop_first());
        let n: nat = (limbs.len() - 1) as nat;
        let p = vstd::arithmetic::power::pow(r, (n - 1) as nat);
        assert((n - 1) as nat == (limbs.drop_first().len() - 1) as nat);
        reveal(vstd::arithmetic::power::pow);
        assert(vstd::arithmetic::power::pow(r, n) == r * p);
        assert(r * limbs_value(limbs.drop_first()) >= r * p) by (nonlinear_arith)
            requires
                limbs_value(limbs.drop_first()) >= p,
                r > 0,
        ;
    }
}

/// The value of two limbs.
pub proof fn lemma_limbs_value_pair(lo: u64, hi: u64)
    ensures
        limbs_value(seq![lo, hi]) == lo + limb_radix() * hi,
{
    assert(seq![lo, hi].drop_first() =~= seq![hi]);
    lemma_limbs_value_small(hi);
}

/// A nonempty canonical limb sequence has a positive value.
pub proof fn lemma_canonical_limbs_positive(limbs: Seq<u64>)
    requires
        canonical_limbs(limbs),
        limbs.len() > 0,
    ensures
        limbs_value(limbs) > 0,
    decreases limbs.len(),
{
    if limbs.len() > 1 {
        assert(limbs.drop_first().last() == limbs.last());
        lemma_canonical_limbs_positive(limbs.drop_first());
    }
}

/// Canonical limbs are determined by their value.
pub proof fn lemma_canonical_limbs_unique(a: Seq<u64>, b: Seq<u64>)
    requires
        canonical_limbs(a),
        canonical_limbs(b),
        limbs_value(a) == limbs_value(b),
    ensures
        a == b,
    decreases a.len(),
{
    if a.len() == 0 {
        if b.len() > 0 {
            lemma_canonical_limbs_positive(b);
        }
        assert(a =~= b);
    } else if b.len() == 0 {
        lemma_canonical_limbs_positive(a);
    } else {
        let r = limb_radix();
        let va = limbs_value(a.drop_first());
        let vb = limbs_value(b.drop_first());
        assert(a[0] as int == limbs_value(a) as int % r as int && va == limbs_value(a) as int / r as int)
            by (nonlinear_arith)
            requires
                limbs_value(a) == a[0] as nat + r * va,
                a[0] < r,
                r > 0,
        ;
        assert(b[0] as int == limbs_value(b) as int % r as int && vb == limbs_value(b) as int / r as int)
            by (nonlinear_arith)
            requires
                limbs_value(b) == b[0] as nat + r * vb,
                b[0] < r,
                r > 0,
        ;
        if a.len() > 1 {
            assert(a.drop_first().last() == a.last());
        }
        if b.len() > 1 {
            assert(b.drop_first().last() == b.last());
        }
        lemma_canonical_limbs_unique(a.drop_first(), b.drop_first());
        assert(a =~= b) by {
            assert(a =~= seq![a[0]] + a.drop_first());
            assert(b =~= seq![b[0]] + b.drop_first());
        }
    }
}

/// A nonempty canonical digit sequence has a positive value.
pub proof fn lemma_canonical_digits_positive(digits: Seq<u8>, base: nat)
    requires
        canonical_digits(digits, base),
        digits.len() > 0,
        base > 0,
    ensures
        digits_value(digits, base) > 0,
    decreases digits.len(),
{
    if digits.len() > 1 {
        assert(digits.drop_first().last() == digits.last());
        lemma_canonical_digits_positive(digits.drop_first(), base);
        assert(base * digits_value(digits.drop_first(), base) > 0) by (nonlinear_arith)
            requires
                base > 0,
                digits_value(digits.drop_first(), base) > 0,
        ;
    }
}

/// Canonical digits in one base are determined by their value.
pub proof fn lemma_canonical_digits_unique(a: Seq<u8>, b: Seq<u8>, base: nat)
    requires
        base > 1,
        canonical_digits(a, base),
        canonical_digits(b, base),
        digits_value(a, base) == digits_value(b, base),
    ensures
        a == b,
    decreases a.len(),
{
    if a.len() == 0 {
        if b.len() > 0 {
            lemma_canonical_digits_positive(b, base);
        }
        assert(a =~= b);
    } else if b.len() == 0 {
        lemma_canonical_digits_positive(a, base);
    } else {
        let va = digits_value(a.drop_first(), base);
        let vb = digits_value(b.drop_first(), base);
        assert(a[0] < base);
        assert(b[0] < base);
        assert(a[0] as int == digits_value(a, base) as int % base as int && va == digits_value(a, base) as int / base as int)
            by (nonlinear_arith)
            requires
                digits_value(a, base) == a[0] as nat + base * va,
                a[0] < base,
                base > 0,
        ;
        assert(b[0] as int == digits_value(b, base) as int % base as int && vb == digits_value(b, base) as int / base as int)
            by (nonlinear_arith)
            requires
                digits_value(b, base) == b[0] as nat + base * vb,
                b[0] < base,
                base > 0,
        ;
        assert(canonical_digits(a.drop_first(), base)) by {
            if a.len() > 1 {
                assert(a.drop_first().last() == a.last());
            }
            assert forall|i: int| 0 <= i < a.drop_first().len() implies (#[trigger] a.drop_first()[i]) < base by {
                assert(a.drop_first()[i] == a[i + 1]);
            }
        }
        assert(canonical_digits(b.drop_first(), base)) by {
            if b.len() > 1 {
                assert(b.drop_first().last() == b.last());
            }
            assert forall|i: int| 0 <= i < b.drop_first().len() implies (#[trigger] b.drop_first()[i]) < base by {
                assert(b.drop_first()[i] == b[i + 1]);
            }
        }
        lemma_canonical_digits_unique(a.drop_first(), b.drop_first(), base);
        assert(a =~= b) by {
            assert(a =~= seq![a[0]] + a.drop_first());
            assert(b =~= seq![b[0]] + b.drop_first());
        }
    }
}

} // verus!
