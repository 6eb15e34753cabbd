//! What holds of the arithmetic and the order of numbers whatever the operands: the model
//! each function's contract speaks of is the rational in lowest terms, so the laws are
//! stated over it.

use crate::order::ratio_order;
use crate::ratio::{
    abs, gcd, is_lowest_terms, lemma_gcd_symmetric, lemma_gcd_zero_left, lemma_lowest_terms_unique,
    lemma_reduced_is_lowest, lemma_reduced_linear, lemma_reduced_of_lowest, lemma_reduced_scale,
    lemma_reduced_times_gcd, ratio_add, ratio_div, ratio_mul, ratio_neg, ratio_pow, ratio_rem,
    ratio_sub, reduced, same_ratio, sign,
};
use core::cmp::Ordering;
use vstd::arithmetic::power::{lemma_pow0, lemma_pow_positive, pow};
use vstd::prelude::*;

verus! {

/// Two numbers are equal exactly when they denote the same rational: `2/4 == 1/2`.
pub proof fn law_equal_iff_same_value(a: (int, nat), b: (int, nat))
    requires
        is_lowest_terms(a.0, a.1),
        is_lowest_terms(b.0, b.1),
    ensures
        a == b <==> same_ratio(a.0, a.1, b.0, b.1),
{
    if same_ratio(a.0, a.1, b.0, b.1) {
        lemma_lowest_terms_unique(a.0, a.1, b.0, b.1);
    }
}

/// The order calls two numbers equal exactly when they are equal.
pub proof fn law_order_equal_iff_equal(a: (int, nat), b: (int, nat))
    requires
        is_lowest_terms(a.0, a.1),
        is_lowest_terms(b.0, b.1),
    ensures
        (ratio_order(a, b) == Ordering::Equal) <==> a == b,
{
    law_equal_iff_same_value(a, b);
}

/// Swapping the operands reverses the order: `a < b` exactly when `b > a`, and `a == b`
/// exactly when `b == a`.
pub proof fn law_order_reverses(a: (int, nat), b: (int, nat))
    ensures
        (ratio_order(a, b) == Ordering::Less) <==> (ratio_order(b, a) == Ordering::Greater),
        (ratio_order(a, b) == Ordering::Equal) <==> (ratio_order(b, a) == Ordering::Equal),
{
}

/// The order is transitive: `a < b` and `b < c` give `a < c`.
pub proof fn law_order_transitive(a: (int, nat), b: (int, nat), c: (int, nat))
    requires
        a.1 > 0,
        b.1 > 0,
        c.1 > 0,
        ratio_order(a, b) == Ordering::Less,
        ratio_order(b, c) == Ordering::Less,
    ensures
        ratio_order(a, c) == Ordering::Less,
{
    assert(a.0 * c.1 < c.0 * a.1) by (nonlinear_arith)
        requires
            a.0 * b.1 < b.0 * a.1,
            b.0 * c.1 < c.0 * b.1,
            a.1 > 0,
            b.1 > 0,
            c.1 > 0,
    ;
}

/// Addition is commutative.
pub proof fn law_add_commutative(a: (int, nat), b: (int, nat))
    ensures
        ratio_add(a, b) == ratio_add(b, a),
{
    assert(a.0 * b.1 + b.0 * a.1 == b.0 * a.1 + a.0 * b.1);
    assert(a.1 * b.1 == b.1 * a.1) by (nonlinear_arith);
}

/// Multiplication is commutative.
pub proof fn law_mul_commutative(a: (int, nat), b: (int, nat))
    ensures
        ratio_mul(a, b) == ratio_mul(b, a),
{
    assert(a.0 * b.0 == b.0 * a.0) by (nonlinear_arith);
    assert(a.1 * b.1 == b.1 * a.1) by (nonlinear_arith);
}

/// Addition is associative.
pub proof fn law_add_associative(a: (int, nat), b: (int, nat), c: (int, nat))
    requires
        a.1 > 0,
        b.1 > 0,
        c.1 > 0,
    ensures
        ratio_add(ratio_add(a, b), c) == ratio_add(a, ratio_add(b, c)),
{
    let ab_n = a.0 * b.1 + b.0 * a.1;
    let ab_d = (a.1 * b.1) as nat;
    let bc_n = b.0 * c.1 + c.0 * b.1;
    let bc_d = (b.1 * c.1) as nat;
    assert(ab_d > 0 && bc_d > 0) by (nonlinear_arith)
        requires
            a.1 > 0,
            b.1 > 0,
            c.1 > 0,
            ab_d == a.1 * b.1,
            bc_d == b.1 * c.1,
    ;
    // (a + b) + c: reduce a + b first, or not; alike.
    lemma_reduced_linear(ab_n, ab_d, c.1 as int, c.0, c.1);
    // a + (b + c): the same, with b + c reduced as the left operand.
    lemma_reduced_linear(bc_n, bc_d, a.1 as int, a.0, a.1);
    let x = reduced(ab_n, ab_d);
    let y = reduced(bc_n, bc_d);
    assert(ratio_add(x, c) == reduced(x.0 * c.1 + c.0 * x.1, x.1 * c.1));
    assert(ratio_add(a, y) == reduced(y.0 * a.1 + a.0 * y.1, y.1 * a.1)) by {
        assert(a.0 * y.1 + y.0 * a.1 == y.0 * a.1 + a.0 * y.1);
        assert(a.1 * y.1 == y.1 * a.1) by (nonlinear_arith);
    }
    let (a0, a1, b0, b1, c0, c1) = (a.0, a.1 as int, b.0, b.1 as int, c.0, c.1 as int);
    assert((a0 * b1 + b0 * a1) * c1 == a0 * b1 * c1 + b0 * a1 * c1) by (nonlinear_arith);
    assert((b0 * c1 + c0 * b1) * a1 == b0 * c1 * a1 + c0 * b1 * a1) by (nonlinear_arith);
    assert(c0 * (a1 * b1) == c0 * b1 * a1) by (nonlinear_arith);
    assert(a0 * (b1 * c1) == a0 * b1 * c1) by (nonlinear_arith);
    assert(b0 * a1 * c1 == b0 * c1 * a1) by (nonlinear_arith);
    assert(ab_n * c.1 + c.0 * ab_d == bc_n * a.1 + a.0 * bc_d);
    assert(ab_d * c.1 == bc_d * a.1) by (nonlinear_arith)
        requires
            ab_d == a.1 * b.1,
            bc_d == b.1 * c.1,
    ;
}

/// Multiplication is associative.
pub proof fn law_mul_associative(a: (int, nat), b: (int, nat), c: (int, nat))
    requires
        a.1 > 0,
        b.1 > 0,
        c.1 > 0,
    ensures
        ratio_mul(ratio_mul(a, b), c) == ratio_mul(a, ratio_mul(b, c)),
{
    let ab_n = a.0 * b.0;
    let ab_d = (a.1 * b.1) as nat;
    let bc_n = b.0 * c.0;
    let bc_d = (b.1 * c.1) as nat;
    assert(ab_d > 0 && bc_d > 0) by (nonlinear_arith)
        requires
            a.1 > 0,
            b.1 > 0,
            c.1 > 0,
            ab_d == a.1 * b.1,
            bc_d == b.1 * c.1,
    ;
    lemma_reduced_linear(ab_n, ab_d, c.0, 0, c.1);
    lemma_reduced_linear(bc_n, bc_d, a.0, 0, a.1);
    let x = reduced(ab_n, ab_d);
    let y = reduced(bc_n, bc_d);
    assert(x.0 * c.0 + 0 * x.1 == x.0 * c.0);
    assert(y.0 * a.0 + 0 * y.1 == a.0 * y.0) by (nonlinear_arith);
    assert(a.1 * y.1 == y.1 * a.1) by (nonlinear_arith);
    assert(ab_n * c.0 + 0 * ab_d == bc_n * a.0 + 0 * bc_d) by (nonlinear_arith)
        requires
            ab_n == a.0 * b.0,
            bc_n == b.0 * c.0,
    ;
    assert(ab_d * c.1 == bc_d * a.1) by (nonlinear_arith)
        requires
            ab_d == a.1 * b.1,
            bc_d == b.1 * c.1,
    ;
}

/// Zero is the identity of addition.
pub proof fn law_add_zero(a: (int, nat))
    requires
        is_lowest_terms(a.0, a.1),
    ensures
        ratio_add(a, (0, 1)) == a,
{
    assert(a.0 * 1 + 0 * a.1 == a.0);
    assert(a.1 * 1 == a.1);
    lemma_reduced_of_lowest(a.0, a.1);
}

/// One is the identity of multiplication.
pub proof fn law_mul_one(a: (int, nat))
    requires
        is_lowest_terms(a.0, a.1),
    ensures
        ratio_mul(a, (1, 1)) == a,
{
    assert(a.0 * 1 == a.0);
    assert(a.1 * 1 == a.1);
    lemma_reduced_of_lowest(a.0, a.1);
}

/// A number plus its negation is zero.
pub proof fn law_add_neg_is_zero(a: (int, nat))
    requires
        a.1 > 0,
    ensures
        ratio_add(a, ratio_neg(a)) == (0int, 1nat),
{
    let d = (a.1 * a.1) as nat;
    assert(a.0 * a.1 + (-a.0) * a.1 == 0) by (nonlinear_arith);
    assert(d > 0) by (nonlinear_arith)
        requires
            a.1 > 0,
            d == a.1 * a.1,
    ;
    lemma_gcd_zero_left(d);
    vstd::arithmetic::div_mod::lemma_div_by_self(d as int);
    vstd::arithmetic::div_mod::lemma_small_mod(0, d);
    assert(0nat / d == 0) by {
        vstd::arithmetic::div_mod::lemma_basic_div(0, d as int);
    }
}

/// Negation undoes itself.
pub proof fn law_neg_involutive(a: (int, nat))
    ensures
        ratio_neg(ratio_neg(a)) == a,
{
}

/// Subtracting what was added gives the number back.
pub proof fn law_sub_undoes_add(a: (int, nat), b: (int, nat))
    requires
        is_lowest_terms(a.0, a.1),
        b.1 > 0,
    ensures
        ratio_sub(ratio_add(a, b), b) == a,
{
    let n = a.0 * b.1 + b.0 * a.1;
    let d = (a.1 * b.1) as nat;
    assert(d > 0) by (nonlinear_arith)
        requires
            a.1 > 0,
            b.1 > 0,
            d == a.1 * b.1,
    ;
    lemma_reduced_linear(n, d, b.1 as int, -b.0, b.1);
    let x = reduced(n, d);
    assert(x.0 * b.1 - b.0 * x.1 == x.0 * b.1 + (-b.0) * x.1) by (nonlinear_arith);
    let k = (b.1 * b.1) as nat;
    assert(k > 0) by (nonlinear_arith)
        requires
            b.1 > 0,
            k == b.1 * b.1,
    ;
    assert(n * b.1 + (-b.0) * d == a.0 * k && d * b.1 == a.1 * k) by (nonlinear_arith)
        requires
            n == a.0 * b.1 + b.0 * a.1,
            d == a.1 * b.1,
            k == b.1 * b.1,
    ;
    lemma_reduced_scale(a.0, a.1, k);
    lemma_reduced_of_lowest(a.0, a.1);
}

/// Multiplying by what was divided by gives the number back.
pub proof fn law_mul_undoes_div(a: (int, nat), b: (int, nat))
    requires
        is_lowest_terms(a.0, a.1),
        b.1 > 0,
        b.0 != 0,
    ensures
        ratio_mul(ratio_div(a, b), b) == a,
{
    let n = a.0 * b.1 * sign(b.0);
    let d = (a.1 * abs(b.0)) as nat;
    assert(d > 0) by (nonlinear_arith)
        requires
            a.1 > 0,
            abs(b.0) > 0,
            d == a.1 * abs(b.0),
    ;
    lemma_reduced_linear(n, d, b.0, 0, b.1);
    let x = reduced(n, d);
    assert(x.0 * b.0 + 0 * x.1 == x.0 * b.0);
    let k = (b.1 * abs(b.0)) as nat;
    assert(k > 0) by (nonlinear_arith)
        requires
            b.1 > 0,
            abs(b.0) > 0,
            k == b.1 * abs(b.0),
    ;
    assert(sign(b.0) * b.0 == abs(b.0));
    assert(n * b.0 + 0 * d == a.0 * k && d * b.1 == a.1 * k) by (nonlinear_arith)
        requires
            n == a.0 * b.1 * sign(b.0),
            sign(b.0) * b.0 == abs(b.0),
            d == a.1 * abs(b.0),
            k == b.1 * abs(b.0),
    ;
    lemma_reduced_scale(a.0, a.1, k);
    lemma_reduced_of_lowest(a.0, a.1);
}

/// Dividing by what was multiplied by gives the number back.
pub proof fn law_div_undoes_mul(a: (int, nat), b: (int, nat))
    requires
        is_lowest_terms(a.0, a.1),
        b.1 > 0,
        b.0 != 0,
    ensures
        ratio_div(ratio_mul(a, b), b) == a,
{
    let n = a.0 * b.0;
    let d = (a.1 * b.1) as nat;
    assert(d > 0) by (nonlinear_arith)
        requires
            a.1 > 0,
            b.1 > 0,
            d == a.1 * b.1,
    ;
    let x = reduced(n, d);
    lemma_reduced_is_lowest(n, d);
    // x / b == (x.n b.d sgn(b.n)) / (x.d |b.n|)
    lemma_reduced_linear(n, d, b.1 * sign(b.0), 0, abs(b.0));
    assert(x.0 * b.1 * sign(b.0) == x.0 * (b.1 * sign(b.0)) + 0 * x.1) by (nonlinear_arith);
    let k = (b.1 * abs(b.0)) as nat;
    assert(k > 0) by (nonlinear_arith)
        requires
            b.1 > 0,
            abs(b.0) > 0,
            k == b.1 * abs(b.0),
    ;
    assert(sign(b.0) * b.0 == abs(b.0));
    assert(n * (b.1 * sign(b.0)) + 0 * d == a.0 * k && d * abs(b.0) == a.1 * k) by (nonlinear_arith)
        requires
            n == a.0 * b.0,
            sign(b.0) * b.0 == abs(b.0),
            d == a.1 * b.1,
            k == b.1 * abs(b.0),
    ;
    lemma_reduced_scale(a.0, a.1, k);
    lemma_reduced_of_lowest(a.0, a.1);
}

/// Zero divided by any nonzero number stays zero.
pub proof fn law_zero_divided_stays_zero(b: (int, nat))
    requires
        b.0 != 0,
        b.1 > 0,
    ensures
        ratio_div((0, 1), b) == (0int, 1nat),
{
    let d = (1 * abs(b.0)) as nat;
    assert(0 * b.1 * sign(b.0) == 0);
    lemma_gcd_zero_left(d);
    vstd::arithmetic::div_mod::lemma_div_by_self(d as int);
    vstd::arithmetic::div_mod::lemma_basic_div(0, d as int);
}

/// A power of a nonzero integer is nonzero.
proof fn lemma_pow_nonzero(b: int, e: nat)
    requires
        b != 0,
    ensures
        pow(b, e) != 0,
    decreases e,
{
    reveal(pow);
    if e > 0 {
        lemma_pow_nonzero(b, (e - 1) as nat);
        let rest = pow(b, (e - 1) as nat);
        assert(b * rest != 0) by (nonlinear_arith)
            requires
                b != 0,
                rest != 0,
        ;
    }
}

/// A negative power is the reciprocal of the positive one: `a^-e == 1 / a^e` for `a != 0`.
pub proof fn law_pow_negative_is_reciprocal(a: (int, nat), e: nat)
    requires
        a.1 > 0,
        a.0 != 0,
    ensures
        ratio_pow(a, -e) == ratio_div((1, 1), ratio_pow(a, e as int)),
{
    let p = pow(a.0, e);
    let q = pow(a.1 as int, e);
    lemma_pow_nonzero(a.0, e);
    lemma_pow_positive(a.1 as int, e);
    let x = reduced(p, q as nat);
    let g = gcd(abs(p), q as nat);
    lemma_reduced_times_gcd(p, q as nat);
    lemma_reduced_is_lowest(p, q as nat);
    if e == 0 {
        lemma_pow0(a.0);
        lemma_pow0(a.1 as int);
        lemma_reduced_of_lowest(1, 1);
        assert(1 * x.1 * sign(x.0) == 1 && 1 * abs(x.0) == 1);
    } else {
        assert(x.0 != 0);
        assert(sign(x.0) == sign(p)) by (nonlinear_arith)
            requires
                x.0 * g == p,
                g > 0,
        ;
        assert(abs(x.0) * g == abs(p)) by (nonlinear_arith)
            requires
                x.0 * g == p,
                g > 0,
        ;
        assert(abs(x.0) > 0);
        assert(q * sign(p) == (x.1 * sign(x.0)) * g) by (nonlinear_arith)
            requires
                x.1 * g == q,
                sign(x.0) == sign(p),
        ;
        lemma_reduced_scale(x.1 * sign(x.0), abs(x.0), g);
        assert(1 * x.1 * sign(x.0) == x.1 * sign(x.0));
        assert(1 * abs(x.0) == abs(x.0));
    }
}

/// The reciprocal undoes itself: `1 / (1 / a) == a` for `a != 0`.
pub proof fn law_reciprocal_involutive(a: (int, nat))
    requires
        is_lowest_terms(a.0, a.1),
        a.0 != 0,
    ensures
        ratio_div((1, 1), ratio_div((1, 1), a)) == a,
{
    let n = 1 * a.1 * sign(a.0);
    let d = 1 * abs(a.0);
    assert(sign(a.0) * (abs(a.0) as int) == a.0);
    assert(abs(n) == a.1);
    lemma_gcd_symmetric(abs(a.0), a.1);
    lemma_reduced_of_lowest(n, d);
    assert(sign(n) == sign(a.0)) by (nonlinear_arith)
        requires
            n == 1 * a.1 * sign(a.0),
            a.1 > 0,
    ;
    assert(1 * d * sign(n) == a.0) by (nonlinear_arith)
        requires
            d == 1 * abs(a.0),
            sign(n) == sign(a.0),
            sign(a.0) * (abs(a.0) as int) == a.0,
    ;
    assert(1 * abs(n) == a.1);
    lemma_reduced_of_lowest(a.0, a.1);
}

/// The sign times the absolute value gives the number back.
pub proof fn law_signum_times_abs(a: (int, nat))
    requires
        is_lowest_terms(a.0, a.1),
    ensures
        ratio_mul((sign(a.0), 1), (abs(a.0) as int, a.1)) == a,
{
    assert(sign(a.0) * (abs(a.0) as int) == a.0);
    assert(1 * a.1 == a.1);
    lemma_reduced_of_lowest(a.0, a.1);
}

/// The quotient of `a / b` truncated toward zero.
pub open spec fn truncated_quotient(a: (int, nat), b: (int, nat)) -> int {
    sign(a.0) * sign(b.0) * ((abs(a.0) * b.1) / (abs(b.0) * a.1)) as int
}

/// The remainder is what is left of `a` once `b` times the truncated quotient is taken out,
/// and it is smaller than `b` in magnitude: `a % b == a - b * trunc(a / b)`, `|a % b| < |b|`.
pub proof fn law_rem_is_what_is_left(a: (int, nat), b: (int, nat))
    requires
        a.1 > 0,
        b.1 > 0,
        b.0 != 0,
    ensures
        ratio_rem(a, b) == ratio_sub(a, ratio_mul(b, (truncated_quotient(a, b), 1))),
        abs(ratio_rem(a, b).0) * b.1 < abs(b.0) * ratio_rem(a, b).1,
{
    let big_n = abs(a.0) * b.1;
    let big_d = abs(b.0) * a.1;
    assert(big_d > 0) by (nonlinear_arith)
        requires
            abs(b.0) > 0,
            a.1 > 0,
            big_d == abs(b.0) * a.1,
    ;
    let q = big_n / big_d;
    let m = big_n % big_d;
    vstd::arithmetic::div_mod::lemma_fundamental_div_mod(big_n as int, big_d as int);
    let t = truncated_quotient(a, b);
    // b * t, then a - b * t, with the product reduced first or not: alike.
    let ab1 = (a.1 * b.1) as nat;
    assert(ab1 > 0) by (nonlinear_arith)
        requires
            a.1 > 0,
            b.1 > 0,
            ab1 == a.1 * b.1,
    ;
    lemma_reduced_linear(b.0 * t, b.1, -(a.1 as int), a.0, a.1);
    let y = reduced(b.0 * t, b.1 * 1);
    assert(b.1 * 1 == b.1);
    assert(y.0 * (-(a.1 as int)) + a.0 * y.1 == a.0 * y.1 - y.0 * a.1) by (nonlinear_arith);
    assert(y.1 * a.1 == a.1 * y.1) by (nonlinear_arith);
    assert(a.0 * b.1 - b.0 * t * a.1 == sign(a.0) * m) by (nonlinear_arith)
        requires
            t == sign(a.0) * sign(b.0) * q,
            big_n == abs(a.0) * b.1,
            big_d == abs(b.0) * a.1,
            big_n == big_d * q + m,
            sign(a.0) * (abs(a.0) as int) == a.0,
            sign(b.0) * (abs(b.0) as int) == b.0,
            sign(a.0) * sign(a.0) == 1 || a.0 == 0,
            a.0 == 0 ==> big_n == 0,
    ;
    assert((b.0 * t) * (-(a.1 as int)) + a.0 * b.1 == a.0 * b.1 - b.0 * t * a.1) by (nonlinear_arith);
    assert(b.1 * a.1 == ab1) by (nonlinear_arith)
        requires
            ab1 == a.1 * b.1,
    ;
    // The bound.
    let r = reduced(sign(a.0) * m, ab1);
    let g = gcd(abs(sign(a.0) * m), ab1);
    lemma_reduced_times_gcd(sign(a.0) * m, ab1);
    assert(abs(sign(a.0) * m) == m) by {
        if a.0 == 0 {
            assert(big_n == 0) by (nonlinear_arith)
                requires
                    big_n == abs(a.0) * b.1,
                    a.0 == 0,
            ;
            vstd::arithmetic::div_mod::lemma_small_mod(0, big_d);
        }
    }
    assert(abs(r.0) * g == m) by (nonlinear_arith)
        requires
            r.0 * g == sign(a.0) * m,
            abs(sign(a.0) * m) == m,
            g > 0,
    ;
    assert(abs(r.0) * b.1 < abs(b.0) * r.1) by (nonlinear_arith)
        requires
            abs(r.0) * g == m,
            r.1 * g == ab1,
            ab1 == a.1 * b.1,
            m < big_d,
            big_d == abs(b.0) * a.1,
            g > 0,
            a.1 > 0,
            b.1 > 0,
    ;
}

/// The order agrees with subtraction: `a < b` exactly when `b - a` is positive, and `a == b`
/// exactly when `b - a` is zero.
pub proof fn law_order_agrees_with_difference(a: (int, nat), b: (int, nat))
    requires
        a.1 > 0,
        b.1 > 0,
    ensures
        (ratio_order(a, b) == Ordering::Less) <==> ratio_sub(b, a).0 > 0,
        (ratio_order(a, b) == Ordering::Equal) <==> ratio_sub(b, a).0 == 0,
{
    let n = b.0 * a.1 - a.0 * b.1;
    let d: nat = b.1 * a.1;
    assert(d > 0) by (nonlinear_arith)
        requires
            a.1 > 0,
            b.1 > 0,
            d == b.1 * a.1,
    ;
    lemma_reduced_times_gcd(n, d);
    let x = reduced(n, d);
    let g = gcd(abs(n), d);
    assert(x.0 > 0 <==> n > 0) by (nonlinear_arith)
        requires
            x.0 * g == n,
            g > 0,
    ;
    assert(x.0 == 0 <==> n == 0) by (nonlinear_arith)
        requires
            x.0 * g == n,
            g > 0,
    ;
}

/// One more power multiplies by the number once more: `a^(e+1) == a^e * a` for `e >= 0`.
pub proof fn law_pow_successor(a: (int, nat), e: int)
    requires
        a.1 > 0,
        e >= 0,
    ensures
        ratio_pow(a, e + 1) == ratio_mul(ratio_pow(a, e), a),
{
    let k = e as nat;
    let p = pow(a.0, k);
    let q = pow(a.1 as int, k);
    lemma_pow_positive(a.1 as int, k);
    lemma_pow_positive(a.1 as int, k + 1);
    vstd::arithmetic::power::lemma_pow_adds(a.0, k, 1);
    vstd::arithmetic::power::lemma_pow_adds(a.1 as int, k, 1);
    vstd::arithmetic::power::lemma_pow1(a.0);
    vstd::arithmetic::power::lemma_pow1(a.1 as int);
    lemma_reduced_linear(p, q as nat, a.0, 0, a.1);
    let x = reduced(p, q as nat);
    assert(x.0 * a.0 + 0 * x.1 == x.0 * a.0);
    assert(p * a.0 + 0 * q == p * a.0);
    assert((e + 1) as nat == k + 1);
    assert(ratio_pow(a, e + 1) == reduced(p * a.0, (q * a.1) as nat));
}

} // verus!
