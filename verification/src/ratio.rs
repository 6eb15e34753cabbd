//! Integer ratios: greatest common divisors and the reduced form of a ratio.

use vstd::arithmetic::div_mod::*;
use vstd::arithmetic::mul::*;
use vstd::arithmetic::power::pow;
use vstd::prelude::*;

verus! {

/// The absolute value of an integer.
pub open spec fn abs(n: int) -> nat {
    if n < 0 {
        (-n) as nat
    } else {
        n as nat
    }
}

/// The greatest common divisor, by Euclid's algorithm; `gcd(0, 0) == 0`.
pub open spec fn gcd(a: nat, b: nat) -> nat
    decreases b,
{
    if b == 0 {
        a
    } else {
        gcd(b, a % b)
    }
}

/// The numerator of `n / d` in lowest terms (`d > 0`).
pub open spec fn reduced_num(n: int, d: nat) -> int {
    let g = gcd(abs(n), d);
    if n < 0 {
        -((abs(n) / g) as int)
    } else {
        (abs(n) / g) as int
    }
}

/// The denominator of `n / d` in lowest terms (`d > 0`).
pub open spec fn reduced_den(n: int, d: nat) -> nat {
    d / gcd(abs(n), d)
}

/// `n / d` in lowest terms, as a numerator and a positive denominator.
pub open spec fn reduced(n: int, d: nat) -> (int, nat) {
    (reduced_num(n, d), reduced_den(n, d))
}

/// `(n, d)` is a ratio in lowest terms with a positive denominator.
pub open spec fn is_lowest_terms(n: int, d: nat) -> bool {
    d > 0 && gcd(abs(n), d) == 1
}

/// Two ratios with positive denominators denote the same rational number.
pub open spec fn same_ratio(n1: int, d1: nat, n2: int, d2: nat) -> bool {
    n1 * d2 == n2 * d1
}

/// The sign of an integer: `-1`, `0` or `1`.
pub open spec fn sign(n: int) -> int {
    if n < 0 {
        -1
    } else if n == 0 {
        0
    } else {
        1
    }
}

/// `a + b`, reduced.
pub open spec fn ratio_add(a: (int, nat), b: (int, nat)) -> (int, nat) {
    reduced(a.0 * b.1 + b.0 * a.1, a.1 * b.1)
}

/// `a - b`, reduced.
pub open spec fn ratio_sub(a: (int, nat), b: (int, nat)) -> (int, nat) {
    reduced(a.0 * b.1 - b.0 * a.1, a.1 * b.1)
}

/// `a * b`, reduced.
pub open spec fn ratio_mul(a: (int, nat), b: (int, nat)) -> (int, nat) {
    reduced(a.0 * b.0, a.1 * b.1)
}

/// `a / b` for `b != 0`, reduced.
pub open spec fn ratio_div(a: (int, nat), b: (int, nat)) -> (int, nat) {
    reduced(a.0 * b.1 * sign(b.0), a.1 * abs(b.0))
}

/// The remainder of `a / b` for `b != 0` when the quotient is truncated toward zero: it has
/// the sign of `a` and a magnitude below that of `b`; reduced.
pub open spec fn ratio_rem(a: (int, nat), b: (int, nat)) -> (int, nat) {
    reduced(sign(a.0) * ((abs(a.0) * b.1) % (abs(b.0) * a.1)) as int, a.1 * b.1)
}

/// `-a`.
pub open spec fn ratio_neg(a: (int, nat)) -> (int, nat) {
    (-a.0, a.1)
}

/// `a` raised to the integer power `e` (for `e < 0`, `a != 0`), reduced.
pub open spec fn ratio_pow(a: (int, nat), e: int) -> (int, nat) {
    if e >= 0 {
        reduced(pow(a.0, e as nat), pow(a.1 as int, e as nat) as nat)
    } else {
        let n = pow(a.0, (-e) as nat);
        reduced(pow(a.1 as int, (-e) as nat) * sign(n), abs(n))
    }
}

/// The rational `n / d` as a reduced pair, for a numerator and a denominator of any sign
/// (`d != 0`).
pub open spec fn ratio_of(n: int, d: int) -> (int, nat) {
    reduced(n * sign(d), abs(d))
}

pub proof fn lemma_gcd_zero_left(b: nat)
    ensures
        gcd(0, b) == b,
{
    if b > 0 {
        lemma_small_mod(0, b);
        assert(gcd(0, b) == gcd(b, 0));
    }
}

pub proof fn lemma_gcd_one_right(a: nat)
    ensures
        gcd(a, 1) == 1,
{
    lemma_small_mod(0, 1);
    lemma_fundamental_div_mod(a as int, 1);
    assert(a % 1 == 0);
    assert(gcd(a, 1) == gcd(1, 0));
}

/// The gcd divides both of its arguments.
pub proof fn lemma_gcd_divides(a: nat, b: nat)
    ensures
        gcd(a, b) > 0 ==> a % gcd(a, b) == 0 && b % gcd(a, b) == 0,
    decreases b,
{
    if b == 0 {
        if a > 0 {
            lemma_mod_self_0(a as int);
        }
    } else {
        lemma_gcd_divides(b, a % b);
        let g = gcd(a, b);
        if g > 0 {
            // a == b * (a / b) + a % b, and g divides b and a % b
            lemma_fundamental_div_mod(a as int, b as int);
            let q = a / b;
            lemma_mod_multiples_vanish_auto(g, b, q, a % b);
        }
    }
}

/// `g` divides `b` and `r`, so it divides `b * q + r`.
proof fn lemma_mod_multiples_vanish_auto(g: nat, b: nat, q: nat, r: nat)
    requires
        g > 0,
        b % g == 0,
        r % g == 0,
    ensures
        (b * q + r) % g == 0,
{
    let k = b / g;
    let m = r / g;
    lemma_fundamental_div_mod(b as int, g as int);
    lemma_fundamental_div_mod(r as int, g as int);
    assert(b * q + r == g * (k * q + m)) by (nonlinear_arith)
        requires
            b == g * k,
            r == g * m,
    ;
    lemma_mod_multiples_basic((k * q + m) as int, g as int);
    lemma_mul_is_commutative(g as int, (k * q + m) as int);
}

/// The gcd is positive unless both arguments are zero.
pub proof fn lemma_gcd_positive(a: nat, b: nat)
    ensures
        (a > 0 || b > 0) ==> gcd(a, b) > 0,
    decreases b,
{
    if b > 0 {
        lemma_gcd_positive(b, a % b);
    }
}

/// Scaling both arguments scales the gcd: `gcd(a k, b k) == k gcd(a, b)`.
pub proof fn lemma_gcd_scale(a: nat, b: nat, k: nat)
    requires
        k > 0,
    ensures
        gcd(a * k, b * k) == gcd(a, b) * k,
    decreases b,
{
    if b == 0 {
        assert(b * k == 0);
    } else {
        assert(b * k > 0) by (nonlinear_arith)
            requires
                b > 0,
                k > 0,
        ;
        lemma_mul_mod_scale(a, b, k);
        lemma_gcd_scale(b, a % b, k);
    }
}

/// `(a k) % (b k) == (a % b) k`.
proof fn lemma_mul_mod_scale(a: nat, b: nat, k: nat)
    requires
        b > 0,
        k > 0,
    ensures
        (a * k) % (b * k) == (a % b) * k,
{
    lemma_fundamental_div_mod(a as int, b as int);
    let q = a / b;
    let r = a % b;
    assert(a * k == (b * k) * q + r * k && r * k < b * k) by (nonlinear_arith)
        requires
            a == b * q + r,
            r < b,
            k > 0,
    ;
    assert(b * k > 0) by (nonlinear_arith)
        requires
            b > 0,
            k > 0,
    ;
    lemma_mod_multiples_vanish(q as int, (r * k) as int, (b * k) as int);
    lemma_small_mod((r * k) as nat, (b * k) as nat);
    lemma_mul_is_commutative((b * k) as int, q as int);
}

/// Dividing both arguments by their gcd leaves coprime numbers.
pub proof fn lemma_gcd_quotients_coprime(a: nat, b: nat)
    requires
        b > 0,
    ensures
        gcd(a / gcd(a, b), b / gcd(a, b)) == 1,
{
    let g = gcd(a, b);
    lemma_gcd_positive(a, b);
    lemma_gcd_divides(a, b);
    lemma_fundamental_div_mod(a as int, g as int);
    lemma_fundamental_div_mod(b as int, g as int);
    let a1 = a / g;
    let b1 = b / g;
    lemma_mul_is_commutative(g as int, a1 as int);
    lemma_mul_is_commutative(g as int, b1 as int);
    lemma_gcd_scale(a1, b1, g);
    assert(gcd(a1, b1) * g == 1 * g);
    lemma_mul_equality_converse(g as int, gcd(a1, b1) as int, 1);
}

/// `gcd(a, b) * 1 == g * 1 ==> ...` helper: cancel a positive factor.
proof fn lemma_mul_equality_converse(g: int, x: int, y: int)
    requires
        g > 0,
        x * g == y * g,
    ensures
        x == y,
{
    lemma_mul_is_commutative(x, g);
    lemma_mul_is_commutative(y, g);
    lemma_mul_equality_converse_left(g, x, y);
}

proof fn lemma_mul_equality_converse_left(g: int, x: int, y: int)
    requires
        g > 0,
        g * x == g * y,
    ensures
        x == y,
{
    if x < y {
        lemma_mul_strict_inequality(x, y, g);
        lemma_mul_is_commutative(x, g);
        lemma_mul_is_commutative(y, g);
    } else if y < x {
        lemma_mul_strict_inequality(y, x, g);
        lemma_mul_is_commutative(x, g);
        lemma_mul_is_commutative(y, g);
    }
}

/// The reduced form of a ratio is in lowest terms.
pub proof fn lemma_reduced_is_lowest(n: int, d: nat)
    requires
        d > 0,
    ensures
        is_lowest_terms(reduced_num(n, d), reduced_den(n, d)),
        same_ratio(n, d, reduced_num(n, d), reduced_den(n, d)),
{
    let g = gcd(abs(n), d);
    lemma_gcd_positive(abs(n), d);
    lemma_gcd_divides(abs(n), d);
    lemma_gcd_quotients_coprime(abs(n), d);
    lemma_fundamental_div_mod(abs(n) as int, g as int);
    lemma_fundamental_div_mod(d as int, g as int);
    let a1 = abs(n) / g;
    let d1 = d / g;
    assert(d1 > 0) by (nonlinear_arith)
        requires
            d == g * d1,
            d > 0,
    ;
    assert(abs(reduced_num(n, d)) == a1);
    assert(abs(n) * d1 == a1 * d) by (nonlinear_arith)
        requires
            abs(n) == g * a1,
            d == g * d1,
    ;
    assert(n * d1 == reduced_num(n, d) * d) by (nonlinear_arith)
        requires
            abs(n) * d1 == a1 * d,
            n < 0 ==> n == -abs(n) && reduced_num(n, d) == -a1,
            n >= 0 ==> n == abs(n) && reduced_num(n, d) == a1,
    ;
}

/// A ratio already in lowest terms is its own reduced form.
pub proof fn lemma_reduced_of_lowest(n: int, d: nat)
    requires
        is_lowest_terms(n, d),
    ensures
        reduced(n, d) == (n, d),
{
    lemma_div_basics_1(abs(n) as int);
    lemma_div_basics_1(d as int);
    assert(abs(n) / 1 == abs(n));
    assert(d / 1 == d);
}

/// Scaling numerator and denominator by the same positive factor keeps the reduced form.
pub proof fn lemma_reduced_scale(n: int, d: nat, k: nat)
    requires
        d > 0,
        k > 0,
    ensures
        reduced(n * k, d * k) == reduced(n, d),
{
    let g = gcd(abs(n), d);
    assert(abs(n * k) == abs(n) * k) by (nonlinear_arith)
        requires
            k > 0,
    ;
    lemma_gcd_scale(abs(n), d, k);
    lemma_gcd_positive(abs(n), d);
    assert(g > 0);
    lemma_div_multiples_vanish_scaled(abs(n), g, k);
    lemma_div_multiples_vanish_scaled(d, g, k);
    assert((n * k < 0) == (n < 0)) by (nonlinear_arith)
        requires
            k > 0,
    ;
}

/// `(a k) / (g k) == a / g`.
proof fn lemma_div_multiples_vanish_scaled(a: nat, g: nat, k: nat)
    requires
        g > 0,
        k > 0,
    ensures
        (a * k) / (g * k) == a / g,
{
    lemma_fundamental_div_mod(a as int, g as int);
    let q = a / g;
    let r = a % g;
    assert(a * k == (g * k) * q + r * k && r * k < g * k && 0 <= r * k) by (nonlinear_arith)
        requires
            a == g * q + r,
            r < g,
            0 <= r,
            k > 0,
    ;
    lemma_div_multiples_vanish_fancy(q as int, (r * k) as int, (g * k) as int);
    lemma_mul_is_commutative((g * k) as int, q as int);
}

/// The gcd does not depend on the order of its arguments.
pub proof fn lemma_gcd_symmetric(a: nat, b: nat)
    ensures
        gcd(a, b) == gcd(b, a),
{
    if a == 0 {
        lemma_gcd_zero_left(b);
    } else if b == 0 {
        lemma_gcd_zero_left(a);
    } else if a < b {
        lemma_small_mod(a, b);
        assert(gcd(a, b) == gcd(b, a % b));
    } else if a == b {
        lemma_mod_self_0(a as int);
        assert(gcd(a, b) == gcd(b, 0));
        assert(gcd(b, a) == gcd(a, 0));
    } else {
        lemma_small_mod(b, a);
        assert(gcd(b, a) == gcd(a, b % a));
    }
}

/// A common divisor of two naturals divides their gcd.
pub proof fn lemma_common_divisor_divides_gcd(a: nat, b: nat, d: nat)
    requires
        d > 0,
        a % d == 0,
        b % d == 0,
    ensures
        gcd(a, b) % d == 0,
    decreases b,
{
    if b > 0 {
        lemma_fundamental_div_mod(a as int, b as int);
        let q = a / b;
        let r = a % b;
        lemma_fundamental_div_mod(a as int, d as int);
        lemma_fundamental_div_mod(b as int, d as int);
        let ka = a / d;
        let kb = b / d;
        assert(r == d * (ka - kb * q)) by (nonlinear_arith)
            requires
                a == b * q + r,
                a == d * ka,
                b == d * kb,
        ;
        assert(ka - kb * q >= 0) by (nonlinear_arith)
            requires
                r == d * (ka - kb * q),
                r >= 0,
                d > 0,
        ;
        lemma_mod_multiples_basic(ka - kb * q, d as int);
        lemma_mul_is_commutative(d as int, ka - kb * q);
        lemma_common_divisor_divides_gcd(b, r, d);
    }
}

/// If `a` divides `b c` and is coprime to `b`, it divides `c`.
pub proof fn lemma_coprime_divides_product(a: nat, b: nat, c: nat)
    requires
        a > 0,
        gcd(a, b) == 1,
        (b * c) % a == 0,
    ensures
        c % a == 0,
{
    if c == 0 {
        lemma_small_mod(0, a);
    } else {
        lemma_gcd_scale(a, b, c);
        assert(gcd(a * c, b * c) == c);
        lemma_mod_multiples_basic(c as int, a as int);
        lemma_mul_is_commutative(c as int, a as int);
        lemma_common_divisor_divides_gcd(a * c, b * c, a);
    }
}

/// Two ratios in lowest terms that denote the same rational are the same pair.
pub proof fn lemma_lowest_terms_unique(n1: int, d1: nat, n2: int, d2: nat)
    requires
        is_lowest_terms(n1, d1),
        is_lowest_terms(n2, d2),
        same_ratio(n1, d1, n2, d2),
    ensures
        n1 == n2,
        d1 == d2,
{
    assert(abs(n1) * d2 == abs(n2) * d1) by (nonlinear_arith)
        requires
            n1 * d2 == n2 * d1,
            d1 > 0,
            d2 > 0,
            abs(n1) == (if n1 < 0 { -n1 } else { n1 }),
            abs(n2) == (if n2 < 0 { -n2 } else { n2 }),
    ;
    lemma_gcd_symmetric(abs(n1), d1);
    lemma_gcd_symmetric(abs(n2), d2);
    lemma_mod_multiples_basic(abs(n2) as int, d1 as int);
    lemma_coprime_divides_product(d1, abs(n1), d2);
    lemma_mod_multiples_basic(abs(n1) as int, d2 as int);
    lemma_coprime_divides_product(d2, abs(n2), d1);
    lemma_divides_both_ways(d1, d2);
    lemma_mul_equality_converse(d1 as int, n1, n2);
}

/// Two positive naturals that divide each other are equal.
proof fn lemma_divides_both_ways(a: nat, b: nat)
    requires
        a > 0,
        b > 0,
        b % a == 0,
        a % b == 0,
    ensures
        a == b,
{
    lemma_fundamental_div_mod(b as int, a as int);
    lemma_fundamental_div_mod(a as int, b as int);
    let k = b / a;
    let m = a / b;
    assert(a == b) by (nonlinear_arith)
        requires
            b == a * k,
            a == b * m,
            a > 0,
            b > 0,
            k >= 0,
            m >= 0,
    ;
}

/// The reduced form times the gcd gives the ratio back.
pub proof fn lemma_reduced_times_gcd(n: int, d: nat)
    requires
        d > 0,
    ensures
        reduced_num(n, d) * gcd(abs(n), d) == n,
        reduced_den(n, d) * gcd(abs(n), d) == d,
        gcd(abs(n), d) > 0,
{
    let g = gcd(abs(n), d);
    lemma_gcd_positive(abs(n), d);
    lemma_gcd_divides(abs(n), d);
    lemma_fundamental_div_mod(abs(n) as int, g as int);
    lemma_fundamental_div_mod(d as int, g as int);
    lemma_mul_is_commutative(g as int, (abs(n) / g) as int);
    lemma_mul_is_commutative(g as int, (d / g) as int);
    let a = (abs(n) / g) as int;
    assert(a * g == abs(n));
    if n < 0 {
        assert(reduced_num(n, d) == -a);
        assert((-a) * g == -(a * g)) by (nonlinear_arith);
    } else {
        assert(reduced_num(n, d) == a);
    }
}

/// Reducing an operand first does not change the reduced result of a linear combination:
/// with `x` the reduced `n / d`, `(x.n p + q x.d) / (x.d r)` and `(n p + q d) / (d r)` reduce
/// alike.
pub proof fn lemma_reduced_linear(n: int, d: nat, p: int, q: int, r: nat)
    requires
        d > 0,
        r > 0,
    ensures
        ({
            let x = reduced(n, d);
            reduced(x.0 * p + q * x.1, x.1 * r) == reduced(n * p + q * d, d * r)
        }),
{
    let x = reduced(n, d);
    let g = gcd(abs(n), d);
    lemma_reduced_times_gcd(n, d);
    lemma_reduced_is_lowest(n, d);
    assert((x.0 * p + q * x.1) * g == n * p + q * d && (x.1 * r) * g == d * r) by (nonlinear_arith)
        requires
            x.0 * g == n,
            x.1 * g == d,
    ;
    assert(x.1 * r > 0) by (nonlinear_arith)
        requires
            x.1 > 0,
            r > 0,
    ;
    lemma_reduced_scale(x.0 * p + q * x.1, (x.1 * r) as nat, g);
}

} // verus!
