//! Exact rational exponents.
//!
//! A rational is carried as a pair `(numerator, denominator)` of `i64`s in lowest
//! terms with a positive denominator; `num_rational` does the arithmetic. The
//! number theory that makes that representation canonical (greatest common
//! divisors, Bezout coefficients, uniqueness of the reduced form) is proved here.

use vstd::prelude::*;
use vstd::arithmetic::div_mod::*;
use num_rational::Rational64;

verus! {

/// The absolute value of an integer.
pub open spec fn abs(x: int) -> nat {
    if x < 0 {
        (-x) as nat
    } else {
        x as nat
    }
}

/// The greatest common divisor, by Euclid's algorithm; `gcd(0, 0)` is 0.
pub open spec fn gcd(a: nat, b: nat) -> nat
    decreases b,
{
    if b == 0 {
        a
    } else {
        gcd(b, a % b)
    }
}

/// Coefficients `(x, y)` with `a * x + b * y == gcd(a, b)`.
pub open spec fn bezout(a: nat, b: nat) -> (int, int)
    decreases b,
{
    if b == 0 {
        (1, 0)
    } else {
        let (x, y) = bezout(b, a % b);
        (y, x - (a / b) as int * y)
    }
}

/// `m` divides `x`.
pub open spec fn dvd(m: int, x: int) -> bool {
    exists|k: int| #[trigger] (m * k) == x
}

/// `n / d` in lowest terms with a positive denominator: the form in which
/// `Ratio::new` keeps every rational it builds.
pub open spec fn normalize(n: int, d: int) -> (int, int) {
    let g = gcd(abs(n), abs(d));
    let m = (abs(n) / g) as int;
    let q = (abs(d) / g) as int;
    if (n < 0) == (d < 0) {
        (m, q)
    } else {
        (-m, q)
    }
}

/// A rational in the canonical form: positive denominator, lowest terms, and a
/// numerator whose negation still fits in an `i64`.
pub open spec fn is_ratio(r: (i64, i64)) -> bool {
    &&& r.1 > 0
    &&& r.0 > i64::MIN
    &&& gcd(abs(r.0 as int), r.1 as nat) == 1
}

/// The value of a pair as a fraction; two pairs denote the same rational exactly
/// when their cross products agree.
pub open spec fn same_value(a: (int, int), b: (int, int)) -> bool {
    a.0 * b.1 == b.0 * a.1
}

/// `a + b` with no intermediate of the computation leaving the `i64` range.
pub open spec fn add_fits(a: (i64, i64), b: (i64, i64)) -> bool {
    &&& a.1 * b.1 <= i64::MAX
    &&& abs(a.0 * b.1) + abs(b.0 * a.1) <= i64::MAX
}

/// `a * b` with no intermediate of the computation leaving the `i64` range.
pub open spec fn mul_fits(a: (i64, i64), b: (i64, i64)) -> bool {
    &&& a.1 * b.1 <= i64::MAX
    &&& abs(a.0 * b.0) <= i64::MAX
}

// ---------------------------------------------------------------------------
// Number theory
// ---------------------------------------------------------------------------

/// A product of positive numbers is positive.
pub proof fn lemma_pos_mul(a: int, b: int)
    requires
        a > 0,
        b > 0,
    ensures
        a * b > 0,
{
    assert(a * b > 0) by (nonlinear_arith)
        requires
            a > 0,
            b > 0,
    ;
}

proof fn lemma_dvd_intro(m: int, k: int)
    ensures
        dvd(m, m * k),
{
    assert(m * k == m * k);
}

proof fn lemma_dvd_quotient(m: int, x: int)
    requires
        m > 0,
        dvd(m, x),
    ensures
        x == m * (x / m),
{
    let k = choose|k: int| #[trigger] (m * k) == x;
    lemma_div_multiples_vanish(k, m);
}

proof fn lemma_dvd_lin(m: int, a: int, b: int, x: int, y: int)
    requires
        dvd(m, a),
        dvd(m, b),
    ensures
        dvd(m, a * x + b * y),
{
    let ka = choose|k: int| #[trigger] (m * k) == a;
    let kb = choose|k: int| #[trigger] (m * k) == b;
    assert(m * (ka * x + kb * y) == a * x + b * y) by (nonlinear_arith)
        requires
            m * ka == a,
            m * kb == b,
    ;
    lemma_dvd_intro(m, ka * x + kb * y);
}

proof fn lemma_dvd_le(m: int, x: int)
    requires
        m > 0,
        x > 0,
        dvd(m, x),
    ensures
        m <= x,
{
    let k = choose|k: int| #[trigger] (m * k) == x;
    assert(m <= x) by (nonlinear_arith)
        requires
            m > 0,
            x > 0,
            m * k == x,
    ;
}

/// `gcd(a, b)` divides both arguments, is positive unless both are zero, and is a
/// combination of them with the Bezout coefficients.
pub proof fn lemma_gcd(a: nat, b: nat)
    ensures
        dvd(gcd(a, b) as int, a as int),
        dvd(gcd(a, b) as int, b as int),
        a > 0 || b > 0 ==> gcd(a, b) > 0,
        a * bezout(a, b).0 + b * bezout(a, b).1 == gcd(a, b),
    decreases b,
{
    if b == 0 {
        lemma_dvd_intro(a as int, 1);
        lemma_dvd_intro(a as int, 0);
    } else {
        let r = a % b;
        let q = a / b;
        lemma_fundamental_div_mod(a as int, b as int);
        assert(r < b);
        lemma_gcd(b, r);
        let g = gcd(b, r) as int;
        let (x, y) = bezout(b, r);
        lemma_dvd_lin(g, b as int, r as int, q as int, 1);
        assert(b * q + r * 1 == a) by (nonlinear_arith)
            requires
                a == b * q + r,
        ;
        assert(a * y + b * (x - q * y) == b * x + r * y) by (nonlinear_arith)
            requires
                a == b * q + r,
        ;
    }
}

/// A combination equal to 1 makes two numbers coprime.
proof fn lemma_coprime_from_combination(a: nat, b: nat, x: int, y: int)
    requires
        a * x + b * y == 1,
    ensures
        gcd(a, b) == 1,
{
    lemma_gcd(a, b);
    let g = gcd(a, b) as int;
    if a == 0 && b == 0 {
        assert(a * x + b * y == 0) by (nonlinear_arith)
            requires
                a == 0,
                b == 0,
        ;
    }
    lemma_dvd_lin(g, a as int, b as int, x, y);
    lemma_dvd_le(g, 1);
}

/// Euclid's lemma: a number coprime to `m` that `m` divides after multiplying
/// by `c` leaves `m` dividing `c`.
proof fn lemma_euclid(a: nat, m: nat, c: int)
    requires
        m > 0,
        gcd(a, m) == 1,
        dvd(m as int, a * c),
    ensures
        dvd(m as int, c),
{
    lemma_gcd(a, m);
    let (x, y) = bezout(a, m);
    lemma_dvd_intro(m as int, c);
    lemma_dvd_lin(m as int, a * c, m * c, x, y);
    assert((a * c) * x + (m * c) * y == c) by (nonlinear_arith)
        requires
            a * x + m * y == 1,
    ;
}

/// Two fractions in lowest terms with positive denominators that denote the
/// same rational are the same pair.
pub proof fn lemma_reduced_unique(p1: int, q1: int, p2: int, q2: int)
    requires
        q1 > 0,
        q2 > 0,
        gcd(abs(p1), q1 as nat) == 1,
        gcd(abs(p2), q2 as nat) == 1,
        p1 * q2 == p2 * q1,
    ensures
        p1 == p2,
        q1 == q2,
{
    // q1 divides |p1| * q2, and |p1| is coprime to q1.
    lemma_dvd_intro(q1, p2);
    lemma_dvd_intro(q1, -p2);
    assert(abs(p1) * q2 == q1 * p2 || abs(p1) * q2 == q1 * (-p2)) by (nonlinear_arith)
        requires
            p1 * q2 == p2 * q1,
            abs(p1) == p1 || abs(p1) == -p1,
    ;
    lemma_euclid(abs(p1), q1 as nat, q2);
    lemma_dvd_le(q1, q2);
    lemma_dvd_intro(q2, p1);
    lemma_dvd_intro(q2, -p1);
    assert(abs(p2) * q1 == q2 * p1 || abs(p2) * q1 == q2 * (-p1)) by (nonlinear_arith)
        requires
            p1 * q2 == p2 * q1,
            abs(p2) == p2 || abs(p2) == -p2,
    ;
    lemma_euclid(abs(p2), q2 as nat, q1);
    lemma_dvd_le(q2, q1);
    assert(p1 == p2) by (nonlinear_arith)
        requires
            q1 == q2,
            q1 > 0,
            p1 * q2 == p2 * q1,
    ;
}

/// `normalize(n, d)` is in lowest terms, has a positive denominator, denotes the
/// same rational as `n / d`, and is no larger in magnitude than `n` and `d`.
pub proof fn lemma_normalize(n: int, d: int)
    requires
        d != 0,
    ensures
        normalize(n, d).1 > 0,
        gcd(abs(normalize(n, d).0), normalize(n, d).1 as nat) == 1,
        same_value(normalize(n, d), (n, d)),
        abs(normalize(n, d).0) <= abs(n),
        normalize(n, d).1 <= abs(d),
        n == 0 ==> normalize(n, d) == (0int, 1int),
        normalize(n, d).0 == 0 <==> n == 0,
{
    let a = abs(n);
    let b = abs(d);
    lemma_gcd(a, b);
    let g = gcd(a, b) as int;
    assert(g > 0);
    lemma_dvd_quotient(g, a as int);
    lemma_dvd_quotient(g, b as int);
    let m = (a / g as nat) as int;
    let q = (b / g as nat) as int;
    assert(a as int == g * m);
    assert(b as int == g * q);
    assert(q > 0) by (nonlinear_arith)
        requires
            b as int == g * q,
            b > 0,
            g > 0,
    ;
    assert(m <= a && q <= b) by (nonlinear_arith)
        requires
            a as int == g * m,
            b as int == g * q,
            g > 0,
            m >= 0,
            q > 0,
    ;
    let (x, y) = bezout(a, b);
    assert(m * x + q * y == 1) by (nonlinear_arith)
        requires
            a * x + b * y == g,
            a as int == g * m,
            b as int == g * q,
            g > 0,
    ;
    lemma_coprime_from_combination(m as nat, q as nat, x, y);
    let r = normalize(n, d);
    assert(abs(r.0) == m);
    // value: r.0 * d == n * q
    assert(r.0 * d == n * r.1) by (nonlinear_arith)
        requires
            a as int == g * m,
            b as int == g * q,
            r.1 == q,
            (n < 0) == (d < 0) ==> r.0 == m,
            (n < 0) != (d < 0) ==> r.0 == -m,
            n < 0 ==> a == -n,
            n >= 0 ==> a == n,
            d < 0 ==> b == -d,
            d >= 0 ==> b == d,
    ;
    assert(m == 0 ==> a == 0) by (nonlinear_arith)
        requires
            a as int == g * m,
    ;
    if n == 0 {
        assert(m == 0) by (nonlinear_arith)
            requires
                0 == g * m,
                g > 0,
        ;
        assert(gcd(0, q as nat) == q) by {
            reveal_with_fuel(gcd, 2);
        }
    }
}

/// Rationals that denote the same value normalize to the same pair.
pub proof fn lemma_normalize_value(n1: int, d1: int, n2: int, d2: int)
    requires
        d1 != 0,
        d2 != 0,
        n1 * d2 == n2 * d1,
    ensures
        normalize(n1, d1) == normalize(n2, d2),
{
    lemma_normalize(n1, d1);
    lemma_normalize(n2, d2);
    let r1 = normalize(n1, d1);
    let r2 = normalize(n2, d2);
    assert(r1.0 * r2.1 == r2.0 * r1.1) by (nonlinear_arith)
        requires
            r1.0 * d1 == n1 * r1.1,
            r2.0 * d2 == n2 * r2.1,
            n1 * d2 == n2 * d1,
            d1 != 0,
            d2 != 0,
            r1.1 > 0,
            r2.1 > 0,
    ;
    lemma_reduced_unique(r1.0, r1.1, r2.0, r2.1);
}

/// A pair already in canonical form is its own normal form.
pub proof fn lemma_normalize_canonical(r: (i64, i64))
    requires
        is_ratio(r),
    ensures
        normalize(r.0 as int, r.1 as int) == (r.0 as int, r.1 as int),
{
    lemma_normalize(r.0 as int, r.1 as int);
    let s = normalize(r.0 as int, r.1 as int);
    lemma_reduced_unique(s.0, s.1, r.0 as int, r.1 as int);
}

// ---------------------------------------------------------------------------
// Arithmetic through num_rational
// ---------------------------------------------------------------------------

/// `Ratio::new(n, d)` read back as `(numer, denom)`. The crate reduces every new
/// ratio to lowest terms with a positive denominator, and panics on a zero
/// denominator; `i64::MIN` is kept out because reducing it can overflow.
#[verifier::external_body]
pub(crate) fn ratio_new(n: i64, d: i64) -> (r: (i64, i64))
    requires
        d != 0,
        n != i64::MIN,
        d != i64::MIN,
    ensures
        (r.0 as int, r.1 as int) == normalize(n as int, d as int),
{
    let x = Rational64::new(n, d);
    (*x.numer(), *x.denom())
}

/// `a + b` for reduced ratios (`<Ratio as Add>::add`), read back reduced. The sum
/// is computed over the least common multiple of the denominators and reduced with
/// `Ratio::new`, so the pair returned is the normal form of the exact sum.
#[verifier::external_body]
pub(crate) fn ratio_add(a: (i64, i64), b: (i64, i64)) -> (r: (i64, i64))
    requires
        is_ratio(a),
        is_ratio(b),
        add_fits(a, b),
    ensures
        (r.0 as int, r.1 as int) == normalize(a.0 * b.1 + b.0 * a.1, a.1 * b.1),
{
    let x = Rational64::new_raw(a.0, a.1) + Rational64::new_raw(b.0, b.1);
    (*x.numer(), *x.denom())
}

/// `a - b` for reduced ratios (`<Ratio as Sub>::sub`), read back reduced, computed
/// the same way as the sum.
#[verifier::external_body]
pub(crate) fn ratio_sub(a: (i64, i64), b: (i64, i64)) -> (r: (i64, i64))
    requires
        is_ratio(a),
        is_ratio(b),
        add_fits(a, b),
    ensures
        (r.0 as int, r.1 as int) == normalize(a.0 * b.1 - b.0 * a.1, a.1 * b.1),
{
    let x = Rational64::new_raw(a.0, a.1) - Rational64::new_raw(b.0, b.1);
    (*x.numer(), *x.denom())
}

/// `a * b` for reduced ratios (`<Ratio as Mul>::mul`), read back reduced. The
/// factors are cross-reduced first and the product goes through `Ratio::new`, so
/// the pair returned is the normal form of the exact product.
#[verifier::external_body]
pub(crate) fn ratio_mul(a: (i64, i64), b: (i64, i64)) -> (r: (i64, i64))
    requires
        is_ratio(a),
        is_ratio(b),
        mul_fits(a, b),
    ensures
        (r.0 as int, r.1 as int) == normalize(a.0 * b.0, a.1 * b.1),
{
    let x = Rational64::new_raw(a.0, a.1) * Rational64::new_raw(b.0, b.1);
    (*x.numer(), *x.denom())
}

} // verus!
