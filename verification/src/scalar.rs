//! Fixed-point scalars.
//!
//! Every length, speed and weight of the engine is an integer count of steps,
//! `ONE` of which make one world unit. Squared lengths count steps of
//! `1 / (ONE * ONE)`. Quotients round toward zero, so that a quantity and its
//! negation always round to opposite values.

use vstd::prelude::*;

verus! {

/// Number of fixed-point steps in one world unit.
pub const ONE: i64 = 1_000_000;

/// Magnitude of an integer.
pub open spec fn abs(x: int) -> int {
    if x < 0 {
        -x
    } else {
        x
    }
}

/// The largest of three scalars.
pub open spec fn max3(a: int, b: int, c: int) -> int {
    if a > b {
        if a > c {
            a
        } else {
            c
        }
    } else if b > c {
        b
    } else {
        c
    }
}

/// Quotient of `a` by a positive `b`, rounded toward zero.
pub open spec fn div_trunc(a: int, b: int) -> int {
    if a >= 0 {
        a / b
    } else {
        -((-a) / b)
    }
}

/// Integer square root: the largest `r` with `r * r <= n`.
pub open spec fn sqrt_floor(n: nat) -> nat
    decreases n,
{
    if n == 0 {
        0
    } else {
        let r = sqrt_floor((n - 1) as nat);
        if (r + 1) * (r + 1) <= n {
            r + 1
        } else {
            r
        }
    }
}

/// `sqrt_floor(n)` brackets `n` between two consecutive squares.
pub proof fn lemma_sqrt_floor_bounds(n: nat)
    ensures
        sqrt_floor(n) * sqrt_floor(n) <= n,
        n < (sqrt_floor(n) + 1) * (sqrt_floor(n) + 1),
    decreases n,
{
    if n > 0 {
        let r = sqrt_floor((n - 1) as nat);
        let s = sqrt_floor(n);
        lemma_sqrt_floor_bounds((n - 1) as nat);
        if (r + 1) * (r + 1) <= n {
            assert(s == r + 1);
            assert(n < (s + 1) * (s + 1)) by (nonlinear_arith)
                requires
                    s == r + 1,
                    n - 1 < (r + 1) * (r + 1),
            ;
        } else {
            assert(s == r);
        }
    } else {
        assert(sqrt_floor(n) * sqrt_floor(n) == 0 && (sqrt_floor(n) + 1) * (sqrt_floor(n) + 1) == 1)
            by (nonlinear_arith)
            requires
                sqrt_floor(n) == 0,
        ;
    }
}

/// Squaring is monotonic on the naturals.
pub proof fn lemma_square_le(a: int, b: int)
    requires
        0 <= a <= b,
    ensures
        a * a <= b * b,
{
    assert(a * a <= b * b) by (nonlinear_arith)
        requires
            0 <= a <= b,
    ;
}

/// A number and its magnitude have the same square.
pub proof fn lemma_square_of_abs(c: int)
    ensures
        abs(c) * abs(c) == c * c,
{
    assert((-c) * (-c) == c * c) by (nonlinear_arith);
}

/// A number whose square is at most the square of a bound has a magnitude
/// of at most the bound.
pub proof fn lemma_root_le(c: int, bound: int)
    requires
        0 <= bound,
        c * c <= bound * bound,
    ensures
        -bound <= c <= bound,
{
    lemma_square_of_abs(c);
    if abs(c) > bound {
        lemma_square_le(bound + 1, abs(c));
        assert(bound * bound < (bound + 1) * (bound + 1)) by (nonlinear_arith)
            requires
                0 <= bound,
        ;
    }
}

/// Only one natural is bracketed with `n` between its square and the next.
pub proof fn lemma_sqrt_floor_unique(n: nat, r: nat)
    requires
        r * r <= n,
        n < (r + 1) * (r + 1),
    ensures
        r == sqrt_floor(n),
{
    let s = sqrt_floor(n);
    lemma_sqrt_floor_bounds(n);
    if r < s {
        lemma_square_le(r as int + 1, s as int);
    } else if s < r {
        lemma_square_le(s as int + 1, r as int);
    }
}

/// The square root is monotonic.
pub proof fn lemma_sqrt_floor_monotonic(m: nat, n: nat)
    requires
        m <= n,
    ensures
        sqrt_floor(m) <= sqrt_floor(n),
{
    lemma_sqrt_floor_bounds(m);
    lemma_sqrt_floor_bounds(n);
    if sqrt_floor(n) < sqrt_floor(m) {
        lemma_square_le(sqrt_floor(n) as int + 1, sqrt_floor(m) as int);
    }
}

/// The integer square root of a square is its root.
pub proof fn lemma_sqrt_floor_of_square(r: nat)
    ensures
        sqrt_floor(r * r) == r,
{
    assert(r * r < (r + 1) * (r + 1)) by (nonlinear_arith);
    lemma_sqrt_floor_unique(r * r, r);
}

/// A quotient by a positive divisor brackets the dividend between two
/// consecutive multiples of the divisor.
pub proof fn lemma_div_bracket(n: int, d: int)
    requires
        d > 0,
    ensures
        (n / d) * d <= n,
        n < (n / d + 1) * d,
{
    vstd::arithmetic::div_mod::lemma_fundamental_div_mod(n, d);
    vstd::arithmetic::div_mod::lemma_mod_bound(n, d);
    let k = n / d;
    assert(k * d == d * k && (k + 1) * d == d * k + d) by (nonlinear_arith);
}

/// Dividing by a positive divisor keeps the order.
pub proof fn lemma_div_le(a: int, b: int, d: int)
    requires
        d > 0,
        a <= b,
    ensures
        a / d <= b / d,
{
    vstd::arithmetic::div_mod::lemma_div_is_ordered(a, b, d);
}

/// A multiple of the divisor divides exactly.
pub proof fn lemma_div_exact(k: int, d: int)
    requires
        d > 0,
    ensures
        (k * d) / d == k,
{
    vstd::arithmetic::div_mod::lemma_div_multiples_vanish(k, d);
    assert(k * d == d * k) by (nonlinear_arith);
}

/// Returns the largest of three scalars.
pub fn partial_max(a: i64, b: i64, c: i64) -> (m: i64)
    ensures
        m == max3(a as int, b as int, c as int),
{
    if a > b {
        if a > c {
            a
        } else {
            c
        }
    } else if b > c {
        b
    } else {
        c
    }
}

/// Computes the integer square root by bisection.
pub fn isqrt(n: u128) -> (r: u128)
    ensures
        r == sqrt_floor(n as nat),
        r <= u64::MAX,
{
    let mut lo: u128 = 0;
    let mut hi: u128 = 0x1_0000_0000_0000_0000;
    while hi - lo > 1
        invariant
            lo < hi <= 0x1_0000_0000_0000_0000,
            lo * lo <= n,
            n < hi * hi,
        decreases hi - lo,
    {
        let mid: u128 = lo + (hi - lo) / 2;
        assert(mid * mid <= u128::MAX) by (nonlinear_arith)
            requires
                mid <= 0xFFFF_FFFF_FFFF_FFFF,
        ;
        if mid * mid <= n {
            lo = mid;
        } else {
            hi = mid;
        }
    }
    proof {
        lemma_sqrt_floor_unique(n as nat, lo as nat);
    }
    lo
}

/// Divides `a` by a positive `b`, rounding toward zero.
pub fn div_toward_zero(a: i128, b: i128) -> (q: i128)
    requires
        b > 0,
        a > i128::MIN,
    ensures
        q == div_trunc(a as int, b as int),
        abs(q as int) <= abs(a as int),
{
    if a >= 0 {
        let q: i128 = ((a as u128) / (b as u128)) as i128;
        assert(q * b <= a) by (nonlinear_arith)
            requires q == a / b, b > 0, a >= 0;
        assert(q <= a) by (nonlinear_arith)
            requires q * b <= a, b >= 1, q >= 0, a >= 0;
        q
    } else {
        let m: i128 = -a;
        let q: i128 = ((m as u128) / (b as u128)) as i128;
        assert(q * b <= m) by (nonlinear_arith)
            requires q == m / b, b > 0, m >= 0;
        assert(q <= m) by (nonlinear_arith)
            requires q * b <= m, b >= 1, q >= 0, m >= 0;
        -q
    }
}

/// The product of two 64-bit scalars always fits in 128 bits.
pub fn wide_product(a: i64, b: i64) -> (p: i128)
    ensures
        p == a * b,
        -0x4000_0000_0000_0000_0000_0000_0000_0000 <= p <= 0x4000_0000_0000_0000_0000_0000_0000_0000,
{
    assert(-0x4000_0000_0000_0000_0000_0000_0000_0000 <= a * b
        <= 0x4000_0000_0000_0000_0000_0000_0000_0000) by (nonlinear_arith)
        requires
            -0x8000_0000_0000_0000 <= a <= 0x8000_0000_0000_0000,
            -0x8000_0000_0000_0000 <= b <= 0x8000_0000_0000_0000,
    ;
    (a as i128) * (b as i128)
}

/// A product is bounded by the product of the bounds of its factors.
pub proof fn lemma_product_bound(a: int, b: int, bound_a: int, bound_b: int)
    requires
        -bound_a <= a <= bound_a,
        -bound_b <= b <= bound_b,
    ensures
        -(bound_a * bound_b) <= a * b <= bound_a * bound_b,
{
    assert(-(bound_a * bound_b) <= a * b <= bound_a * bound_b) by (nonlinear_arith)
        requires
            -bound_a <= a <= bound_a,
            -bound_b <= b <= bound_b,
    ;
}

/// A square is non-negative and bounded by the square of the bound.
pub proof fn lemma_square_bound(a: int, bound: int)
    requires
        -bound <= a <= bound,
    ensures
        0 <= a * a <= bound * bound,
{
    assert(0 <= a * a <= bound * bound) by (nonlinear_arith)
        requires
            -bound <= a <= bound,
    ;
}

/// A quotient rounded toward zero is bounded by `x` where the dividend is
/// bounded by `x` times the divisor.
pub proof fn lemma_div_trunc_bound(a: int, d: int, x: int)
    requires
        d > 0,
        x >= 0,
        -(x * d) <= a <= x * d,
    ensures
        -x <= div_trunc(a, d) <= x,
{
    let m = abs(a);
    lemma_div_le(m, x * d, d);
    lemma_div_exact(x, d);
    lemma_div_bracket(m, d);
    assert(0 <= m / d) by (nonlinear_arith)
        requires
            m < (m / d + 1) * d,
            0 <= m,
            d > 0,
    ;
}

/// A scalar whose square is at most `q` has a magnitude of at most the
/// integer square root of `q`.
pub proof fn lemma_component_below_root(c: int, q: int)
    requires
        0 <= c * c <= q,
    ensures
        -(sqrt_floor(q as nat) as int) <= c <= sqrt_floor(q as nat),
{
    let len = sqrt_floor(q as nat) as int;
    lemma_sqrt_floor_bounds(q as nat);
    if abs(c) > len {
        lemma_square_le(len + 1, abs(c));
        lemma_square_of_abs(c);
    }
}

/// Scaling by a factor that is not positive turns a scalar round or
/// makes it zero.
pub proof fn lemma_div_trunc_sign(c: int, num: int, den: int)
    requires
        den > 0,
        num <= 0,
    ensures
        c >= 0 ==> div_trunc(c * num, den) <= 0,
        c <= 0 ==> div_trunc(c * num, den) >= 0,
{
    let a = c * num;
    assert((c >= 0 ==> a <= 0) && (c <= 0 ==> a >= 0)) by (nonlinear_arith)
        requires
            a == c * num,
            num <= 0,
    ;
    if a >= 0 {
        assert(a / den >= 0) by (nonlinear_arith)
            requires
                a >= 0,
                den > 0,
        ;
    } else {
        assert((-a) / den >= 0) by (nonlinear_arith)
            requires
                -a >= 0,
                den > 0,
        ;
    }
}

} // verus!
