//! Exact integer arithmetic shared by the geometry and shading code:
//! square roots, division that rounds toward zero, and clamping.

use vstd::prelude::*;

verus! {

/// The largest integer whose square does not exceed `n` (zero for negative `n`).
pub open spec fn floor_sqrt(n: int) -> int
    decreases n,
{
    if n <= 0 {
        0
    } else {
        let r = floor_sqrt(n - 1);
        if (r + 1) * (r + 1) <= n {
            r + 1
        } else {
            r
        }
    }
}

/// The smallest non-negative integer whose square is at least `n`.
pub open spec fn ceil_sqrt(n: int) -> int {
    let r = floor_sqrt(n);
    if r * r >= n {
        r
    } else {
        r + 1
    }
}

/// Quotient of `a` by a positive `b`, rounded toward zero.
pub open spec fn trunc_div(a: int, b: int) -> int {
    if a >= 0 {
        a / b
    } else {
        -((-a) / b)
    }
}

/// `floor_sqrt(n)` is the integer square root of a non-negative `n`.
pub proof fn lemma_floor_sqrt_bounds(n: int)
    requires
        n >= 0,
    ensures
        floor_sqrt(n) >= 0,
        floor_sqrt(n) * floor_sqrt(n) <= n,
        n < (floor_sqrt(n) + 1) * (floor_sqrt(n) + 1),
    decreases n,
{
    if n > 0 {
        lemma_floor_sqrt_bounds(n - 1);
        let r = floor_sqrt(n - 1);
        assert(r * r <= n - 1);
        assert(n - 1 < (r + 1) * (r + 1));
        if (r + 1) * (r + 1) <= n {
            assert((r + 1) * (r + 1) == n);
            assert(n < (r + 2) * (r + 2)) by (nonlinear_arith)
                requires
                    (r + 1) * (r + 1) == n,
                    r >= 0,
            ;
        }
    }
}

/// Only one non-negative integer lies between the bounds of the integer square root.
pub proof fn lemma_floor_sqrt_unique(n: int, r: int)
    requires
        r >= 0,
        r * r <= n,
        n < (r + 1) * (r + 1),
    ensures
        floor_sqrt(n) == r,
{
    assert(n >= 0) by (nonlinear_arith)
        requires
            r * r <= n,
    ;
    lemma_floor_sqrt_bounds(n);
    let s = floor_sqrt(n);
    if s < r {
        assert((s + 1) * (s + 1) <= r * r) by (nonlinear_arith)
            requires
                0 <= s,
                s + 1 <= r,
        ;
    } else if s > r {
        assert((r + 1) * (r + 1) <= s * s) by (nonlinear_arith)
            requires
                0 <= r,
                r + 1 <= s,
        ;
    }
}

/// The integer square root does not decrease when its argument grows.
pub proof fn lemma_floor_sqrt_monotonic(a: int, b: int)
    requires
        0 <= a <= b,
    ensures
        floor_sqrt(a) <= floor_sqrt(b),
{
    lemma_floor_sqrt_bounds(a);
    lemma_floor_sqrt_bounds(b);
    let s = floor_sqrt(a);
    let t = floor_sqrt(b);
    if t < s {
        assert((t + 1) * (t + 1) <= s * s) by (nonlinear_arith)
            requires
                0 <= t,
                t + 1 <= s,
        ;
    }
}

/// The bounds that characterise `ceil_sqrt`.
pub proof fn lemma_ceil_sqrt_bounds(n: int)
    requires
        n >= 0,
    ensures
        ceil_sqrt(n) >= 0,
        ceil_sqrt(n) * ceil_sqrt(n) >= n,
        ceil_sqrt(n) == 0 || (ceil_sqrt(n) - 1) * (ceil_sqrt(n) - 1) < n,
{
    lemma_floor_sqrt_bounds(n);
    let r = floor_sqrt(n);
    if r * r >= n {
        if r > 0 {
            assert((r - 1) * (r - 1) < r * r) by (nonlinear_arith)
                requires
                    r > 0,
            ;
        }
    }
}

/// The square root of a perfect square.
pub proof fn lemma_sqrt_of_square(r: int)
    requires
        r >= 0,
    ensures
        floor_sqrt(r * r) == r,
        ceil_sqrt(r * r) == r,
{
    assert(r * r < (r + 1) * (r + 1)) by (nonlinear_arith)
        requires
            r >= 0,
    ;
    lemma_floor_sqrt_unique(r * r, r);
}

/// The bound that every integer square root of a 128-bit number lies below.
pub const SQRT_LIMIT: u128 = 0x1_0000_0000_0000_0000;

/// Integer square root, rounded down.
pub fn isqrt(n: u128) -> (r: u128)
    ensures
        r == floor_sqrt(n as int),
        r < SQRT_LIMIT,
{
    let mut lo: u128 = 0;
    let mut hi: u128 = SQRT_LIMIT;
    assert(n < hi * hi) by (nonlinear_arith)
        requires
            hi == 0x1_0000_0000_0000_0000,
            n <= 0xffff_ffff_ffff_ffff_ffff_ffff_ffff_ffff,
    ;
    while hi - lo > 1
        invariant
            lo < hi <= SQRT_LIMIT,
            lo * lo <= n,
            n < hi * hi,
        decreases hi - lo,
    {
        let mid: u128 = lo + (hi - lo) / 2;
        assert(mid * mid <= 0xffff_ffff_ffff_ffff_ffff_ffff_ffff_ffff) by (nonlinear_arith)
            requires
                0 <= mid <= 0xffff_ffff_ffff_ffff,
        ;
        if mid * mid <= n {
            lo = mid;
        } else {
            hi = mid;
        }
    }
    proof {
        lemma_floor_sqrt_unique(n as int, lo as int);
    }
    lo
}

/// Integer square root, rounded up.
pub fn isqrt_ceil(n: u128) -> (r: u128)
    ensures
        r == ceil_sqrt(n as int),
        r <= SQRT_LIMIT,
{
    let r: u128 = isqrt(n);
    proof {
        lemma_floor_sqrt_bounds(n as int);
        assert(r * r <= 0xffff_ffff_ffff_ffff_ffff_ffff_ffff_ffff) by (nonlinear_arith)
            requires
                0 <= r <= 0xffff_ffff_ffff_ffff,
        ;
    }
    if r * r >= n {
        r
    } else {
        r + 1
    }
}

/// Divides by a positive number and rounds toward zero.
pub fn div_toward_zero(a: i128, b: i128) -> (q: i128)
    requires
        b > 0,
        a > i128::MIN,
    ensures
        q == trunc_div(a as int, b as int),
{
    if a >= 0 {
        a / b
    } else {
        let n: i128 = -a;
        let m: i128 = n / b;
        -m
    }
}

/// The magnitude of a rounded quotient does not exceed that of the dividend.
pub proof fn lemma_trunc_div_bounds(a: int, b: int)
    requires
        b > 0,
    ensures
        a >= 0 ==> 0 <= trunc_div(a, b) <= a,
        a <= 0 ==> a <= trunc_div(a, b) <= 0,
        a >= 0 ==> a - b < trunc_div(a, b) * b <= a,
        a <= 0 ==> a <= trunc_div(a, b) * b < a + b,
{
    if a >= 0 {
        vstd::arithmetic::div_mod::lemma_fundamental_div_mod(a, b);
        vstd::arithmetic::div_mod::lemma_mod_bound(a, b);
        let q = a / b;
        assert(b * q + a % b == a);
        assert(q * b == b * q) by (nonlinear_arith);
        vstd::arithmetic::div_mod::lemma_div_pos_is_pos(a, b);
        assert(q <= a) by (nonlinear_arith)
            requires
                q * b <= a,
                b >= 1,
                q >= 0,
        ;
    } else {
        let n = -a;
        vstd::arithmetic::div_mod::lemma_fundamental_div_mod(n, b);
        vstd::arithmetic::div_mod::lemma_mod_bound(n, b);
        let q = n / b;
        assert(b * q + n % b == n);
        assert(q * b == b * q) by (nonlinear_arith);
        vstd::arithmetic::div_mod::lemma_div_pos_is_pos(n, b);
        assert(q <= n) by (nonlinear_arith)
            requires
                q * b <= n,
                b >= 1,
                q >= 0,
        ;
        assert((-q) * b == -(q * b)) by (nonlinear_arith);
    }
}

/// The larger of two integers.
pub open spec fn larger(a: int, b: int) -> int {
    if a >= b {
        a
    } else {
        b
    }
}

/// The magnitude of an integer.
pub open spec fn magnitude(v: int) -> int {
    if v < 0 {
        -v
    } else {
        v
    }
}

/// The length of the vector `(dx, dy)`, rounded down.
pub open spec fn hypotenuse(dx: int, dy: int) -> int {
    floor_sqrt(dx * dx + dy * dy)
}

/// The length of a vector is at least the magnitude of each component and
/// at most their sum.
pub proof fn lemma_hypotenuse_bounds(dx: int, dy: int)
    ensures
        magnitude(dx) <= hypotenuse(dx, dy),
        magnitude(dy) <= hypotenuse(dx, dy),
        hypotenuse(dx, dy) <= magnitude(dx) + magnitude(dy),
        dx * dx + dy * dy >= 0,
{
    let n = dx * dx + dy * dy;
    let a = magnitude(dx);
    let b = magnitude(dy);
    assert(a * a == dx * dx) by (nonlinear_arith)
        requires
            a == dx || a == -dx,
    ;
    assert(b * b == dy * dy) by (nonlinear_arith)
        requires
            b == dy || b == -dy,
    ;
    assert(a * a >= 0 && b * b >= 0) by (nonlinear_arith);
    lemma_floor_sqrt_bounds(n);
    let r = floor_sqrt(n);
    if r < a {
        assert((r + 1) * (r + 1) <= a * a) by (nonlinear_arith)
            requires
                0 <= r,
                r + 1 <= a,
        ;
    }
    if r < b {
        assert((r + 1) * (r + 1) <= b * b) by (nonlinear_arith)
            requires
                0 <= r,
                r + 1 <= b,
        ;
    }
    if r > a + b {
        assert((a + b + 1) * (a + b + 1) <= r * r) by (nonlinear_arith)
            requires
                0 <= a + b,
                a + b + 1 <= r,
        ;
        assert(a * a + b * b < (a + b + 1) * (a + b + 1)) by (nonlinear_arith)
            requires
                0 <= a,
                0 <= b,
        ;
    }
}

/// The largest magnitude of a component handed to `hypot`.
pub const HYPOT_LIMIT: i64 = 0x4000_0000_0000_0000;

/// The length of the vector `(dx, dy)`, rounded down.
pub fn hypot(dx: i64, dy: i64) -> (length: i64)
    requires
        -HYPOT_LIMIT < dx < HYPOT_LIMIT,
        -HYPOT_LIMIT < dy < HYPOT_LIMIT,
    ensures
        length == hypotenuse(dx as int, dy as int),
        magnitude(dx as int) <= length,
        magnitude(dy as int) <= length,
        length <= magnitude(dx as int) + magnitude(dy as int),
{
    let a: u128 = if dx < 0 { (-dx) as u128 } else { dx as u128 };
    let b: u128 = if dy < 0 { (-dy) as u128 } else { dy as u128 };
    assert(a * a + b * b <= 0x2000_0000_0000_0000_0000_0000_0000_0000) by (nonlinear_arith)
        requires
            0 <= a < 0x4000_0000_0000_0000,
            0 <= b < 0x4000_0000_0000_0000,
    ;
    assert(a * a == dx * dx) by (nonlinear_arith)
        requires
            a == dx || a == -dx,
    ;
    assert(b * b == dy * dy) by (nonlinear_arith)
        requires
            b == dy || b == -dy,
    ;
    proof {
        lemma_hypotenuse_bounds(dx as int, dy as int);
    }
    let root: u128 = isqrt(a * a + b * b);
    root as i64
}

/// A rounded quotient is no larger in magnitude than the bound that the
/// dividend keeps per unit of the divisor.
pub proof fn lemma_trunc_div_scaled(a: int, b: int, bound: int)
    requires
        b > 0,
        bound >= 0,
        magnitude(a) <= bound * b,
    ensures
        magnitude(trunc_div(a, b)) <= bound,
{
    lemma_trunc_div_bounds(a, b);
    let q = trunc_div(a, b);
    if q > bound {
        assert(q * b >= (bound + 1) * b) by (nonlinear_arith)
            requires
                q >= bound + 1,
                b > 0,
        ;
        assert((bound + 1) * b == bound * b + b) by (nonlinear_arith);
    }
    if q < -bound {
        assert(q * b <= (-bound - 1) * b) by (nonlinear_arith)
            requires
                q <= -bound - 1,
                b > 0,
        ;
        assert((-bound - 1) * b == -(bound * b) - b) by (nonlinear_arith);
    }
}

} // verus!
