//! Fixed-point scalar arithmetic.
//!
//! A scalar is an `i64` holding `SCALE` subunits per world unit.  All
//! geometry in the crate is stated over these integers, so every operation
//! here has an exact mathematical contract.

use vstd::prelude::*;

verus! {

/// Number of subunits in one world unit.
pub const SCALE: i64 = 65536;

/// Largest coordinate magnitude the engine works with: enough for the
/// largest grid (65535 cells of 32 world units) and then some.
pub const POS_LIMIT: i64 = 137438953472;

/// Largest velocity component magnitude (subunits per second).
pub const VEL_LIMIT: i64 = 536870912;

/// Largest time step (subunits of a second): 1/32 s.
pub const DELTA_LIMIT: i64 = 2048;

/// Largest displacement component of a per-tick travel segment.
pub const DISP_LIMIT: i64 = 16777216;

/// Truncating division of `a` by a positive `b` (rounds toward zero), as a
/// spec-level definition over mathematical integers.
pub open spec fn div_trunc(a: int, b: int) -> int
    recommends
        b > 0,
{
    if a >= 0 {
        a / b
    } else {
        -((-a) / b)
    }
}

/// Truncating division on `i128`, exact per `div_trunc`.
pub fn div_trunc_i128(a: i128, b: i128) -> (q: i128)
    requires
        b > 0,
        a > i128::MIN,
    ensures
        q == div_trunc(a as int, b as int),
{
    if a >= 0 {
        let au: u128 = a as u128;
        let bu: u128 = b as u128;
        let qu: u128 = au / bu;
        assert(qu <= au);
        qu as i128
    } else {
        let au: u128 = (-a) as u128;
        let bu: u128 = b as u128;
        let qu: u128 = au / bu;
        assert(qu <= au);
        -(qu as i128)
    }
}

/// Exact product of two `i64` values, which always fits in `i128`.
pub fn mul_wide(a: i64, b: i64) -> (r: i128)
    ensures
        r == a as int * b as int,
        -0x4000_0000_0000_0000_0000_0000_0000_0000i128 <= r
            <= 0x4000_0000_0000_0000_0000_0000_0000_0000i128,
{
    let aw: i128 = a as i128;
    let bw: i128 = b as i128;
    assert(-0x4000_0000_0000_0000_0000_0000_0000_0000i128 <= aw * bw
        <= 0x4000_0000_0000_0000_0000_0000_0000_0000i128) by (nonlinear_arith)
        requires
            -0x8000_0000_0000_0000i128 <= aw <= 0x8000_0000_0000_0000i128,
            -0x8000_0000_0000_0000i128 <= bw <= 0x8000_0000_0000_0000i128,
    ;
    aw * bw
}

/// Exact sum of squares of two bounded `i64` values.
pub fn sq_sum(a: i64, b: i64) -> (r: i128)
    requires
        -0x4000_0000_0000_0000 <= a <= 0x4000_0000_0000_0000,
        -0x4000_0000_0000_0000 <= b <= 0x4000_0000_0000_0000,
    ensures
        r == a as int * a as int + b as int * b as int,
        0 <= r <= 0x2000_0000_0000_0000_0000_0000_0000_0000i128,
{
    let aw: i128 = a as i128;
    let bw: i128 = b as i128;
    assert(0 <= aw * aw <= 0x1000_0000_0000_0000_0000_0000_0000_0000i128) by (nonlinear_arith)
        requires
            -0x4000_0000_0000_0000i128 <= aw <= 0x4000_0000_0000_0000i128,
    ;
    assert(0 <= bw * bw <= 0x1000_0000_0000_0000_0000_0000_0000_0000i128) by (nonlinear_arith)
        requires
            -0x4000_0000_0000_0000i128 <= bw <= 0x4000_0000_0000_0000i128,
    ;
    aw * aw + bw * bw
}

/// Exact dot product of two bounded `i64` pairs.
pub fn dot_wide(ax: i64, ay: i64, bx: i64, by: i64) -> (r: i128)
    requires
        -0x4000_0000_0000_0000 <= ax <= 0x4000_0000_0000_0000,
        -0x4000_0000_0000_0000 <= ay <= 0x4000_0000_0000_0000,
        -0x4000_0000_0000_0000 <= bx <= 0x4000_0000_0000_0000,
        -0x4000_0000_0000_0000 <= by <= 0x4000_0000_0000_0000,
    ensures
        r == ax as int * bx as int + ay as int * by as int,
        -0x2000_0000_0000_0000_0000_0000_0000_0000i128 <= r
            <= 0x2000_0000_0000_0000_0000_0000_0000_0000i128,
{
    let axw: i128 = ax as i128;
    let ayw: i128 = ay as i128;
    let bxw: i128 = bx as i128;
    let byw: i128 = by as i128;
    assert(-0x1000_0000_0000_0000_0000_0000_0000_0000i128 <= axw * bxw
        <= 0x1000_0000_0000_0000_0000_0000_0000_0000i128) by (nonlinear_arith)
        requires
            -0x4000_0000_0000_0000i128 <= axw <= 0x4000_0000_0000_0000i128,
            -0x4000_0000_0000_0000i128 <= bxw <= 0x4000_0000_0000_0000i128,
    ;
    assert(-0x1000_0000_0000_0000_0000_0000_0000_0000i128 <= ayw * byw
        <= 0x1000_0000_0000_0000_0000_0000_0000_0000i128) by (nonlinear_arith)
        requires
            -0x4000_0000_0000_0000i128 <= ayw <= 0x4000_0000_0000_0000i128,
            -0x4000_0000_0000_0000i128 <= byw <= 0x4000_0000_0000_0000i128,
    ;
    axw * bxw + ayw * byw
}

/// Scaling by a ratio `k / s` with `0 <= k <= s` never grows a value's
/// magnitude and never flips its sign.
pub proof fn lemma_scale_shrink(x: int, k: int, s: int)
    requires
        0 <= k <= s,
        s > 0,
    ensures
        x >= 0 ==> 0 <= div_trunc(x * k, s) <= x,
        x < 0 ==> x <= div_trunc(x * k, s) <= 0,
{
    if x >= 0 {
        assert(0 <= x * k <= x * s) by (nonlinear_arith)
            requires
                0 <= k <= s,
                x >= 0,
        ;
        vstd::arithmetic::div_mod::lemma_div_is_ordered(x * k, x * s, s);
        vstd::arithmetic::div_mod::lemma_div_by_multiple(x, s);
        assert(div_trunc(x * k, s) == (x * k) / s);
    } else {
        let y = -x;
        assert(0 <= y * k <= y * s) by (nonlinear_arith)
            requires
                0 <= k <= s,
                y >= 0,
        ;
        vstd::arithmetic::div_mod::lemma_div_is_ordered(y * k, y * s, s);
        vstd::arithmetic::div_mod::lemma_div_by_multiple(y, s);
        assert(x * k == -(y * k)) by (nonlinear_arith)
            requires
                y == -x,
        ;
        assert(div_trunc(x * k, s) == -((y * k) / s));
    }
}

/// When `|a| <= b * c`, the truncating quotient of `a` by `b` lies in
/// `[-c, c]`.
pub proof fn lemma_div_trunc_quotient_bound(a: int, b: int, c: int)
    requires
        b > 0,
        0 <= c,
        -(b * c) <= a <= b * c,
    ensures
        -c <= div_trunc(a, b) <= c,
{
    assert(b * c == c * b) by (nonlinear_arith);
    if a >= 0 {
        vstd::arithmetic::div_mod::lemma_div_is_ordered(a, c * b, b);
        vstd::arithmetic::div_mod::lemma_div_by_multiple(c, b);
    } else {
        vstd::arithmetic::div_mod::lemma_div_is_ordered(-a, c * b, b);
        vstd::arithmetic::div_mod::lemma_div_by_multiple(c, b);
    }
}

/// The integer square root of `n`: the greatest `r` with `r * r <= n`.
pub open spec fn sqrt_floor(n: int) -> int {
    choose|r: int| 0 <= r && #[trigger] (r * r) <= n < (r + 1) * (r + 1)
}

/// Every nonnegative integer has an integer square root.
pub proof fn lemma_sqrt_exists(n: int)
    requires
        n >= 0,
    ensures
        exists|r: int| 0 <= r && #[trigger] (r * r) <= n < (r + 1) * (r + 1),
    decreases n,
{
    if n == 0 {
        assert(0 <= 0int && 0int * 0int <= n < (0int + 1) * (0int + 1));
    } else {
        lemma_sqrt_exists(n - 1);
        let r = choose|r: int| 0 <= r && #[trigger] (r * r) <= n - 1 < (r + 1) * (r + 1);
        if n < (r + 1) * (r + 1) {
            assert(r * r <= n < (r + 1) * (r + 1));
        } else {
            assert(n == (r + 1) * (r + 1));
            assert((r + 1) * (r + 1) < (r + 2) * (r + 2)) by (nonlinear_arith)
                requires
                    r >= 0,
            ;
            assert(0 <= r + 1 && (r + 1) * (r + 1) <= n < (r + 2) * (r + 2));
        }
    }
}

/// The integer square root of a nonnegative number is nonnegative and
/// bracketed by its defining squares.
pub proof fn lemma_sqrt_floor_bracket(n: int)
    requires
        n >= 0,
    ensures
        0 <= sqrt_floor(n),
        sqrt_floor(n) * sqrt_floor(n) <= n,
        n < (sqrt_floor(n) + 1) * (sqrt_floor(n) + 1),
{
    lemma_sqrt_exists(n);
    let r = choose|r: int| 0 <= r && #[trigger] (r * r) <= n < (r + 1) * (r + 1);
    lemma_sqrt_floor_unique(n, r);
}

/// Any `r` with `r * r <= n < (r + 1) * (r + 1)` is `sqrt_floor(n)`: the
/// integer square root is unique.
pub proof fn lemma_sqrt_floor_unique(n: int, r: int)
    requires
        0 <= r,
        r * r <= n,
        n < (r + 1) * (r + 1),
    ensures
        r == sqrt_floor(n),
{
    assert(0 <= r && r * r <= n < (r + 1) * (r + 1));
    let c = sqrt_floor(n);
    assert(0 <= c && c * c <= n < (c + 1) * (c + 1));
    if c > r {
        assert((r + 1) * (r + 1) <= c * c) by (nonlinear_arith)
            requires
                0 <= r,
                r + 1 <= c,
        ;
    }
    if c < r {
        assert((c + 1) * (c + 1) <= r * r) by (nonlinear_arith)
            requires
                0 <= c,
                c + 1 <= r,
        ;
    }
}

/// Multiplying a truncating quotient back by the divisor never exceeds
/// the dividend in magnitude and keeps its sign.
pub proof fn lemma_div_trunc_mul_le(a: int, b: int)
    requires
        b > 0,
    ensures
        a >= 0 ==> 0 <= div_trunc(a, b) * b <= a,
        a < 0 ==> a <= div_trunc(a, b) * b <= 0,
{
    if a >= 0 {
        vstd::arithmetic::div_mod::lemma_fundamental_div_mod(a, b);
        assert(div_trunc(a, b) * b == a - a % b) by (nonlinear_arith)
            requires
                a == b * (a / b) + a % b,
                div_trunc(a, b) == a / b,
        ;
    } else {
        let m = -a;
        vstd::arithmetic::div_mod::lemma_fundamental_div_mod(m, b);
        assert(div_trunc(a, b) * b == a + m % b) by (nonlinear_arith)
            requires
                m == b * (m / b) + m % b,
                div_trunc(a, b) == -(m / b),
                a == -m,
        ;
    }
}

/// Integer square root: the greatest `r` with `r * r <= n`.
pub fn isqrt(n: u64) -> (r: u64)
    ensures
        r * r <= n,
        n < (r + 1) * (r + 1),
        r <= 4294967295,
        r == sqrt_floor(n as int),
{
    let mut lo: u64 = 0;
    let mut hi: u64 = 4294967295;
    while lo < hi
        invariant
            lo <= hi <= 4294967295,
            lo * lo <= n,
            n < (hi + 1) * (hi + 1),
        decreases hi - lo,
    {
        let mid: u64 = lo + (hi - lo + 1) / 2;

        assert(mid * mid <= 4294967295u64 * 4294967295u64) by (nonlinear_arith)
            requires
                mid <= 4294967295u64,
        ;
        if mid * mid <= n {
            lo = mid;
        } else {
            hi = mid - 1;
        }
    }
    proof {
        lemma_sqrt_floor_unique(n as int, lo as int);
    }
    lo
}

} // verus!
