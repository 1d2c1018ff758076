//! Geometry primitives: points, vectors, the circle-versus-segment hit test
//! and reflection across a wall normal, all in exact fixed-point integers.

use vstd::prelude::*;
use crate::fixed::{div_trunc, div_trunc_i128, sqrt_floor, SCALE, VEL_LIMIT, DELTA_LIMIT, DISP_LIMIT};

verus! {

/// A position in the world, in subunits (`SCALE` subunits per world unit).
#[derive(Clone, Copy, Debug, PartialEq, Eq, Structural)]
pub struct Point2 {
    pub x: i64,
    pub y: i64,
}

/// A displacement or velocity, in subunits.
#[derive(Clone, Copy, Debug, PartialEq, Eq, Structural)]
pub struct Vector2 {
    pub x: i64,
    pub y: i64,
}

/// Squared length of the vector `(x, y)`.
pub open spec fn norm_sq(x: int, y: int) -> int {
    x * x + y * y
}

impl Point2 {
    pub fn new(x: i64, y: i64) -> (p: Point2)
        ensures
            p == (Point2 { x, y }),
    {
        Point2 { x, y }
    }

    /// The point reached by following `v` from `self`.
    pub fn offset(self, v: Vector2) -> (p: Point2)
        requires
            self.x + v.x <= i64::MAX,
            self.x + v.x >= i64::MIN,
            self.y + v.y <= i64::MAX,
            self.y + v.y >= i64::MIN,
        ensures
            p.x == self.x + v.x,
            p.y == self.y + v.y,
    {
        Point2 { x: self.x + v.x, y: self.y + v.y }
    }

    /// The displacement from `other` to `self`.
    pub fn minus(self, other: Point2) -> (v: Vector2)
        requires
            self.x - other.x <= i64::MAX,
            self.x - other.x >= i64::MIN,
            self.y - other.y <= i64::MAX,
            self.y - other.y >= i64::MIN,
        ensures
            v.x == self.x - other.x,
            v.y == self.y - other.y,
    {
        Vector2 { x: self.x - other.x, y: self.y - other.y }
    }

    /// Whether `other` lies within `radius` of `self` (Euclidean, exact:
    /// compares squared distance against the squared radius).
    pub fn within(self, other: Point2, radius: i64) -> (b: bool)
        requires
            -0x4000_0000_0000_0000 <= self.x - other.x <= 0x4000_0000_0000_0000,
            -0x4000_0000_0000_0000 <= self.y - other.y <= 0x4000_0000_0000_0000,
            0 <= radius <= 0x4000_0000_0000_0000,
        ensures
            b == (norm_sq(self.x - other.x, self.y - other.y) <= radius * radius),
    {
        let dx: i64 = self.x - other.x;
        let dy: i64 = self.y - other.y;
        let d2 = crate::fixed::sq_sum(dx, dy);
        let r2 = crate::fixed::mul_wide(radius, radius);
        d2 <= r2
    }
}

impl Vector2 {
    pub fn new(x: i64, y: i64) -> (v: Vector2)
        ensures
            v == (Vector2 { x, y }),
    {
        Vector2 { x, y }
    }

    pub fn zero() -> (v: Vector2)
        ensures
            v.x == 0 && v.y == 0,
    {
        Vector2 { x: 0, y: 0 }
    }

    /// Squared length, exact.
    pub fn norm_sq(self) -> (n: i128)
        requires
            -0x4000_0000_0000_0000 <= self.x <= 0x4000_0000_0000_0000,
            -0x4000_0000_0000_0000 <= self.y <= 0x4000_0000_0000_0000,
        ensures
            n == norm_sq(self.x as int, self.y as int),
            n >= 0,
    {
        crate::fixed::sq_sum(self.x, self.y)
    }

    /// Length rounded down: the greatest `n` with `n * n <= |self|^2`.
    pub fn norm(self) -> (n: i64)
        requires
            -0x8000_0000 <= self.x <= 0x8000_0000,
            -0x8000_0000 <= self.y <= 0x8000_0000,
        ensures
            0 <= n <= 0x1_0000_0000,
            n * n <= norm_sq(self.x as int, self.y as int),
            norm_sq(self.x as int, self.y as int) < (n + 1) * (n + 1),
            n == sqrt_floor(norm_sq(self.x as int, self.y as int)),
    {
        let sq2 = crate::fixed::sq_sum(self.x, self.y);
        assert(sq2 <= 0x8000_0000i128 * 0x8000_0000i128 + 0x8000_0000i128 * 0x8000_0000i128)
            by (nonlinear_arith)
            requires
                sq2 == self.x as int * self.x as int + self.y as int * self.y as int,
                -0x8000_0000 <= self.x <= 0x8000_0000,
                -0x8000_0000 <= self.y <= 0x8000_0000,
        ;
        let sq: u64 = sq2 as u64;
        let r = crate::fixed::isqrt(sq);
        r as i64
    }
}

/// Whether the circle of the given squared radius around `(wx, wy)` (the
/// circle centre, relative to the segment's start) meets the segment from
/// the origin to `(dx, dy)`.  This is the exact comparison of the least
/// squared distance from the centre to the segment against the squared
/// radius: the nearest parameter `t* = (w . d) / (d . d)` is clamped to
/// `[0, 1]`, and in the interior case the comparison is cross-multiplied by
/// `d . d` so that no rounding occurs.
pub open spec fn circle_meets_segment(wx: int, wy: int, dx: int, dy: int, r: int) -> bool {
    let wd = wx * dx + wy * dy;
    let dd = dx * dx + dy * dy;
    if wd <= 0 {
        norm_sq(wx, wy) <= r * r
    } else if wd >= dd {
        norm_sq(wx - dx, wy - dy) <= r * r
    } else {
        norm_sq(wx, wy) * dd - wd * wd <= r * r * dd
    }
}

/// Exact circle-versus-segment hit test: does the segment from `start` to
/// `start + delta` pass within `radius` of `center`?
pub fn segment_hits_circle(start: Point2, delta: Vector2, center: Point2, radius: i64) -> (b:
    bool)
    requires
        -0x48_0000_0000 <= center.x - start.x <= 0x48_0000_0000,
        -0x48_0000_0000 <= center.y - start.y <= 0x48_0000_0000,
        -0x100_0000 <= delta.x <= 0x100_0000,
        -0x100_0000 <= delta.y <= 0x100_0000,
        0 <= radius <= 0x100_0000,
    ensures
        b == circle_meets_segment(
            center.x - start.x,
            center.y - start.y,
            delta.x as int,
            delta.y as int,
            radius as int,
        ),
{
    let wx: i64 = center.x - start.x;
    let wy: i64 = center.y - start.y;
    let wd: i128 = crate::fixed::dot_wide(wx, wy, delta.x, delta.y);
    let dd: i128 = crate::fixed::sq_sum(delta.x, delta.y);
    if wd <= 0 {
        let ww = crate::fixed::sq_sum(wx, wy);
        let r2 = crate::fixed::mul_wide(radius, radius);
        ww <= r2
    } else if wd >= dd {
        let ux: i64 = wx - delta.x;
        let uy: i64 = wy - delta.y;
        let uu = crate::fixed::sq_sum(ux, uy);
        let r2 = crate::fixed::mul_wide(radius, radius);
        uu <= r2
    } else {
        let ww: i128 = crate::fixed::sq_sum(wx, wy);
        assert(0 <= ww <= 0x2880_0000_0000_0000_0000i128) by (nonlinear_arith)
            requires
                ww == wx as int * wx as int + wy as int * wy as int,
                -0x48_0000_0000 <= wx as int <= 0x48_0000_0000,
                -0x48_0000_0000 <= wy as int <= 0x48_0000_0000,
        ;
        assert(0 <= dd <= 0x2_0000_0000_0000i128) by (nonlinear_arith)
            requires
                dd == delta.x as int * delta.x as int + delta.y as int * delta.y as int,
                -0x100_0000 <= delta.x as int <= 0x100_0000,
                -0x100_0000 <= delta.y as int <= 0x100_0000,
        ;
        assert(0 <= ww * dd <= 0x5100_0000_0000_0000_0000_0000_0000_0000i128) by (nonlinear_arith)
            requires
                0 <= ww <= 0x2880_0000_0000_0000_0000i128,
                0 <= dd <= 0x2_0000_0000_0000i128,
        ;
        let wwdd: i128 = ww * dd;
        assert(0 <= wd * wd <= 0x2_0000_0000_0000i128 * 0x2_0000_0000_0000i128)
            by (nonlinear_arith)
            requires
                0 < wd < 0x2_0000_0000_0000i128,
        ;
        let wd2: i128 = wd * wd;
        let r2: i128 = crate::fixed::mul_wide(radius, radius);
        assert(0 <= r2 <= 0x1_0000_0000_0000i128) by (nonlinear_arith)
            requires
                r2 == radius as int * radius as int,
                0 <= radius as int <= 0x100_0000,
        ;
        assert(0 <= r2 * dd <= 0x1_0000_0000_0000i128 * 0x2_0000_0000_0000i128)
            by (nonlinear_arith)
            requires
                0 <= r2 <= 0x1_0000_0000_0000i128,
                0 <= dd <= 0x2_0000_0000_0000i128,
        ;
        let r2dd: i128 = r2 * dd;
        wwdd - wd2 <= r2dd
    }
}

/// The mirror of `v` across the line perpendicular to `n`, for an
/// axis-aligned `n`: the component of `v` along `n` reverses sign and the
/// perpendicular component is kept.  For such `n` the general mirror
/// formula `v - 2 (v . n) / (n . n) n` divides exactly, so no rounding
/// enters.
pub open spec fn reflect_spec(v: Vector2, n: Vector2) -> Vector2
    recommends
        n.y == 0 || n.x == 0,
        !(n.x == 0 && n.y == 0),
{
    if n.y == 0 {
        Vector2 { x: (-v.x) as i64, y: v.y }
    } else {
        Vector2 { x: v.x, y: (-v.y) as i64 }
    }
}

/// Reflect `v` across the wall normal `n` (axis-aligned, nonzero).
pub fn reflect(v: Vector2, n: Vector2) -> (r: Vector2)
    requires
        n.y == 0 || n.x == 0,
        !(n.x == 0 && n.y == 0),
        i64::MIN < v.x,
        i64::MIN < v.y,
    ensures
        r == reflect_spec(v, n),
{
    if n.y == 0 {
        Vector2 { x: -v.x, y: v.y }
    } else {
        Vector2 { x: v.x, y: -v.y }
    }
}

/// Reflection across a wall normal preserves the squared speed exactly:
/// bouncing loses no energy.
pub proof fn lemma_reflect_preserves_norm_sq(v: Vector2, n: Vector2)
    requires
        n.y == 0 || n.x == 0,
        !(n.x == 0 && n.y == 0),
        i64::MIN < v.x,
        i64::MIN < v.y,
    ensures
        norm_sq(reflect_spec(v, n).x as int, reflect_spec(v, n).y as int) == norm_sq(
            v.x as int,
            v.y as int,
        ),
{
    let r = reflect_spec(v, n);
    assert(r.x as int * r.x as int == v.x as int * v.x as int && r.y as int * r.y as int
        == v.y as int * v.y as int) by (nonlinear_arith)
        requires
            (r.x as int == v.x as int || r.x as int == -(v.x as int)),
            (r.y as int == v.y as int || r.y as int == -(v.y as int)),
    ;
}

/// Multiply `v` by the ratio `k / scale` (at most one), dividing with
/// truncation.  The result keeps each component's sign and never grows its
/// magnitude.
pub fn scale_div(v: Vector2, k: i64, scale: i64) -> (r: Vector2)
    requires
        0 < scale,
        0 <= k <= scale,
        i64::MIN < v.x,
        i64::MIN < v.y,
    ensures
        r.x == div_trunc(v.x * k, scale as int),
        r.y == div_trunc(v.y * k, scale as int),
        v.x >= 0 ==> 0 <= r.x <= v.x,
        v.x < 0 ==> v.x <= r.x <= 0,
        v.y >= 0 ==> 0 <= r.y <= v.y,
        v.y < 0 ==> v.y <= r.y <= 0,
{
    let xk: i128 = crate::fixed::mul_wide(v.x, k);
    let yk: i128 = crate::fixed::mul_wide(v.y, k);
    let qx = div_trunc_i128(xk, scale as i128);
    let qy = div_trunc_i128(yk, scale as i128);
    proof {
        crate::fixed::lemma_scale_shrink(v.x as int, k as int, scale as int);
        crate::fixed::lemma_scale_shrink(v.y as int, k as int, scale as int);
    }
    Vector2 { x: qx as i64, y: qy as i64 }
}


/// Componentwise shrinking never grows the squared length.
pub proof fn lemma_norm_sq_mono(ax: int, ay: int, bx: int, by: int)
    requires
        -bx <= ax <= bx || bx <= ax <= -bx,
        -by <= ay <= by || by <= ay <= -by,
    ensures
        norm_sq(ax, ay) <= norm_sq(bx, by),
{
    assert(ax * ax <= bx * bx && ay * ay <= by * by) by (nonlinear_arith)
        requires
            -bx <= ax <= bx || bx <= ax <= -bx,
            -by <= ay <= by || by <= ay <= -by,
    ;
}

/// The unit-length facing direction of a nonzero vector, in fixed point:
/// each component is `v * SCALE / |v|`, rounded toward zero.  Components
/// never exceed `SCALE` in magnitude.
pub fn angle_from_vec(v: Vector2) -> (dir: Vector2)
    requires
        -0x8000_0000 <= v.x <= 0x8000_0000,
        -0x8000_0000 <= v.y <= 0x8000_0000,
        !(v.x == 0 && v.y == 0),
    ensures
        ({
            let n = sqrt_floor(norm_sq(v.x as int, v.y as int));
            &&& dir.x == div_trunc(v.x * SCALE, n)
            &&& dir.y == div_trunc(v.y * SCALE, n)
        }),
        -SCALE <= dir.x <= SCALE,
        -SCALE <= dir.y <= SCALE,
{
    let n = v.norm();
    proof {
        assert(norm_sq(v.x as int, v.y as int) > 0) by (nonlinear_arith)
            requires
                !(v.x == 0 && v.y == 0),
        ;
        assert(n >= 1);
        assert(v.x as int * v.x as int <= norm_sq(v.x as int, v.y as int)) by (nonlinear_arith);
        assert(v.y as int * v.y as int <= norm_sq(v.x as int, v.y as int)) by (nonlinear_arith);
        assert(-n <= v.x as int <= n && -n <= v.y as int <= n) by (nonlinear_arith)
            requires
                v.x as int * v.x as int <= norm_sq(v.x as int, v.y as int),
                v.y as int * v.y as int <= norm_sq(v.x as int, v.y as int),
                norm_sq(v.x as int, v.y as int) < (n as int + 1) * (n as int + 1),
                0 <= n,
        ;
        assert(-(n as int * SCALE as int) <= v.x as int * SCALE as int <= n as int
            * SCALE as int) by (nonlinear_arith)
            requires
                -n <= v.x as int <= n,
        ;
        assert(-(n as int * SCALE as int) <= v.y as int * SCALE as int <= n as int
            * SCALE as int) by (nonlinear_arith)
            requires
                -n <= v.y as int <= n,
        ;
    }
    let qx = div_trunc_i128(crate::fixed::mul_wide(v.x, SCALE), n as i128);
    let qy = div_trunc_i128(crate::fixed::mul_wide(v.y, SCALE), n as i128);
    proof {
        crate::fixed::lemma_div_trunc_quotient_bound(v.x as int * SCALE as int, n as int, SCALE as int);
        crate::fixed::lemma_div_trunc_quotient_bound(v.y as int * SCALE as int, n as int, SCALE as int);
    }
    Vector2 { x: qx as i64, y: qy as i64 }
}

/// The displacement a velocity covers in one time step: `v * delta`,
/// divided by `SCALE` with truncation.  Bounded by `DISP_LIMIT`.
pub fn displacement(v: Vector2, delta: i64) -> (d: Vector2)
    requires
        -VEL_LIMIT <= v.x <= VEL_LIMIT,
        -VEL_LIMIT <= v.y <= VEL_LIMIT,
        0 < delta <= DELTA_LIMIT,
    ensures
        d.x == div_trunc(v.x * delta, SCALE as int),
        d.y == div_trunc(v.y * delta, SCALE as int),
        -DISP_LIMIT <= d.x <= DISP_LIMIT,
        -DISP_LIMIT <= d.y <= DISP_LIMIT,
{
    let qx = div_trunc_i128(crate::fixed::mul_wide(v.x, delta), SCALE as i128);
    let qy = div_trunc_i128(crate::fixed::mul_wide(v.y, delta), SCALE as i128);
    proof {
        assert(-(SCALE as int * DISP_LIMIT as int) <= v.x as int * delta as int <= SCALE as int
            * DISP_LIMIT as int) by (nonlinear_arith)
            requires
                -VEL_LIMIT as int <= v.x as int <= VEL_LIMIT as int,
                0 < delta as int <= DELTA_LIMIT as int,
        ;
        assert(-(SCALE as int * DISP_LIMIT as int) <= v.y as int * delta as int <= SCALE as int
            * DISP_LIMIT as int) by (nonlinear_arith)
            requires
                -VEL_LIMIT as int <= v.y as int <= VEL_LIMIT as int,
                0 < delta as int <= DELTA_LIMIT as int,
        ;
        crate::fixed::lemma_div_trunc_quotient_bound(
            v.x as int * delta as int,
            SCALE as int,
            DISP_LIMIT as int,
        );
        crate::fixed::lemma_div_trunc_quotient_bound(
            v.y as int * delta as int,
            SCALE as int,
            DISP_LIMIT as int,
        );
    }
    Vector2 { x: qx as i64, y: qy as i64 }
}


/// The rotation of `v` by the angle whose cosine and sine are `c / SCALE`
/// and `s / SCALE`, each component divided with truncation.
pub open spec fn rot_spec(v: Vector2, c: int, s: int) -> Vector2 {
    Vector2 {
        x: div_trunc(v.x * c - v.y * s, SCALE as int) as i64,
        y: div_trunc(v.x * s + v.y * c, SCALE as int) as i64,
    }
}

/// Rotate `v` by a fixed angle given as fixed-point cosine and sine.
/// Because the division truncates toward zero and the given cosine and
/// sine lie on or inside the unit circle, the squared length never grows.
#[verifier::rlimit(50)]
pub fn rotate_fixed(v: Vector2, c: i64, s: i64) -> (r: Vector2)
    requires
        -SCALE <= c <= SCALE,
        -SCALE <= s <= SCALE,
        c * c + s * s <= SCALE as int * SCALE as int,
        norm_sq(v.x as int, v.y as int) <= SCALE as int * SCALE as int,
    ensures
        r == rot_spec(v, c as int, s as int),
        norm_sq(r.x as int, r.y as int) <= norm_sq(v.x as int, v.y as int),
        -SCALE <= r.x <= SCALE,
        -SCALE <= r.y <= SCALE,
{
    proof {
        lemma_components_from_norm(v, SCALE as int);
    }
    let pxc: i128 = crate::fixed::mul_wide(v.x, c);
    let pys: i128 = crate::fixed::mul_wide(v.y, s);
    let pxs: i128 = crate::fixed::mul_wide(v.x, s);
    let pyc: i128 = crate::fixed::mul_wide(v.y, c);
    proof {
        assert(-(SCALE as int * SCALE as int) <= pxc <= SCALE as int * SCALE as int
            && -(SCALE as int * SCALE as int) <= pys <= SCALE as int * SCALE as int
            && -(SCALE as int * SCALE as int) <= pxs <= SCALE as int * SCALE as int
            && -(SCALE as int * SCALE as int) <= pyc <= SCALE as int * SCALE as int)
            by (nonlinear_arith)
            requires
                pxc == v.x as int * c as int,
                pys == v.y as int * s as int,
                pxs == v.x as int * s as int,
                pyc == v.y as int * c as int,
                -SCALE as int <= v.x as int <= SCALE as int,
                -SCALE as int <= v.y as int <= SCALE as int,
                -SCALE as int <= c as int <= SCALE as int,
                -SCALE as int <= s as int <= SCALE as int,
        ;
    }
    let ax: i128 = pxc - pys;
    let ay: i128 = pxs + pyc;
    proof {
        assert(-(SCALE as int * (2 * SCALE as int)) <= ax <= SCALE as int * (2 * SCALE as int))
            by (nonlinear_arith)
            requires
                ax == v.x as int * c as int - v.y as int * s as int,
                -SCALE as int <= v.x as int <= SCALE as int,
                -SCALE as int <= v.y as int <= SCALE as int,
                -SCALE as int <= c as int <= SCALE as int,
                -SCALE as int <= s as int <= SCALE as int,
        ;
        assert(-(SCALE as int * (2 * SCALE as int)) <= ay <= SCALE as int * (2 * SCALE as int))
            by (nonlinear_arith)
            requires
                ay == v.x as int * s as int + v.y as int * c as int,
                -SCALE as int <= v.x as int <= SCALE as int,
                -SCALE as int <= v.y as int <= SCALE as int,
                -SCALE as int <= c as int <= SCALE as int,
                -SCALE as int <= s as int <= SCALE as int,
        ;
        crate::fixed::lemma_div_trunc_quotient_bound(ax as int, SCALE as int, 2 * SCALE as int);
        crate::fixed::lemma_div_trunc_quotient_bound(ay as int, SCALE as int, 2 * SCALE as int);
    }
    let rx128 = div_trunc_i128(ax, SCALE as i128);
    let ry128 = div_trunc_i128(ay, SCALE as i128);
    let r = Vector2 { x: rx128 as i64, y: ry128 as i64 };
    proof {
        crate::fixed::lemma_div_trunc_mul_le(ax as int, SCALE as int);
        crate::fixed::lemma_div_trunc_mul_le(ay as int, SCALE as int);
        let rx = r.x as int;
        let ry = r.y as int;
        let sc = SCALE as int;
        assert(rx * rx * (sc * sc) <= (ax as int) * (ax as int) && ry * ry * (sc * sc) <= (
        ay as int) * (ay as int)) by (nonlinear_arith)
            requires
                ax as int >= 0 ==> 0 <= rx * sc <= ax as int,
                (ax as int) < 0 ==> ax as int <= rx * sc <= 0,
                ay as int >= 0 ==> 0 <= ry * sc <= ay as int,
                (ay as int) < 0 ==> ay as int <= ry * sc <= 0,
        ;
        assert((ax as int) * (ax as int) == pxc * pxc - 2 * (pxc * pys) + pys * pys)
            by (nonlinear_arith)
            requires
                ax == pxc - pys,
        ;
        assert((ay as int) * (ay as int) == pxs * pxs + 2 * (pxs * pyc) + pyc * pyc)
            by (nonlinear_arith)
            requires
                ay == pxs + pyc,
        ;
        assert(pxc * pys == pxs * pyc) by (nonlinear_arith)
            requires
                pxc == v.x as int * c as int,
                pys == v.y as int * s as int,
                pxs == v.x as int * s as int,
                pyc == v.y as int * c as int,
        ;
        let x2 = v.x as int * v.x as int;
        let y2 = v.y as int * v.y as int;
        let c2 = c as int * c as int;
        let s2 = s as int * s as int;
        assert(pxc * pxc == x2 * c2 && pys * pys == y2 * s2 && pxs * pxs == x2 * s2 && pyc
            * pyc == y2 * c2) by (nonlinear_arith)
            requires
                pxc == v.x as int * c as int,
                pys == v.y as int * s as int,
                pxs == v.x as int * s as int,
                pyc == v.y as int * c as int,
                x2 == v.x as int * v.x as int,
                y2 == v.y as int * v.y as int,
                c2 == c as int * c as int,
                s2 == s as int * s as int,
        ;
        assert(x2 * c2 + y2 * s2 + x2 * s2 + y2 * c2 == (x2 + y2) * (c2 + s2))
            by (nonlinear_arith);
        assert(pxc * pxc + pys * pys + pxs * pxs + pyc * pyc == norm_sq(v.x as int, v.y as int)
            * (c as int * c as int + s as int * s as int));
        assert((ax as int) * (ax as int) + (ay as int) * (ay as int) == norm_sq(
            v.x as int,
            v.y as int,
        ) * (c as int * c as int + s as int * s as int));
        assert(norm_sq(v.x as int, v.y as int) >= 0) by (nonlinear_arith);
        assert(norm_sq(v.x as int, v.y as int) * (c as int * c as int + s as int * s as int)
            <= norm_sq(v.x as int, v.y as int) * (sc * sc)) by (nonlinear_arith)
            requires
                c as int * c as int + s as int * s as int <= sc * sc,
                norm_sq(v.x as int, v.y as int) >= 0,
        ;
        assert(norm_sq(rx, ry) <= norm_sq(v.x as int, v.y as int)) by (nonlinear_arith)
            requires
                rx * rx * (sc * sc) <= (ax as int) * (ax as int),
                ry * ry * (sc * sc) <= (ay as int) * (ay as int),
                (ax as int) * (ax as int) + (ay as int) * (ay as int) <= norm_sq(
                    v.x as int,
                    v.y as int,
                ) * (sc * sc),
                sc * sc > 0,
        ;
        lemma_components_from_norm(r, SCALE as int);
    }
    r
}

/// Components are bounded by the bound on the squared length.
pub proof fn lemma_components_from_norm(v: Vector2, m: int)
    requires
        norm_sq(v.x as int, v.y as int) <= m * m,
        0 <= m,
    ensures
        -m <= v.x as int <= m,
        -m <= v.y as int <= m,
{
    assert(-m <= v.x as int <= m && -m <= v.y as int <= m) by (nonlinear_arith)
        requires
            norm_sq(v.x as int, v.y as int) <= m * m,
            0 <= m,
    ;
}

} // verus!
