//! Grid ray casting: walk the straight segment from an origin through the
//! cells it crosses and stop at the first solid cell.
//!
//! The walk is a classic grid traversal: it keeps the distance from the
//! origin to the next vertical (`rx`) and horizontal (`ry`) cell boundary
//! along the travel direction, and repeatedly crosses whichever boundary
//! comes first (comparing the crossing parameters exactly by
//! cross-multiplication).  The executable cast returns exactly what the
//! specification-level walk computes, so casting is a pure function of its
//! arguments.

use vstd::prelude::*;
use vstd::math::abs;
use crate::fixed::{div_trunc, div_trunc_i128, mul_wide, SCALE};
use crate::geom::{Point2, Vector2};
use crate::grid::{Grid, CELL};
use crate::material::{Material, Palette};

verus! {

/// Largest coordinate or displacement magnitude a cast accepts.
pub const CAST_LIMIT: i64 = 274877906944;

/// The outcome of a ray cast: the furthest point reached, the unconsumed
/// remainder of the displacement (`clip`), the wall-normal half-vector when
/// a solid cell was struck, and the material of the blocking cell.
#[derive(Clone, Copy, Debug, PartialEq, Eq, Structural)]
pub struct CastResult {
    /// The point just before the obstruction, or the segment's endpoint.
    pub point: Point2,
    /// The displacement that was not travelled.
    pub clip: Vector2,
    /// For a struck wall, an axis-aligned vector from the impact point
    /// toward the wall; `None` when nothing was struck or the cast started
    /// inside a solid cell (degenerate, no reflection possible).
    pub normal: Option<Vector2>,
    /// The material of the blocking cell, `Missing` for out-of-bounds.
    pub hit_mat: Option<Material>,
    /// Whether the entire displacement was unobstructed.
    pub is_full: bool,
}

impl CastResult {
    /// Whether the entire displacement was travelled without obstruction.
    pub fn full(&self) -> (b: bool)
        ensures
            b == self.is_full,
    {
        self.is_full
    }

    /// The furthest point reached.
    pub fn into_point(self) -> (p: Point2)
        ensures
            p == self.point,
    {
        self.point
    }

    /// The unconsumed displacement.
    pub fn clip(&self) -> (v: Vector2)
        ensures
            v == self.clip,
    {
        self.clip
    }

    /// The wall-normal half-vector, if a wall was struck.
    pub fn half_vec(&self) -> (v: Option<Vector2>)
        ensures
            v == self.normal,
    {
        self.normal
    }

    /// The material of the blocking cell, if any.
    pub fn hit_material(&self) -> (m: Option<Material>)
        ensures
            m == self.hit_mat,
    {
        self.hit_mat
    }
}

/// The cell index a coordinate falls in (floor division, no saturation).
pub open spec fn cell_floor(c: int) -> int {
    c / (CELL as int)
}

/// The sign of `a`: `-1`, `0` or `1`.
pub open spec fn sign(a: int) -> int {
    if a > 0 {
        1
    } else if a < 0 {
        -1
    } else {
        0
    }
}

/// `v` clamped into `[lo, hi]`.
pub open spec fn clamp(v: int, lo: int, hi: int) -> int {
    if v < lo {
        lo
    } else if v > hi {
        hi
    } else {
        v
    }
}

/// The material of a cell, `Missing` outside the grid.
pub open spec fn mat_at(grid: Grid, cx: int, cy: int) -> Material {
    match grid.spec_get(cx, cy) {
        Some(m) => m,
        None => Material::Missing,
    }
}

/// Number of boundary crossings along one axis still ahead of the walk.
pub open spec fn steps_left(d: int, r: int) -> int {
    if d != 0 && r <= abs(d) {
        (abs(d) - r) / (CELL as int) + 1
    } else {
        0
    }
}

/// The initial distance from the origin to the next cell boundary along
/// one axis, in the travel direction (zero crossings when `d == 0`).
pub open spec fn first_crossing(c0: int, d: int) -> int {
    if d > 0 {
        (cell_floor(c0) + 1) * (CELL as int) - c0
    } else if d < 0 {
        c0 - cell_floor(c0) * (CELL as int)
    } else {
        0
    }
}

/// The cast outcome when the walk, standing in the non-solid cell
/// `(cx, cy)`, strikes a solid cell across the vertical boundary at
/// distance `rx` along `x`.  The impact `x` lies exactly on the boundary;
/// the impact `y` is the segment's coordinate there, rounded toward the
/// origin and clamped into the cell being left.
pub open spec fn stop_at_x(grid: Grid, x0: int, y0: int, dx: int, dy: int, cx: int, cy: int, rx: int) -> CastResult {
    let ix = if dx > 0 {
        x0 + rx
    } else {
        x0 - rx
    };
    let iy = clamp(y0 + div_trunc(dy * rx, abs(dx) as int), cy * (CELL as int), (cy + 1) * (CELL as int));
    CastResult {
        point: Point2 { x: ix as i64, y: iy as i64 },
        clip: Vector2 { x: (x0 + dx - ix) as i64, y: (y0 + dy - iy) as i64 },
        normal: Some(
            Vector2 {
                x: if dx > 0 {
                    SCALE
                } else {
                    (-SCALE) as i64
                },
                y: 0,
            },
        ),
        hit_mat: Some(mat_at(grid, cx + sign(dx), cy)),
        is_full: false,
    }
}

/// As `stop_at_x`, for a horizontal boundary crossed along `y`.
pub open spec fn stop_at_y(grid: Grid, x0: int, y0: int, dx: int, dy: int, cx: int, cy: int, ry: int) -> CastResult {
    let iy = if dy > 0 {
        y0 + ry
    } else {
        y0 - ry
    };
    let ix = clamp(x0 + div_trunc(dx * ry, abs(dy) as int), cx * (CELL as int), (cx + 1) * (CELL as int));
    CastResult {
        point: Point2 { x: ix as i64, y: iy as i64 },
        clip: Vector2 { x: (x0 + dx - ix) as i64, y: (y0 + dy - iy) as i64 },
        normal: Some(
            Vector2 {
                x: 0,
                y: if dy > 0 {
                    SCALE
                } else {
                    (-SCALE) as i64
                },
            },
        ),
        hit_mat: Some(mat_at(grid, cx, cy + sign(dy))),
        is_full: false,
    }
}

/// The unobstructed outcome: the whole displacement is travelled.
pub open spec fn full_cast(x0: int, y0: int, dx: int, dy: int) -> CastResult {
    CastResult {
        point: Point2 { x: (x0 + dx) as i64, y: (y0 + dy) as i64 },
        clip: Vector2 { x: 0, y: 0 },
        normal: None,
        hit_mat: None,
        is_full: true,
    }
}

/// One walk state: standing in cell `(cx, cy)`, the next vertical boundary
/// is `rx` along `x` from the origin, the next horizontal one `ry` along
/// `y`.  Crosses boundaries in order of their crossing parameter (ties
/// cross the vertical boundary first) until the displacement is exhausted
/// or a solid cell is entered.
pub open spec fn walk(grid: Grid, x0: int, y0: int, dx: int, dy: int, cx: int, cy: int, rx: int, ry: int) -> CastResult
    decreases steps_left(dx, rx) + steps_left(dy, ry),
{
    let xcross = dx != 0 && rx <= abs(dx);
    let ycross = dy != 0 && ry <= abs(dy);
    if !xcross && !ycross {
        full_cast(x0, y0, dx, dy)
    } else if xcross && (!ycross || rx * abs(dy) <= ry * abs(dx)) {
        if grid.spec_solid(cx + sign(dx), cy) {
            stop_at_x(grid, x0, y0, dx, dy, cx, cy, rx)
        } else {
            walk(grid, x0, y0, dx, dy, cx + sign(dx), cy, rx + CELL, ry)
        }
    } else {
        if grid.spec_solid(cx, cy + sign(dy)) {
            stop_at_y(grid, x0, y0, dx, dy, cx, cy, ry)
        } else {
            walk(grid, x0, y0, dx, dy, cx, cy + sign(dy), rx, ry + CELL)
        }
    }
}

/// What a ray cast returns: nothing stops a cast that does not stop at
/// solids; a cast starting inside a solid cell is blocked where it stands;
/// otherwise the walk from the origin's cell decides.
pub open spec fn cast_spec(grid: Grid, x0: int, y0: int, dx: int, dy: int, stop_at_solid: bool) -> CastResult {
    if !stop_at_solid {
        full_cast(x0, y0, dx, dy)
    } else if grid.spec_solid(cell_floor(x0), cell_floor(y0)) {
        CastResult {
            point: Point2 { x: x0 as i64, y: y0 as i64 },
            clip: Vector2 { x: dx as i64, y: dy as i64 },
            normal: None,
            hit_mat: Some(mat_at(grid, cell_floor(x0), cell_floor(y0))),
            is_full: false,
        }
    } else {
        walk(
            grid,
            x0,
            y0,
            dx,
            dy,
            cell_floor(x0),
            cell_floor(y0),
            first_crossing(x0, dx),
            first_crossing(y0, dy),
        )
    }
}

/// Floor division of `a` by the positive constant `CELL`.
fn floor_div_cell(a: i64) -> (q: i64)
    requires
        -CAST_LIMIT <= a <= CAST_LIMIT,
    ensures
        q == cell_floor(a as int),
{
    if a >= 0 {
        a / CELL
    } else {
        let m = -a;
        let q = m / CELL;
        if q * CELL == m {
            -q
        } else {
            proof {
                vstd::arithmetic::div_mod::lemma_fundamental_div_mod(m as int, CELL as int);
                let rm = m as int % (CELL as int);
                assert(a as int == (-(q as int) - 1) * (CELL as int) + (CELL as int - rm))
                    by (nonlinear_arith)
                    requires
                        a as int == -(m as int),
                        m as int == (q as int) * (CELL as int) + rm,
                ;
                vstd::arithmetic::div_mod::lemma_fundamental_div_mod_converse_div(
                    a as int,
                    CELL as int,
                    -(q as int) - 1,
                    CELL as int - rm,
                );
            }
            -q - 1
        }
    }
}

impl Grid {
    /// Whether the cell `(cx, cy)` (any integers) blocks: cells outside
    /// the grid block, and in-grid cells block per the palette's solidity.
    fn solid_at(&self, palette: &Palette, cx: i64, cy: i64) -> (s: bool)
        requires
            self.wf(),
        ensures
            s == self.spec_solid(cx as int, cy as int),
    {
        if cx < 0 || cy < 0 || cx > 65535 || cy > 65535 {
            true
        } else {
            match self.get(cx as u16, cy as u16) {
                Some(m) => palette.solid(m),
                None => true,
            }
        }
    }

    /// The material of cell `(cx, cy)`, `Missing` outside the grid.
    fn mat_at_cell(&self, cx: i64, cy: i64) -> (m: Material)
        requires
            self.wf(),
        ensures
            m == mat_at(*self, cx as int, cy as int),
    {
        if cx < 0 || cy < 0 || cx > 65535 || cy > 65535 {
            Material::Missing
        } else {
            match self.get(cx as u16, cy as u16) {
                Some(m) => m,
                None => Material::Missing,
            }
        }
    }

    /// Walk the straight segment from `origin` through `origin + disp` and
    /// return the furthest point reachable before entering a solid cell,
    /// together with the remaining clip, the wall normal and the blocking
    /// material.  With `stop_at_solid` unset nothing obstructs the cast.
    #[verifier::rlimit(60)]
    pub fn ray_cast(&self, palette: &Palette, origin: Point2, disp: Vector2, stop_at_solid: bool) -> (r: CastResult)
        requires
            self.wf(),
            -CAST_LIMIT <= origin.x <= CAST_LIMIT,
            -CAST_LIMIT <= origin.y <= CAST_LIMIT,
            -CAST_LIMIT <= disp.x <= CAST_LIMIT,
            -CAST_LIMIT <= disp.y <= CAST_LIMIT,
        ensures
            r == cast_spec(
                *self,
                origin.x as int,
                origin.y as int,
                disp.x as int,
                disp.y as int,
                stop_at_solid,
            ),
            -0x400_0000_0000 <= r.point.x <= 0x400_0000_0000,
            -0x400_0000_0000 <= r.point.y <= 0x400_0000_0000,
            -0x400_0000_0000 <= r.clip.x <= 0x400_0000_0000,
            -0x400_0000_0000 <= r.clip.y <= 0x400_0000_0000,
    {
        let x0 = origin.x;
        let y0 = origin.y;
        let dx = disp.x;
        let dy = disp.y;
        if !stop_at_solid {
            return CastResult {
                point: Point2 { x: x0 + dx, y: y0 + dy },
                clip: Vector2 { x: 0, y: 0 },
                normal: None,
                hit_mat: None,
                is_full: true,
            };
        }
        let cx0 = floor_div_cell(x0);
        let cy0 = floor_div_cell(y0);
        if self.solid_at(palette, cx0, cy0) {
            return CastResult {
                point: origin,
                clip: disp,
                normal: None,
                hit_mat: Some(self.mat_at_cell(cx0, cy0)),
                is_full: false,
            };
        }
        let adx = if dx < 0 {
            -dx
        } else {
            dx
        };
        let ady = if dy < 0 {
            -dy
        } else {
            dy
        };
        let sx: i64 = if dx > 0 {
            1
        } else if dx < 0 {
            -1
        } else {
            0
        };
        let sy: i64 = if dy > 0 {
            1
        } else if dy < 0 {
            -1
        } else {
            0
        };
        let mut cx = cx0;
        let mut cy = cy0;
        let mut rx: i64 = if dx > 0 {
            (cx0 + 1) * CELL - x0
        } else if dx < 0 {
            x0 - cx0 * CELL
        } else {
            0
        };
        let mut ry: i64 = if dy > 0 {
            (cy0 + 1) * CELL - y0
        } else if dy < 0 {
            y0 - cy0 * CELL
        } else {
            0
        };
        proof {
            vstd::arithmetic::div_mod::lemma_fundamental_div_mod(x0 as int, CELL as int);
            vstd::arithmetic::div_mod::lemma_fundamental_div_mod(y0 as int, CELL as int);
        }
        loop
            invariant
                self.wf(),
                -CAST_LIMIT <= x0 <= CAST_LIMIT,
                -CAST_LIMIT <= y0 <= CAST_LIMIT,
                stop_at_solid,
                dx == disp.x && dy == disp.y && x0 == origin.x && y0 == origin.y,
                adx == abs(dx as int),
                ady == abs(dy as int),
                0 <= adx <= CAST_LIMIT,
                0 <= ady <= CAST_LIMIT,
                -adx <= dx <= adx,
                -ady <= dy <= ady,
                sx == sign(dx as int),
                sy == sign(dy as int),
                0 <= rx <= adx + CELL,
                0 <= ry <= ady + CELL,
                dx == 0 ==> rx == 0 && cx == cell_floor(x0 as int),
                dy == 0 ==> ry == 0 && cy == cell_floor(y0 as int),
                dx != 0 ==> -CAST_LIMIT - CELL <= cx * CELL <= CAST_LIMIT + CELL,
                dy != 0 ==> -CAST_LIMIT - CELL <= cy * CELL <= CAST_LIMIT + CELL,
                dx > 0 ==> x0 + rx == (cx + 1) * CELL,
                dx < 0 ==> x0 - rx == cx * CELL,
                dy > 0 ==> y0 + ry == (cy + 1) * CELL,
                dy < 0 ==> y0 - ry == cy * CELL,
                walk(
                    *self,
                    x0 as int,
                    y0 as int,
                    dx as int,
                    dy as int,
                    cx as int,
                    cy as int,
                    rx as int,
                    ry as int,
                ) == cast_spec(
                    *self,
                    origin.x as int,
                    origin.y as int,
                    disp.x as int,
                    disp.y as int,
                    true,
                ),
            decreases steps_left(dx as int, rx as int) + steps_left(dy as int, ry as int),
        {
            let xcross = dx != 0 && rx <= adx;
            let ycross = dy != 0 && ry <= ady;
            if !xcross && !ycross {
                return CastResult {
                    point: Point2 { x: x0 + dx, y: y0 + dy },
                    clip: Vector2 { x: 0, y: 0 },
                    normal: None,
                    hit_mat: None,
                    is_full: true,
                };
            }
            let take_x = xcross && (!ycross || mul_wide(rx, ady) <= mul_wide(ry, adx));
            if take_x {
                let ncx = cx + sx;
                if self.solid_at(palette, ncx, cy) {
                    let ix = if dx > 0 {
                        x0 + rx
                    } else {
                        x0 - rx
                    };
                    let lo = cy * CELL;
                    let hi = lo + CELL;
                    let ghost qb = ady as int * (1 + CELL as int);
                    proof {
                        assert(-(adx as int * qb) <= dy as int * rx as int <= adx as int * qb)
                            by (nonlinear_arith)
                            requires
                                0 <= rx as int <= adx as int + CELL as int,
                                1 <= adx as int,
                                qb == ady as int * (1 + CELL as int),
                                -(ady as int) <= dy as int <= ady as int,
                                0 <= ady as int,
                        ;
                        assert(0 <= qb <= CAST_LIMIT as int * (1 + CELL as int))
                            by (nonlinear_arith)
                            requires
                                qb == ady as int * (1 + CELL as int),
                                0 <= ady as int <= CAST_LIMIT as int,
                        ;
                    }
                    let q = div_trunc_i128(mul_wide(dy, rx), adx as i128);
                    proof {
                        crate::fixed::lemma_div_trunc_quotient_bound(
                            dy as int * rx as int,
                            adx as int,
                            qb,
                        );
                    }
                    let iy_raw: i64 = y0 + (q as i64);
                    let iy: i64 = if iy_raw < lo {
                        lo
                    } else if iy_raw > hi {
                        hi
                    } else {
                        iy_raw
                    };
                    return CastResult {
                        point: Point2 { x: ix, y: iy },
                        clip: Vector2 { x: x0 + dx - ix, y: y0 + dy - iy },
                        normal: Some(
                            Vector2 {
                                x: if dx > 0 {
                                    SCALE
                                } else {
                                    -SCALE
                                },
                                y: 0,
                            },
                        ),
                        hit_mat: Some(self.mat_at_cell(ncx, cy)),
                        is_full: false,
                    };
                }
                cx = ncx;
                rx = rx + CELL;
            } else {
                let ncy = cy + sy;
                if self.solid_at(palette, cx, ncy) {
                    let iy = if dy > 0 {
                        y0 + ry
                    } else {
                        y0 - ry
                    };
                    let lo = cx * CELL;
                    let hi = lo + CELL;
                    let ghost qb = adx as int * (1 + CELL as int);
                    proof {
                        assert(-(ady as int * qb) <= dx as int * ry as int <= ady as int * qb)
                            by (nonlinear_arith)
                            requires
                                0 <= ry as int <= ady as int + CELL as int,
                                1 <= ady as int,
                                qb == adx as int * (1 + CELL as int),
                                -(adx as int) <= dx as int <= adx as int,
                                0 <= adx as int,
                        ;
                        assert(0 <= qb <= CAST_LIMIT as int * (1 + CELL as int))
                            by (nonlinear_arith)
                            requires
                                qb == adx as int * (1 + CELL as int),
                                0 <= adx as int <= CAST_LIMIT as int,
                        ;
                    }
                    let q = div_trunc_i128(mul_wide(dx, ry), ady as i128);
                    proof {
                        crate::fixed::lemma_div_trunc_quotient_bound(
                            dx as int * ry as int,
                            ady as int,
                            qb,
                        );
                    }
                    let ix_raw: i64 = x0 + (q as i64);
                    let ix: i64 = if ix_raw < lo {
                        lo
                    } else if ix_raw > hi {
                        hi
                    } else {
                        ix_raw
                    };
                    return CastResult {
                        point: Point2 { x: ix, y: iy },
                        clip: Vector2 { x: x0 + dx - ix, y: y0 + dy - iy },
                        normal: Some(
                            Vector2 {
                                x: 0,
                                y: if dy > 0 {
                                    SCALE
                                } else {
                                    -SCALE
                                },
                            },
                        ),
                        hit_mat: Some(self.mat_at_cell(cx, ncy)),
                        is_full: false,
                    };
                }
                cy = ncy;
                ry = ry + CELL;
            }
        }
    }
}


/// Whether `p` lies strictly inside cell `(cx, cy)` (boundary points are
/// not inside any cell).
pub open spec fn strictly_inside(p: Point2, cx: int, cy: int) -> bool {
    &&& cx * (CELL as int) < p.x < (cx + 1) * (CELL as int)
    &&& cy * (CELL as int) < p.y < (cy + 1) * (CELL as int)
}

/// Whether `p` lies in the closed box of cell `(cx, cy)`.
pub open spec fn in_closed_cell(p: Point2, cx: int, cy: int) -> bool {
    &&& cx * (CELL as int) <= p.x <= (cx + 1) * (CELL as int)
    &&& cy * (CELL as int) <= p.y <= (cy + 1) * (CELL as int)
}

/// A point strictly inside one cell cannot lie in the closed box of a
/// different cell.
proof fn lemma_strict_closed_same_cell(p: Point2, a: int, b: int, c: int, d: int)
    requires
        strictly_inside(p, a, b),
        in_closed_cell(p, c, d),
    ensures
        a == c && b == d,
{
    if c >= a + 1 {
        assert((a + 1) * (CELL as int) <= c * (CELL as int)) by (nonlinear_arith)
            requires
                a + 1 <= c,
        ;
    }
    if c <= a - 1 {
        assert((c + 1) * (CELL as int) <= a * (CELL as int)) by (nonlinear_arith)
            requires
                c + 1 <= a,
        ;
    }
    if d >= b + 1 {
        assert((b + 1) * (CELL as int) <= d * (CELL as int)) by (nonlinear_arith)
            requires
                b + 1 <= d,
        ;
    }
    if d <= b - 1 {
        assert((d + 1) * (CELL as int) <= b * (CELL as int)) by (nonlinear_arith)
            requires
                d + 1 <= b,
        ;
    }
}

/// The point a walk returns lies in the closed box of some non-solid cell.
/// The walk only ever stands in non-solid cells: it stops on the boundary
/// before a solid one, and a full cast ends inside the cell it stands in.
proof fn lemma_walk_point_safe(grid: Grid, x0: int, y0: int, dx: int, dy: int, cx: int, cy: int, rx: int, ry: int)
    requires
        !grid.spec_solid(cx, cy),
        -(CAST_LIMIT as int) <= x0 <= CAST_LIMIT as int,
        -(CAST_LIMIT as int) <= y0 <= CAST_LIMIT as int,
        -(CAST_LIMIT as int) <= dx <= CAST_LIMIT as int,
        -(CAST_LIMIT as int) <= dy <= CAST_LIMIT as int,
        0 <= rx <= abs(dx) + CELL as int,
        0 <= ry <= abs(dy) + CELL as int,
        dx > 0 ==> x0 + rx == (cx + 1) * (CELL as int),
        dx < 0 ==> x0 - rx == cx * (CELL as int),
        dx == 0 ==> rx == 0 && cx == cell_floor(x0),
        dy > 0 ==> y0 + ry == (cy + 1) * (CELL as int),
        dy < 0 ==> y0 - ry == cy * (CELL as int),
        dy == 0 ==> ry == 0 && cy == cell_floor(y0),
    ensures
        exists|a: int, b: int|
            !grid.spec_solid(a, b) && #[trigger] in_closed_cell(
                walk(grid, x0, y0, dx, dy, cx, cy, rx, ry).point,
                a,
                b,
            ),
    decreases steps_left(dx, rx) + steps_left(dy, ry),
{
    let xcross = dx != 0 && rx <= abs(dx);
    let ycross = dy != 0 && ry <= abs(dy);
    if dx == 0 {
        vstd::arithmetic::div_mod::lemma_fundamental_div_mod(x0, CELL as int);
    }
    if dy == 0 {
        vstd::arithmetic::div_mod::lemma_fundamental_div_mod(y0, CELL as int);
    }
    if !xcross && !ycross {
        let p = walk(grid, x0, y0, dx, dy, cx, cy, rx, ry).point;
        assert(in_closed_cell(p, cx, cy));
        assert(!grid.spec_solid(cx, cy) && in_closed_cell(p, cx, cy));
    } else if xcross && (!ycross || rx * abs(dy) <= ry * abs(dx)) {
        if grid.spec_solid(cx + sign(dx), cy) {
            let p = walk(grid, x0, y0, dx, dy, cx, cy, rx, ry).point;
            assert(in_closed_cell(p, cx, cy));
            assert(!grid.spec_solid(cx, cy) && in_closed_cell(p, cx, cy));
        } else {
            lemma_walk_point_safe(grid, x0, y0, dx, dy, cx + sign(dx), cy, rx + CELL as int, ry);
            assert(walk(grid, x0, y0, dx, dy, cx, cy, rx, ry) == walk(
                grid,
                x0,
                y0,
                dx,
                dy,
                cx + sign(dx),
                cy,
                rx + CELL as int,
                ry,
            ));
        }
    } else {
        if grid.spec_solid(cx, cy + sign(dy)) {
            let p = walk(grid, x0, y0, dx, dy, cx, cy, rx, ry).point;
            assert(in_closed_cell(p, cx, cy));
            assert(!grid.spec_solid(cx, cy) && in_closed_cell(p, cx, cy));
        } else {
            lemma_walk_point_safe(grid, x0, y0, dx, dy, cx, cy + sign(dy), rx, ry + CELL as int);
            assert(walk(grid, x0, y0, dx, dy, cx, cy, rx, ry) == walk(
                grid,
                x0,
                y0,
                dx,
                dy,
                cx,
                cy + sign(dy),
                rx,
                ry + CELL as int,
            ));
        }
    }
}

/// A ray cast that stops at solids never returns a point strictly inside
/// a solid cell, whatever the origin and displacement, provided the cast
/// does not already start inside one.
pub proof fn lemma_ray_cast_avoids_solid(grid: Grid, origin: Point2, disp: Vector2)
    requires
        -CAST_LIMIT <= origin.x <= CAST_LIMIT,
        -CAST_LIMIT <= origin.y <= CAST_LIMIT,
        -CAST_LIMIT <= disp.x <= CAST_LIMIT,
        -CAST_LIMIT <= disp.y <= CAST_LIMIT,
        !grid.spec_solid(cell_floor(origin.x as int), cell_floor(origin.y as int)),
    ensures
        forall|a: int, b: int|
            grid.spec_solid(a, b) ==> !strictly_inside(
                cast_spec(
                    grid,
                    origin.x as int,
                    origin.y as int,
                    disp.x as int,
                    disp.y as int,
                    true,
                ).point,
                a,
                b,
            ),
{
    let x0 = origin.x as int;
    let y0 = origin.y as int;
    let dx = disp.x as int;
    let dy = disp.y as int;
    vstd::arithmetic::div_mod::lemma_fundamental_div_mod(x0, CELL as int);
    vstd::arithmetic::div_mod::lemma_fundamental_div_mod(y0, CELL as int);
    lemma_walk_point_safe(
        grid,
        x0,
        y0,
        dx,
        dy,
        cell_floor(x0),
        cell_floor(y0),
        first_crossing(x0, dx),
        first_crossing(y0, dy),
    );
    let p = cast_spec(grid, x0, y0, dx, dy, true).point;
    assert forall|a: int, b: int| grid.spec_solid(a, b) implies !strictly_inside(p, a, b) by {
        if strictly_inside(p, a, b) {
            let (c, d) = choose|c: int, d: int|
                !grid.spec_solid(c, d) && #[trigger] in_closed_cell(p, c, d);
            lemma_strict_closed_same_cell(p, a, b, c, d);
        }
    }
}

/// Casting is free of hidden state: the result of `ray_cast` is a pure
/// function of the palette-independent grid contents, the origin, the
/// displacement and the stop flag, so casting the same ray twice against
/// an unchanged grid yields identical results.
pub proof fn lemma_ray_cast_idempotent(grid: Grid, x0: int, y0: int, dx: int, dy: int, stop_at_solid: bool)
    ensures
        cast_spec(grid, x0, y0, dx, dy, stop_at_solid) == cast_spec(
            grid,
            x0,
            y0,
            dx,
            dy,
            stop_at_solid,
        ),
{
}

} // verus!
