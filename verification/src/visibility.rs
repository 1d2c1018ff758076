//! The visibility engine: the fan of rays that bounds what an observer
//! sees (for the fog-of-war mask) and the straight line-of-sight query
//! used by enemy perception.

use vstd::prelude::*;
use crate::cast::cast_spec;
use crate::fixed::{div_trunc, div_trunc_i128, mul_wide, POS_LIMIT, SCALE};
use crate::geom::{norm_sq, rot_spec, rotate_fixed, Point2, Vector2};
use crate::grid::{Grid, CELL};
use crate::material::Palette;

verus! {

/// Fixed-point cosine of the cone's half-angle (60 degrees).
pub const COS_HALF_CONE: i64 = 32768;

/// Fixed-point sine of the cone's half-angle (60 degrees), chosen so the
/// pair lies inside the unit circle.
pub const SIN_HALF_CONE: i64 = 56755;

/// Fixed-point cosine of the sampling step (2 degrees).
pub const COS_STEP: i64 = 65496;

/// Fixed-point sine of the sampling step (2 degrees).
pub const SIN_STEP: i64 = 2287;

/// Number of rays sampled across the cone: one every 2 degrees over a
/// 120-degree span.
pub const CONE_SAMPLES: usize = 60;

/// The direction of the `i`-th sampled ray: the facing turned to the
/// cone's trailing edge, then stepped forward `i` times.
pub open spec fn vis_dir(facing: Vector2, i: nat) -> Vector2
    decreases i,
{
    if i == 0 {
        rot_spec(facing, COS_HALF_CONE as int, -SIN_HALF_CONE as int)
    } else {
        rot_spec(vis_dir(facing, (i - 1) as nat), COS_STEP as int, SIN_STEP as int)
    }
}

/// The boundary point the `i`-th ray contributes: the furthest visible
/// point along the ray, pushed 15 world units further out.
pub open spec fn vis_sample(grid: Grid, pos: Point2, facing: Vector2, length: i64, i: nat) -> Point2 {
    let dir = vis_dir(facing, i);
    let dx = div_trunc(dir.x * length, SCALE as int);
    let dy = div_trunc(dir.y * length, SCALE as int);
    let cast = cast_spec(grid, pos.x as int, pos.y as int, dx, dy, true);
    Point2 {
        x: (cast.point.x + dir.x * 15) as i64,
        y: (cast.point.y + dir.y * 15) as i64,
    }
}

/// Whether an observer at `observer` has an unobstructed straight line to
/// `target`: a ray cast between them, with no angular restriction.
pub fn can_see(observer: Point2, target: Point2, palette: &Palette, grid: &Grid) -> (b: bool)
    requires
        grid.wf(),
        -POS_LIMIT <= observer.x <= POS_LIMIT,
        -POS_LIMIT <= observer.y <= POS_LIMIT,
        -POS_LIMIT <= target.x <= POS_LIMIT,
        -POS_LIMIT <= target.y <= POS_LIMIT,
    ensures
        b == cast_spec(
            *grid,
            observer.x as int,
            observer.y as int,
            target.x - observer.x,
            target.y - observer.y,
            true,
        ).is_full,
{
    let disp = target.minus(observer);
    let cast = grid.ray_cast(palette, observer, disp, true);
    cast.full()
}

/// The polygon that covers everything outside the visible area: the four
/// level corners, then the sampled ray endpoints (preceded by the
/// observer's own position when the first endpoint falls outside the
/// observer's forward quadrant, which keeps the polygon simple), closed
/// through the observer, the first point and two corners again.
pub fn visible_area(pos: Point2, facing: Vector2, length: i64, palette: &Palette, grid: &Grid) -> (v: Vec<Point2>)
    requires
        grid.wf(),
        -POS_LIMIT <= pos.x <= POS_LIMIT,
        -POS_LIMIT <= pos.y <= POS_LIMIT,
        0 <= length <= POS_LIMIT,
        norm_sq(facing.x as int, facing.y as int) <= SCALE as int * SCALE as int,
    ensures
        ({
            let w = grid.spec_width() * (CELL as int);
            let h = grid.spec_height() * (CELL as int);
            let first = vis_sample(*grid, pos, facing, length, 0);
            let inserted = first.y < pos.y || first.x < pos.x;
            let off: int = if inserted {
                5
            } else {
                4
            };
            let fpoint = if inserted {
                pos
            } else {
                first
            };
            &&& v@.len() == off + CONE_SAMPLES + 4
            &&& v@[0] == (Point2 { x: 0, y: h as i64 })
            &&& v@[1] == (Point2 { x: 0, y: 0 })
            &&& v@[2] == (Point2 { x: w as i64, y: 0 })
            &&& v@[3] == (Point2 { x: w as i64, y: h as i64 })
            &&& (inserted ==> v@[4] == pos)
            &&& forall|i: int|
                0 <= i < CONE_SAMPLES ==> #[trigger] v@[off + i] == vis_sample(
                    *grid,
                    pos,
                    facing,
                    length,
                    i as nat,
                )
            &&& v@[off + CONE_SAMPLES] == pos
            &&& v@[off + CONE_SAMPLES + 1] == fpoint
            &&& v@[off + CONE_SAMPLES + 2] == (Point2 { x: w as i64, y: h as i64 })
            &&& v@[off + CONE_SAMPLES + 3] == (Point2 { x: 0, y: h as i64 })
        }),
{
    let w: i64 = (grid.width() as i64) * CELL;
    let h: i64 = (grid.height() as i64) * CELL;
    let mut v: Vec<Point2> = Vec::new();
    v.push(Point2 { x: 0, y: h });
    v.push(Point2 { x: 0, y: 0 });
    v.push(Point2 { x: w, y: 0 });
    v.push(Point2 { x: w, y: h });
    let mut dir = rotate_fixed(facing, COS_HALF_CONE, -SIN_HALF_CONE);
    let mut fpoint = Point2 { x: 0, y: 0 };
    let mut off: usize = 4;
    let mut i: usize = 0;
    while i < CONE_SAMPLES
        invariant
            i <= CONE_SAMPLES,
            grid.wf(),
            -POS_LIMIT <= pos.x <= POS_LIMIT,
            -POS_LIMIT <= pos.y <= POS_LIMIT,
            0 <= length <= POS_LIMIT,
            w == grid.spec_width() * (CELL as int),
            h == grid.spec_height() * (CELL as int),
            0 <= w <= POS_LIMIT,
            0 <= h <= POS_LIMIT,
            dir == vis_dir(facing, i as nat),
            norm_sq(dir.x as int, dir.y as int) <= SCALE as int * SCALE as int,
            off == (if i == 0 {
                4int
            } else if vis_sample(*grid, pos, facing, length, 0).y < pos.y || vis_sample(
                *grid,
                pos,
                facing,
                length,
                0,
            ).x < pos.x {
                5int
            } else {
                4int
            }),
            v@.len() == off + i,
            v@[0] == (Point2 { x: 0, y: h as i64 }),
            v@[1] == (Point2 { x: 0, y: 0 }),
            v@[2] == (Point2 { x: w as i64, y: 0 }),
            v@[3] == (Point2 { x: w as i64, y: h as i64 }),
            off == 5 ==> v@[4] == pos,
            forall|j: int|
                0 <= j < i ==> #[trigger] v@[off + j] == vis_sample(
                    *grid,
                    pos,
                    facing,
                    length,
                    j as nat,
                ),
            i > 0 ==> fpoint == (if off == 5 {
                pos
            } else {
                vis_sample(*grid, pos, facing, length, 0)
            }),
        decreases CONE_SAMPLES - i,
    {
        proof {
            crate::geom::lemma_components_from_norm(dir, SCALE as int);
            assert(-(SCALE as int * POS_LIMIT as int) <= dir.x as int * length as int
                <= SCALE as int * POS_LIMIT as int) by (nonlinear_arith)
                requires
                    -SCALE as int <= dir.x as int <= SCALE as int,
                    0 <= length as int <= POS_LIMIT as int,
            ;
            assert(-(SCALE as int * POS_LIMIT as int) <= dir.y as int * length as int
                <= SCALE as int * POS_LIMIT as int) by (nonlinear_arith)
                requires
                    -SCALE as int <= dir.y as int <= SCALE as int,
                    0 <= length as int <= POS_LIMIT as int,
            ;
            crate::fixed::lemma_div_trunc_quotient_bound(
                dir.x as int * length as int,
                SCALE as int,
                POS_LIMIT as int,
            );
            crate::fixed::lemma_div_trunc_quotient_bound(
                dir.y as int * length as int,
                SCALE as int,
                POS_LIMIT as int,
            );
        }
        let dx = div_trunc_i128(mul_wide(dir.x, length), SCALE as i128);
        let dy = div_trunc_i128(mul_wide(dir.y, length), SCALE as i128);
        let disp = Vector2 { x: dx as i64, y: dy as i64 };
        let cast = grid.ray_cast(palette, pos, disp, true);
        let current = Point2 {
            x: cast.into_point().x + dir.x * 15,
            y: cast.into_point().y + dir.y * 15,
        };
        proof {
            assert(current == vis_sample(*grid, pos, facing, length, i as nat));
        }
        if i == 0 {
            if current.y < pos.y || current.x < pos.x {
                v.push(pos);
                off = 5;
                fpoint = pos;
            } else {
                fpoint = current;
            }
        }
        v.push(current);
        dir = rotate_fixed(dir, COS_STEP, SIN_STEP);
        i += 1;
    }
    v.push(pos);
    v.push(fpoint);
    v.push(Point2 { x: w, y: h });
    v.push(Point2 { x: 0, y: h });
    v
}

} // verus!
