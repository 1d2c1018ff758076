use tileshot::cast::CastResult;
use tileshot::geom::{Point2, Vector2};
use tileshot::grid::Grid;
use tileshot::material::{Material, Palette};
use tileshot::visibility::can_see;
use tileshot::SCALE;

fn wall_grid() -> Grid {
    // 10 x 10, all Grass except cell (5, 5) which is a Wall.
    let mut g = Grid::new(10, 10);
    g.insert(5, 5, Material::Wall);
    g
}

fn palette() -> Palette {
    Palette::new(vec![(1, SCALE)])
}

#[test]
fn ray_stops_at_wall_near_edge() {
    let g = wall_grid();
    let p = palette();
    // From (0, 160) toward (320, 160): crosses cell (5, 5).
    let origin = Point2::new(0, 160 * SCALE);
    let disp = Vector2::new(320 * SCALE, 0);
    let cast = g.ray_cast(&p, origin, disp, true);
    assert!(!cast.full());
    let pt = cast.into_point();
    assert_eq!(pt.x, 160 * SCALE);
    assert_eq!(pt.y, 160 * SCALE);
}

#[test]
fn ray_full_without_obstruction() {
    let g = wall_grid();
    let p = palette();
    // Straight along row 0: nothing solid there.
    let origin = Point2::new(16 * SCALE, 16 * SCALE);
    let disp = Vector2::new(280 * SCALE, 0);
    let cast = g.ray_cast(&p, origin, disp, true);
    assert!(cast.full());
    assert_eq!(cast.into_point().x, 296 * SCALE);
}

#[test]
fn ray_cast_is_idempotent() {
    let g = wall_grid();
    let p = palette();
    let origin = Point2::new(3 * SCALE, 7 * SCALE);
    let disp = Vector2::new(250 * SCALE, 199 * SCALE);
    let c1: CastResult = g.ray_cast(&p, origin, disp, true);
    let c2: CastResult = g.ray_cast(&p, origin, disp, true);
    assert_eq!(c1, c2);
}

#[test]
fn ray_stop_point_not_inside_solid_cell() {
    let g = wall_grid();
    let p = palette();
    let origin = Point2::new(10 * SCALE, 170 * SCALE);
    let disp = Vector2::new(310 * SCALE, 5 * SCALE);
    let cast = g.ray_cast(&p, origin, disp, true);
    let pt = cast.into_point();
    let (cx, cy) = Grid::snap(pt);
    // The snapped cell may sit on the boundary; strictly inside a solid
    // cell is what must never happen.
    let strictly_inside_wall = pt.x > 160 * SCALE && pt.x < 192 * SCALE && pt.y > 160 * SCALE
        && pt.y < 192 * SCALE;
    assert!(!strictly_inside_wall);
    let _ = (cx, cy);
}

#[test]
fn ray_stops_immediately_out_of_bounds() {
    let g = wall_grid();
    let p = palette();
    // A cast starting outside the grid is blocked where it stands.
    let origin = Point2::new(-5 * SCALE, 160 * SCALE);
    let disp = Vector2::new(100 * SCALE, 0);
    let cast = g.ray_cast(&p, origin, disp, true);
    assert!(!cast.full());
    assert_eq!(cast.into_point(), origin);
    assert_eq!(cast.hit_material(), Some(Material::Missing));
}

#[test]
fn can_see_blocked_by_wall() {
    let g = wall_grid();
    let p = palette();
    // Observer in cell (4, 5), target in cell (6, 5): the wall (5, 5)
    // lies on the straight segment between them.
    let observer = Point2::new(144 * SCALE, 176 * SCALE);
    let target = Point2::new(208 * SCALE, 176 * SCALE);
    assert!(!can_see(observer, target, &p, &g));
}

#[test]
fn can_see_clear_line() {
    let g = wall_grid();
    let p = palette();
    let observer = Point2::new(16 * SCALE, 16 * SCALE);
    let target = Point2::new(300 * SCALE, 16 * SCALE);
    assert!(can_see(observer, target, &p, &g));
    // And in the other direction too.
    assert!(can_see(target, observer, &p, &g));
}
