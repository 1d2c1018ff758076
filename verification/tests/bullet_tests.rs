use tileshot::bullet::{Bullet, Hit};
use tileshot::enemy::Enemy;
use tileshot::geom::{Point2, Vector2};
use tileshot::grid::Grid;
use tileshot::material::{Material, Palette};
use tileshot::player::{Object, Player};
use tileshot::weapon::{BulletType, Weapon, WeaponSlot};
use tileshot::SCALE;

const DELTA: i64 = 1092;  // about 1/60 s in fixed point

fn wall_grid() -> Grid {
    let mut g = Grid::new(10, 10);
    g.insert(5, 5, Material::Wall);
    g
}

fn grass_grid() -> Grid {
    Grid::new(10, 10)
}

fn palette() -> Palette {
    Palette::new(vec![(1, SCALE)])
}

fn standard_weapon(bouncy: bool) -> Weapon {
    Weapon {
        damage: 10 * SCALE,
        penetration: 0,
        bullet_speed: 500 * SCALE,
        bullet_type: BulletType::Standard,
        bounciness: bouncy,
        slot: WeaponSlot::Holster,
    }
}

fn bullet_at(pos: Point2, vel: Vector2, target: Point2, weapon: Weapon) -> Bullet {
    Bullet {
        obj: Object { pos, rot: Vector2 { x: SCALE, y: 0 } },
        vel,
        weapon,
        target,
        in_enemy: None,
        in_wall: None,
    }
}

fn far_player() -> Player {
    Player::from_point(Point2::new(10 * SCALE, 10 * SCALE))
}

#[test]
fn standard_bullet_stops_at_wall() {
    let g = wall_grid();
    let p = palette();
    let mut player = far_player();
    let mut enemies: Vec<Enemy> = Vec::new();
    let mut b = bullet_at(
        Point2::new(159 * SCALE, 176 * SCALE),
        Vector2::new(500 * SCALE, 0),
        Point2::new(300 * SCALE, 10 * SCALE),
        standard_weapon(false),
    );
    let hit = b.update(&p, &g, &mut player, &mut enemies, DELTA);
    assert_eq!(hit, Hit::Wall);
    // The bullet stops on the wall's near edge.
    assert_eq!(b.obj.pos.x, 160 * SCALE);
}

#[test]
fn bouncy_bullet_reflects_off_wall() {
    let g = wall_grid();
    let p = palette();
    let mut player = far_player();
    let mut enemies: Vec<Enemy> = Vec::new();
    let v0 = 500 * SCALE;  // 32768000, an exact square root of its norm
    let mut b = bullet_at(
        Point2::new(159 * SCALE, 176 * SCALE),
        Vector2::new(v0, 0),
        Point2::new(300 * SCALE, 10 * SCALE),
        standard_weapon(true),
    );
    let hit = b.update(&p, &g, &mut player, &mut enemies, DELTA);
    assert_eq!(hit, Hit::Nothing);
    // Post-drag speed: 500 * SCALE minus 220 * DELTA of drag.
    let v1 = v0 - 220 * DELTA;
    // The component along the wall normal reverses sign exactly ...
    assert_eq!(b.vel.x, -v1);
    // ... the tangential component is preserved ...
    assert_eq!(b.vel.y, 0);
    // ... and the squared speed is conserved.
    assert_eq!(
        (b.vel.x as i128) * (b.vel.x as i128) + (b.vel.y as i128) * (b.vel.y as i128),
        (v1 as i128) * (v1 as i128),
    );
}

#[test]
fn bouncy_bullet_never_reports_wall_over_many_ticks() {
    let g = wall_grid();
    let p = palette();
    let mut player = far_player();
    let mut enemies: Vec<Enemy> = Vec::new();
    let mut b = bullet_at(
        Point2::new(150 * SCALE, 176 * SCALE),
        Vector2::new(500 * SCALE, 0),
        Point2::new(300 * SCALE, 10 * SCALE),
        standard_weapon(true),
    );
    for _ in 0..20 {
        let hit = b.update(&p, &g, &mut player, &mut enemies, DELTA);
        assert_ne!(hit, Hit::Wall);
    }
}

#[test]
fn player_headshot_within_both_radii() {
    let g = grass_grid();
    let p = palette();
    // Segment from (190, 160) about 8.3 units along +x; the player's
    // body centre is 10 units off the segment (within 16), and the aim
    // point coincides with it (within 12).
    let mut player = Player::from_point(Point2::new(195 * SCALE, 170 * SCALE));
    let hp0 = player.health.hp;
    let mut enemies: Vec<Enemy> = Vec::new();
    let mut b = bullet_at(
        Point2::new(190 * SCALE, 160 * SCALE),
        Vector2::new(500 * SCALE, 0),
        Point2::new(195 * SCALE, 170 * SCALE),
        standard_weapon(false),
    );
    let hit = b.update(&p, &g, &mut player, &mut enemies, DELTA);
    assert_eq!(hit, Hit::Player { headshot: true });
    assert!(player.health.hp < hp0);
}

#[test]
fn player_hit_without_headshot_beyond_aim_radius() {
    let g = grass_grid();
    let p = palette();
    // Body within 16 units of the segment, aim point 13 units off it:
    // a plain hit, no headshot.
    let mut player = Player::from_point(Point2::new(195 * SCALE, 170 * SCALE));
    let mut enemies: Vec<Enemy> = Vec::new();
    let mut b = bullet_at(
        Point2::new(190 * SCALE, 160 * SCALE),
        Vector2::new(500 * SCALE, 0),
        Point2::new(195 * SCALE, 173 * SCALE),
        standard_weapon(false),
    );
    let hit = b.update(&p, &g, &mut player, &mut enemies, DELTA);
    assert_eq!(hit, Hit::Player { headshot: false });
}

#[test]
fn speed_at_threshold_is_an_inclusive_stop() {
    let g = grass_grid();
    let p = palette();
    let mut player = far_player();
    let mut enemies: Vec<Enemy> = Vec::new();
    // Post-drag speed would be exactly zero: the per-tick drag equals the
    // current speed, so the bullet dies as spent, with no collision
    // tests and no state change.
    let a = 220 * DELTA;
    let mut b = bullet_at(
        Point2::new(100 * SCALE, 100 * SCALE),
        Vector2::new(a, 0),
        Point2::new(300 * SCALE, 10 * SCALE),
        standard_weapon(false),
    );
    let before = b;
    let hit = b.update(&p, &g, &mut player, &mut enemies, DELTA);
    assert_eq!(hit, Hit::Wall);
    assert_eq!(b, before);
}

#[test]
fn sawblade_threshold_is_lower() {
    let g = grass_grid();
    let p = palette();
    let mut player = far_player();
    let mut enemies: Vec<Enemy> = Vec::new();
    let mut weapon = standard_weapon(false);
    weapon.bullet_type = BulletType::SawBlade;
    // Between the saw-blade threshold (60 per second of delta) and the
    // standard one (220): a saw blade keeps flying.
    let v = 100 * DELTA;
    let mut b = bullet_at(
        Point2::new(100 * SCALE, 100 * SCALE),
        Vector2::new(v, 0),
        Point2::new(300 * SCALE, 10 * SCALE),
        weapon,
    );
    let hit = b.update(&p, &g, &mut player, &mut enemies, DELTA);
    assert_eq!(hit, Hit::Nothing);
}

#[test]
fn enemy_hit_latches_and_reports_index() {
    let g = grass_grid();
    let p = palette();
    let mut player = far_player();
    let mut enemies = vec![
        Enemy::new(Player::from_point(Point2::new(100 * SCALE, 100 * SCALE))),
        Enemy::new(Player::from_point(Point2::new(195 * SCALE, 165 * SCALE))),
    ];
    let mut b = bullet_at(
        Point2::new(190 * SCALE, 160 * SCALE),
        Vector2::new(500 * SCALE, 0),
        Point2::new(300 * SCALE, 10 * SCALE),
        standard_weapon(false),
    );
    let hp0 = enemies[1].pl.health.hp;
    let hit = b.update(&p, &g, &mut player, &mut enemies, DELTA);
    assert_eq!(hit, Hit::Enemy { index: 1, headshot: false });
    assert_eq!(b.in_enemy, Some(1));
    assert!(enemies[1].pl.health.hp < hp0);
    // The other enemy is untouched.
    assert_eq!(enemies[0].pl.health.hp, hp0);
}

#[test]
fn fire_sets_velocity_along_direction() {
    let weapon = standard_weapon(false);
    let b = Bullet::fire(
        weapon,
        Point2::new(50 * SCALE, 50 * SCALE),
        Vector2::new(SCALE, 0),
        Point2::new(100 * SCALE, 50 * SCALE),
    );
    assert_eq!(b.vel.x, 500 * SCALE);
    assert_eq!(b.vel.y, 0);
    assert_eq!(b.in_enemy, None);
    assert_eq!(b.in_wall, None);
}

#[test]
fn decayed_bullet_deals_less_damage() {
    let weapon = standard_weapon(false);
    let mut h1 = tileshot::health::Health::new(100 * SCALE);
    let mut h2 = tileshot::health::Health::new(100 * SCALE);
    let fast = bullet_at(
        Point2::new(0, 0),
        Vector2::new(500 * SCALE, 0),
        Point2::new(0, 0),
        weapon,
    );
    let slow = bullet_at(
        Point2::new(0, 0),
        Vector2::new(250 * SCALE, 0),
        Point2::new(0, 0),
        weapon,
    );
    fast.apply_damage(&mut h1);
    slow.apply_damage(&mut h2);
    // Full speed deals the full 10 health units; half speed deals half.
    assert_eq!(h1.hp, 90 * SCALE);
    assert_eq!(h2.hp, 95 * SCALE);
}
