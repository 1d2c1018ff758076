//! The projectile simulator: per-tick drag, low-speed termination, body
//! collision, and material-aware wall interaction (stop, penetration or
//! ricochet).  Every step of the tick is mirrored by a specification
//! function, so the update's outcome is pinned exactly.

use vstd::prelude::*;
use crate::cast::{cast_spec, clamp, CastResult};
use crate::enemy::Enemy;
use crate::fixed::{div_trunc, sqrt_floor, DELTA_LIMIT, DISP_LIMIT, POS_LIMIT, SCALE};

use crate::geom::{norm_sq, circle_meets_segment, reflect_spec, Point2, Vector2};
use crate::grid::Grid;
use crate::health::HP_LIMIT;
use crate::material::Palette;
use crate::player::{Object, Player};
use crate::weapon::{BulletType, Weapon, DAMAGE_LIMIT};

verus! {

/// Body-hit radius for the player and enemies, in subunits: 16 world
/// units.
pub const HIT_RADIUS: i64 = 1048576;

/// Headshot radius around the stored aim point: 12 world units.
pub const HEADSHOT_RADIUS: i64 = 786432;

/// Containment bound for a bullet's position: one tick's travel beyond
/// the largest grid.
pub const BULLET_POS_LIMIT: i64 = 137455730688;

/// The outcome of one bullet tick: exactly one tag per tick.
#[derive(Clone, Copy, Debug, PartialEq, Eq, Structural)]
pub enum Hit {
    Wall,
    Player { headshot: bool },
    Enemy { index: usize, headshot: bool },
    Nothing,
}

/// A projectile in flight.
#[derive(Clone, Copy, Debug, PartialEq, Eq, Structural)]
pub struct Bullet {
    pub obj: Object,
    pub vel: Vector2,
    /// The immutable weapon definition this bullet was fired from.
    pub weapon: Weapon,
    /// The aim point at fire time, for headshot geometry.
    pub target: Point2,
    /// Latch: the enemy the bullet is currently overlapping, to prevent
    /// double damage.
    pub in_enemy: Option<usize>,
    /// Latch: the material the bullet is currently tunnelling through.
    pub in_wall: Option<u8>,
}

/// The per-tick velocity loss, by projectile kind: spinning blades shed
/// speed slower than ordinary rounds.
pub open spec fn drag_amount(t: BulletType, delta: int) -> int {
    if t is SawBlade {
        60 * delta
    } else {
        220 * delta
    }
}

/// Velocity after drag: each component loses its share `v * a / n` of the
/// deceleration, where `n` is the current speed.
pub open spec fn decel_spec(v: Vector2, a: int, n: int) -> Vector2 {
    Vector2 {
        x: (v.x - div_trunc(v.x * a, n)) as i64,
        y: (v.y - div_trunc(v.y * a, n)) as i64,
    }
}

/// The velocity the tick's travel is computed from: the pre-drag velocity
/// minus half the drag term (trapezoid integration).
pub open spec fn travel_spec(v: Vector2, a: int, n: int) -> Vector2 {
    Vector2 {
        x: (v.x - div_trunc(div_trunc(v.x * a, n), 2)) as i64,
        y: (v.y - div_trunc(div_trunc(v.y * a, n), 2)) as i64,
    }
}

/// The displacement covered in one time step at velocity `v`.
pub open spec fn disp_spec(v: Vector2, delta: int) -> Vector2 {
    Vector2 {
        x: div_trunc(v.x * delta, SCALE as int) as i64,
        y: div_trunc(v.y * delta, SCALE as int) as i64,
    }
}

/// `v` scaled by the ratio `k / s`.
pub open spec fn scale_vec_spec(v: Vector2, k: int, s: int) -> Vector2 {
    Vector2 { x: div_trunc(v.x * k, s) as i64, y: div_trunc(v.y * k, s) as i64 }
}

/// Whether the travel segment from `start` along `d` passes within
/// `radius` of `center`.
pub open spec fn hits_circle(start: Point2, d: Vector2, center: Point2, radius: int) -> bool {
    circle_meets_segment(
        center.x - start.x,
        center.y - start.y,
        d.x as int,
        d.y as int,
        radius,
    )
}

/// The damage a bullet deals: the weapon's damage scaled by the bullet's
/// current speed over its muzzle speed — a decayed bullet deals less.
pub open spec fn damage_value(weapon: Weapon, vel: Vector2) -> int {
    div_trunc(
        weapon.damage * sqrt_floor(norm_sq(vel.x as int, vel.y as int)),
        weapon.bullet_speed as int,
    )
}

/// The damage actually applied on a body hit: half again on a headshot.
pub open spec fn hit_amount(weapon: Weapon, vel: Vector2, headshot: bool) -> int {
    if headshot {
        div_trunc(damage_value(weapon, vel) * 3, 2)
    } else {
        damage_value(weapon, vel)
    }
}

/// A coordinate clamped into the containment bound.
pub open spec fn contain_coord(c: int) -> int {
    clamp(c, -BULLET_POS_LIMIT as int, BULLET_POS_LIMIT as int)
}

/// A position clamped into the containment bound.
pub open spec fn contain_spec(p: Point2) -> Point2 {
    Point2 { x: contain_coord(p.x as int) as i64, y: contain_coord(p.y as int) as i64 }
}

/// The point `v` past `p`.
pub open spec fn point_plus(p: Point2, v: Vector2) -> Point2 {
    Point2 { x: (p.x + v.x) as i64, y: (p.y + v.y) as i64 }
}

/// The fixed-point unit direction of `v` (rounded toward zero).
pub open spec fn dir_spec(v: Vector2) -> Vector2 {
    let n = sqrt_floor(norm_sq(v.x as int, v.y as int));
    Vector2 {
        x: div_trunc(v.x * (SCALE as int), n) as i64,
        y: div_trunc(v.y * (SCALE as int), n) as i64,
    }
}

/// What the enemy scan leaves behind: the new overlap latch and the index
/// of the enemy hit, if any.
pub struct ScanOutcome {
    pub latch: Option<usize>,
    pub hit: Option<int>,
}

/// Scan the enemies in order from index `i`: the first enemy whose body
/// the travel segment meets is hit, unless the overlap latch is set; the
/// latch clears when the segment no longer overlaps the latched enemy.
pub open spec fn scan_spec(epos: Seq<Point2>, start: Point2, d: Vector2, latch: Option<usize>, i: int) -> ScanOutcome
    decreases epos.len() - i,
{
    if i < 0 || i >= epos.len() {
        ScanOutcome { latch, hit: None }
    } else if hits_circle(start, d, epos[i], HIT_RADIUS as int) {
        if latch is None {
            ScanOutcome { latch: Some(i as usize), hit: Some(i) }
        } else {
            scan_spec(epos, start, d, latch, i + 1)
        }
    } else {
        let latch2 = if latch == Some(i as usize) {
            Option::<usize>::None
        } else {
            latch
        };
        scan_spec(epos, start, d, latch2, i + 1)
    }
}

/// The positions of the enemies, in order.
pub open spec fn enemy_positions(es: Seq<Enemy>) -> Seq<Point2> {
    es.map_values(|e: Enemy| e.pl.obj.pos)
}

/// The outcome of one bullet tick, before any damage is applied: the
/// bullet's next state, the reported hit, and the damage owed to the
/// player or to one enemy.
pub struct TickOutcome {
    pub bullet: Bullet,
    pub hit: Hit,
    pub player_amount: Option<int>,
    pub enemy_amount: Option<(int, int)>,
}

/// The wall-interaction phase, given the tick's cast: bouncy weapons
/// reflect off the struck wall and never stop; others stop at the wall
/// unless the weapon's penetration beats the material's robustness and
/// enough speed remains to tunnel through.
pub open spec fn wall_spec(b: Bullet, pal: Palette, cast: CastResult, a: int, start: Point2, dp: Vector2) -> TickOutcome {
    if b.weapon.bounciness {
        let nv = cast.normal->Some_0;
        if cast.normal is Some && (nv.x == 0 || nv.y == 0) && !(nv.x == 0 && nv.y == 0) {
            let v2 = reflect_spec(b.vel, nv);
            let p2 = contain_spec(point_plus(cast.point, reflect_spec(cast.clip, nv)));
            let rot2 = if v2.x == 0 && v2.y == 0 {
                b.obj.rot
            } else {
                dir_spec(v2)
            };
            TickOutcome {
                bullet: Bullet {
                    obj: Object { pos: p2, rot: rot2 },
                    vel: v2,
                    in_enemy: None,
                    in_wall: None,
                    ..b
                },
                hit: Hit::Nothing,
                player_amount: None,
                enemy_amount: None,
            }
        } else {
            TickOutcome {
                bullet: Bullet {
                    obj: Object { pos: contain_spec(cast.point), ..b.obj },
                    in_wall: None,
                    ..b
                },
                hit: Hit::Nothing,
                player_amount: None,
                enemy_amount: None,
            }
        }
    } else if cast.is_full {
        TickOutcome {
            bullet: Bullet {
                obj: Object { pos: contain_spec(cast.point), ..b.obj },
                in_wall: None,
                ..b
            },
            hit: Hit::Nothing,
            player_amount: None,
            enemy_amount: None,
        }
    } else {
        let m = match cast.hit_mat {
            Some(m) => m,
            None => crate::material::Material::Missing,
        };
        if b.in_wall == Some(m.spec_id()) {
            TickOutcome {
                bullet: Bullet {
                    obj: Object { pos: contain_spec(point_plus(start, dp)), ..b.obj },
                    ..b
                },
                hit: Hit::Nothing,
                player_amount: None,
                enemy_amount: None,
            }
        } else {
            let r = pal.spec_robustness(m.spec_id());
            let scaled = scale_vec_spec(b.vel, SCALE as int - r, SCALE as int);
            if b.weapon.penetration >= r && norm_sq(scaled.x as int, scaled.y as int) > a * a {
                TickOutcome {
                    bullet: Bullet {
                        obj: Object { pos: contain_spec(point_plus(start, dp)), ..b.obj },
                        vel: scaled,
                        in_wall: Some(m.spec_id()),
                        ..b
                    },
                    hit: Hit::Nothing,
                    player_amount: None,
                    enemy_amount: None,
                }
            } else {
                TickOutcome {
                    bullet: Bullet {
                        obj: Object { pos: contain_spec(cast.point), ..b.obj },
                        ..b
                    },
                    hit: Hit::Wall,
                    player_amount: None,
                    enemy_amount: None,
                }
            }
        }
    }
}

/// One full tick of a bullet: drag, inclusive low-speed stop, body
/// collision (bodies take priority over walls within the tick), then the
/// wall phase.
pub open spec fn update_spec(b: Bullet, pal: Palette, grid: Grid, player_pos: Point2, epos: Seq<Point2>, delta: int) -> TickOutcome {
    let a = drag_amount(b.weapon.bullet_type, delta);
    if norm_sq(b.vel.x as int, b.vel.y as int) <= a * a {
        TickOutcome { bullet: b, hit: Hit::Wall, player_amount: None, enemy_amount: None }
    } else {
        let n = sqrt_floor(norm_sq(b.vel.x as int, b.vel.y as int));
        let v1 = decel_spec(b.vel, a, n);
        let dp = disp_spec(travel_spec(b.vel, a, n), delta);
        let start = b.obj.pos;
        let headshot = hits_circle(start, dp, b.target, HEADSHOT_RADIUS as int);
        let b1 = Bullet { vel: v1, ..b };
        if hits_circle(start, dp, player_pos, HIT_RADIUS as int) {
            TickOutcome {
                bullet: b1,
                hit: Hit::Player { headshot },
                player_amount: Some(hit_amount(b1.weapon, v1, headshot)),
                enemy_amount: None,
            }
        } else {
            let sc = scan_spec(epos, start, dp, b.in_enemy, 0);
            let i = sc.hit->Some_0;
            if sc.hit is Some {
                TickOutcome {
                    bullet: Bullet { in_enemy: sc.latch, ..b1 },
                    hit: Hit::Enemy { index: i as usize, headshot },
                    player_amount: None,
                    enemy_amount: Some((i, hit_amount(b1.weapon, v1, headshot))),
                }
            } else {
                let b2 = Bullet { in_enemy: sc.latch, ..b1 };
                let cast = cast_spec(
                    grid,
                    start.x as int,
                    start.y as int,
                    dp.x as int,
                    dp.y as int,
                    true,
                );
                wall_spec(b2, pal, cast, a, start, dp)
            }
        }
    }
}

impl Bullet {
    /// The ranges the simulator relies on: a sound weapon, speed never
    /// above the muzzle speed, and positions inside the containment
    /// bound.
    pub open spec fn wf(self) -> bool {
        &&& self.weapon.wf()
        &&& norm_sq(self.vel.x as int, self.vel.y as int) <= self.weapon.bullet_speed as int
            * self.weapon.bullet_speed as int
        &&& -BULLET_POS_LIMIT <= self.obj.pos.x <= BULLET_POS_LIMIT
        &&& -BULLET_POS_LIMIT <= self.obj.pos.y <= BULLET_POS_LIMIT
        &&& -POS_LIMIT <= self.target.x <= POS_LIMIT
        &&& -POS_LIMIT <= self.target.y <= POS_LIMIT
    }

    /// Fire a bullet: it starts at `pos` moving at the weapon's muzzle
    /// speed along `dir` (a fixed-point unit direction), aimed at
    /// `target`.
    #[verifier::rlimit(50)]
    pub fn fire(weapon: Weapon, pos: Point2, dir: Vector2, target: Point2) -> (b: Bullet)
        requires
            weapon.wf(),
            -SCALE <= dir.x <= SCALE,
            -SCALE <= dir.y <= SCALE,
            norm_sq(dir.x as int, dir.y as int) <= SCALE as int * SCALE as int,
            -BULLET_POS_LIMIT <= pos.x <= BULLET_POS_LIMIT,
            -BULLET_POS_LIMIT <= pos.y <= BULLET_POS_LIMIT,
            -POS_LIMIT <= target.x <= POS_LIMIT,
            -POS_LIMIT <= target.y <= POS_LIMIT,
        ensures
            b.wf(),
            b.obj.pos == pos,
            b.obj.rot == dir,
            b.weapon == weapon,
            b.target == target,
            b.in_enemy is None,
            b.in_wall is None,
            b.vel == scale_vec_spec(dir, weapon.bullet_speed as int, SCALE as int),
    {
        let vx = crate::fixed::div_trunc_i128(
            crate::fixed::mul_wide(dir.x, weapon.bullet_speed),
            SCALE as i128,
        );
        let vy = crate::fixed::div_trunc_i128(
            crate::fixed::mul_wide(dir.y, weapon.bullet_speed),
            SCALE as i128,
        );
        proof {
            assert(-(SCALE as int * weapon.bullet_speed as int) <= dir.x as int
                * weapon.bullet_speed as int <= SCALE as int * weapon.bullet_speed as int)
                by (nonlinear_arith)
                requires
                    -SCALE as int <= dir.x as int <= SCALE as int,
                    0 < weapon.bullet_speed as int,
            ;
            assert(-(SCALE as int * weapon.bullet_speed as int) <= dir.y as int
                * weapon.bullet_speed as int <= SCALE as int * weapon.bullet_speed as int)
                by (nonlinear_arith)
                requires
                    -SCALE as int <= dir.y as int <= SCALE as int,
                    0 < weapon.bullet_speed as int,
            ;
            crate::fixed::lemma_div_trunc_quotient_bound(
                dir.x as int * weapon.bullet_speed as int,
                SCALE as int,
                weapon.bullet_speed as int,
            );
            crate::fixed::lemma_div_trunc_quotient_bound(
                dir.y as int * weapon.bullet_speed as int,
                SCALE as int,
                weapon.bullet_speed as int,
            );
        }
        let b = Bullet {
            obj: Object { pos, rot: dir },
            vel: Vector2 { x: vx as i64, y: vy as i64 },
            weapon,
            target,
            in_enemy: None,
            in_wall: None,
        };
        proof {
            let s = weapon.bullet_speed as int;
            let sc = SCALE as int;
            let ax = dir.x as int * s;
            let ay = dir.y as int * s;
            crate::fixed::lemma_div_trunc_mul_le(ax, sc);
            crate::fixed::lemma_div_trunc_mul_le(ay, sc);
            let rx = b.vel.x as int;
            let ry = b.vel.y as int;
            assert(rx * rx * (sc * sc) <= ax * ax && ry * ry * (sc * sc) <= ay * ay)
                by (nonlinear_arith)
                requires
                    ax >= 0 ==> 0 <= rx * sc <= ax,
                    ax < 0 ==> ax <= rx * sc <= 0,
                    ay >= 0 ==> 0 <= ry * sc <= ay,
                    ay < 0 ==> ay <= ry * sc <= 0,
            ;
            let dx2 = dir.x as int * dir.x as int;
            let dy2 = dir.y as int * dir.y as int;
            assert(ax * ax == dx2 * (s * s) && ay * ay == dy2 * (s * s)) by (nonlinear_arith)
                requires
                    ax == dir.x as int * s,
                    ay == dir.y as int * s,
                    dx2 == dir.x as int * dir.x as int,
                    dy2 == dir.y as int * dir.y as int,
            ;
            assert((dx2 + dy2) * (s * s) <= (sc * sc) * (s * s)) by (nonlinear_arith)
                requires
                    dx2 + dy2 <= sc * sc,
                    s * s >= 0,
            ;
            assert(dx2 * (s * s) + dy2 * (s * s) == (dx2 + dy2) * (s * s)) by (nonlinear_arith);
            assert(rx * rx + ry * ry <= s * s) by (nonlinear_arith)
                requires
                    rx * rx * (sc * sc) <= ax * ax,
                    ry * ry * (sc * sc) <= ay * ay,
                    ax * ax + ay * ay <= (sc * sc) * (s * s),
                    sc * sc > 0,
            ;
        }
        b
    }

    /// Advance the bullet by one fixed time step `delta` (subunits of a
    /// second): apply drag, stop spent rounds, test the travel segment
    /// against the player's and each enemy's body (bodies take priority
    /// over walls within the tick), then resolve the wall interaction.
    /// The whole tick is pinned to `update_spec`.
    #[verifier::rlimit(100)]
    pub fn update(&mut self, palette: &Palette, grid: &Grid, player: &mut Player, enemies: &mut Vec<Enemy>, delta: i64) -> (r: Hit)
        requires
            old(self).wf(),
            grid.wf(),
            palette.wf(),
            0 < delta <= DELTA_LIMIT,
            -POS_LIMIT <= old(player).obj.pos.x <= POS_LIMIT,
            -POS_LIMIT <= old(player).obj.pos.y <= POS_LIMIT,
            old(player).health.wf(),
            forall|i: int|
                0 <= i < old(enemies)@.len() ==> {
                    &&& -POS_LIMIT <= (#[trigger] old(enemies)@[i]).pl.obj.pos.x <= POS_LIMIT
                    &&& -POS_LIMIT <= old(enemies)@[i].pl.obj.pos.y <= POS_LIMIT
                    &&& old(enemies)@[i].pl.health.wf()
                },
        ensures
            ({
                let o = update_spec(
                    *old(self),
                    *palette,
                    *grid,
                    old(player).obj.pos,
                    enemy_positions(old(enemies)@),
                    delta as int,
                );
                &&& r == o.hit
                &&& *final(self) == o.bullet
                &&& final(self).wf()
                &&& *final(player) == (if o.player_amount is Some {
                    Player {
                        health: apply_amount(old(player).health, o.player_amount->Some_0),
                        ..*old(player)
                    }
                } else {
                    *old(player)
                })
                &&& (o.enemy_amount is Some ==> {
                    let ia = o.enemy_amount->Some_0;
                    &&& 0 <= ia.0 < old(enemies)@.len()
                    &&& final(enemies)@ == old(enemies)@.update(
                        ia.0,
                        Enemy {
                            pl: Player {
                                health: apply_amount(old(enemies)@[ia.0].pl.health, ia.1),
                                ..old(enemies)@[ia.0].pl
                            },
                            ..old(enemies)@[ia.0]
                        },
                    )
                })
                &&& (o.enemy_amount is None ==> final(enemies)@ == old(enemies)@)
            }),
            ({
                let a = drag_amount(old(self).weapon.bullet_type, delta as int);
                norm_sq(old(self).vel.x as int, old(self).vel.y as int) <= a * a ==> {
                    &&& r == Hit::Wall
                    &&& *final(self) == *old(self)
                    &&& *final(player) == *old(player)
                    &&& final(enemies)@ == old(enemies)@
                }
            }),
    {
        let ghost epos = enemy_positions(enemies@);
        let a: i64 = if matches!(self.weapon.bullet_type, BulletType::SawBlade) {
            60 * delta
        } else {
            220 * delta
        };
        proof {
            lemma_vel_components(self.vel, self.weapon.bullet_speed as int);
        }
        let nsq = self.vel.norm_sq();
        let a2 = crate::fixed::mul_wide(a, a);
        if nsq <= a2 {
            return Hit::Wall;
        }
        let n = self.vel.norm();
        proof {
            assert(a <= n) by (nonlinear_arith)
                requires
                    (a as int) * (a as int) < norm_sq(self.vel.x as int, self.vel.y as int),
                    norm_sq(self.vel.x as int, self.vel.y as int) < (n as int + 1) * (n as int
                        + 1),
                    0 <= a,
                    0 <= n,
            ;
        }
        let drag = crate::geom::scale_div(self.vel, a, n);
        let half = crate::geom::scale_div(drag, 1, 2);
        let v_travel = Vector2 { x: self.vel.x - half.x, y: self.vel.y - half.y };
        proof {
            lemma_vel_components(self.vel, self.weapon.bullet_speed as int);
        }
        let d_pos = crate::geom::displacement(v_travel, delta);
        let start = self.obj.pos;
        self.vel = Vector2 { x: self.vel.x - drag.x, y: self.vel.y - drag.y };
        let ghost v1 = self.vel;
        proof {
            crate::geom::lemma_norm_sq_mono(
                v1.x as int,
                v1.y as int,
                old(self).vel.x as int,
                old(self).vel.y as int,
            );
        }
        let headshot = crate::geom::segment_hits_circle(
            start,
            d_pos,
            self.target,
            HEADSHOT_RADIUS,
        );
        if crate::geom::segment_hits_circle(start, d_pos, player.obj.pos, HIT_RADIUS) {
            let amount = self.hit_damage_amount(headshot);
            player.health.weapon_damage(amount, self.weapon.penetration);
            return Hit::Player { headshot };
        }
        let ghost latch0 = self.in_enemy;
        let mut k: usize = 0;
        while k < enemies.len()
            invariant
                k <= enemies@.len(),
                enemies@ == old(enemies)@,
                epos == enemy_positions(old(enemies)@),
                epos.len() == enemies@.len(),
                *player == *old(player),
                grid.wf(),
                palette.wf(),
                self.obj == old(self).obj,
                self.vel == v1,
                self.weapon == old(self).weapon,
                self.target == old(self).target,
                self.in_wall == old(self).in_wall,
                old(self).wf(),
                self.wf(),
                0 < delta <= DELTA_LIMIT,
                a as int == drag_amount(old(self).weapon.bullet_type, delta as int),
                a2 == (a as int) * (a as int),
                0 <= a,
                norm_sq(old(self).vel.x as int, old(self).vel.y as int) > (a as int) * (
                a as int),
                n as int == sqrt_floor(
                    norm_sq(old(self).vel.x as int, old(self).vel.y as int),
                ),
                v1 == decel_spec(old(self).vel, a as int, n as int),
                d_pos == disp_spec(travel_spec(old(self).vel, a as int, n as int), delta as int),
                headshot == hits_circle(start, d_pos, old(self).target, HEADSHOT_RADIUS as int),
                !hits_circle(start, d_pos, old(player).obj.pos, HIT_RADIUS as int),
                start == old(self).obj.pos,
                latch0 == old(self).in_enemy,
                -DISP_LIMIT <= d_pos.x <= DISP_LIMIT,
                -DISP_LIMIT <= d_pos.y <= DISP_LIMIT,
                forall|i: int|
                    0 <= i < old(enemies)@.len() ==> {
                        &&& -POS_LIMIT <= (#[trigger] old(enemies)@[i]).pl.obj.pos.x
                            <= POS_LIMIT
                        &&& -POS_LIMIT <= old(enemies)@[i].pl.obj.pos.y <= POS_LIMIT
                        &&& old(enemies)@[i].pl.health.wf()
                    },
                scan_spec(epos, start, d_pos, latch0, 0) == scan_spec(
                    epos,
                    start,
                    d_pos,
                    self.in_enemy,
                    k as int,
                ),
            decreases enemies@.len() - k,
        {
            let e = enemies[k];
            proof {
                assert(epos[k as int] == e.pl.obj.pos);
            }
            if crate::geom::segment_hits_circle(start, d_pos, e.pl.obj.pos, HIT_RADIUS) {
                if self.in_enemy.is_none() {
                    let amount = self.hit_damage_amount(headshot);
                    let mut e2 = e;
                    e2.pl.health.weapon_damage(amount, self.weapon.penetration);
                    enemies.set(k, e2);
                    self.in_enemy = Some(k);
                    proof {
                        let o = update_spec(
                            *old(self),
                            *palette,
                            *grid,
                            old(player).obj.pos,
                            epos,
                            delta as int,
                        );
                        let sc = scan_spec(epos, start, d_pos, old(self).in_enemy, 0);
                        assert(old(self).in_enemy == latch0);
                        assert(sc == (ScanOutcome {
                            latch: Some(k),
                            hit: Some(k as int),
                        }));
                        assert(o.hit == (Hit::Enemy { index: k, headshot }));
                        assert(o.bullet == *self);
                        assert(o.enemy_amount == Some((k as int, amount as int)));
                        assert(o.player_amount is None);
                        assert(enemies@ == old(enemies)@.update(
                            k as int,
                            Enemy {
                                pl: Player {
                                    health: apply_amount(
                                        old(enemies)@[k as int].pl.health,
                                        amount as int,
                                    ),
                                    ..old(enemies)@[k as int].pl
                                },
                                ..old(enemies)@[k as int]
                            },
                        ));
                    }
                    return Hit::Enemy { index: k, headshot };
                }
            } else {
                if let Some(j) = self.in_enemy {
                    if j == k {
                        self.in_enemy = None;
                    }
                }
            }
            k += 1;
        }
        proof {
            assert(scan_spec(epos, start, d_pos, self.in_enemy, k as int)
                == (ScanOutcome { latch: self.in_enemy, hit: None }));
        }
        let cast = grid.ray_cast(palette, start, d_pos, true);
        let ghost sc = scan_spec(epos, start, d_pos, old(self).in_enemy, 0);
        let ghost b2g = Bullet { in_enemy: sc.latch, vel: v1, ..*old(self) };
        let ghost og = update_spec(
            *old(self),
            *palette,
            *grid,
            old(player).obj.pos,
            epos,
            delta as int,
        );
        proof {
            assert(sc.hit is None && sc.latch == self.in_enemy);
            assert(og == wall_spec(b2g, *palette, cast, a as int, start, d_pos));
            assert(b2g == *self);
        }
        if self.weapon.bounciness {
            self.in_wall = None;
            let hv = cast.half_vec();
            let bounce = match hv {
                Some(nv) => (nv.x == 0 || nv.y == 0) && !(nv.x == 0 && nv.y == 0),
                None => false,
            };
            if bounce {
                let nv = match hv {
                    Some(nv) => nv,
                    None => Vector2 { x: 0, y: 0 },
                };
                let vel2 = crate::geom::reflect(self.vel, nv);
                let clip2 = crate::geom::reflect(cast.clip(), nv);
                proof {
                    crate::geom::lemma_reflect_preserves_norm_sq(self.vel, nv);
                }
                self.vel = vel2;
                self.obj.pos = contain_point(cast.into_point().offset(clip2));
                if !(vel2.x == 0 && vel2.y == 0) {
                    proof {
                        lemma_vel_components(vel2, old(self).weapon.bullet_speed as int);
                    }
                    self.obj.rot = crate::geom::angle_from_vec(vel2);
                }
                self.in_enemy = None;
                return Hit::Nothing;
            }
            self.obj.pos = contain_point(cast.into_point());
            return Hit::Nothing;
        }
        if cast.full() {
            self.in_wall = None;
            self.obj.pos = contain_point(cast.into_point());
            return Hit::Nothing;
        }
        let m = match cast.hit_material() {
            Some(m) => m,
            None => crate::material::Material::Missing,
        };
        let mid = m.id();
        let in_same_wall = match self.in_wall {
            Some(w) => w == mid,
            None => false,
        };
        if in_same_wall {
            self.obj.pos = contain_point(start.offset(d_pos));
            return Hit::Nothing;
        }
        let rob = palette.robustness(mid);
        let scaled = crate::geom::scale_div(self.vel, SCALE - rob, SCALE);
        proof {
            crate::geom::lemma_norm_sq_mono(
                scaled.x as int,
                scaled.y as int,
                self.vel.x as int,
                self.vel.y as int,
            );
        }
        let s_nsq = scaled.norm_sq();
        if self.weapon.penetration >= rob && s_nsq > a2 {
            self.vel = scaled;
            self.in_wall = Some(mid);
            self.obj.pos = contain_point(start.offset(d_pos));
            return Hit::Nothing;
        }
        self.obj.pos = contain_point(cast.into_point());
        return Hit::Wall;
    }

    /// The damage applied on a body hit this tick, with the headshot
    /// bonus.
    fn hit_damage_amount(&self, headshot: bool) -> (amount: i64)
        requires
            self.wf(),
        ensures
            amount == hit_amount(self.weapon, self.vel, headshot),
            0 <= amount <= 2 * DAMAGE_LIMIT,
    {
        let base = self.damage_amount();
        if headshot {
            (base * 3) / 2
        } else {
            base
        }
    }

    /// The damage this bullet would deal, applied to a health component.
    pub fn apply_damage(&self, health: &mut crate::health::Health)
        requires
            self.wf(),
            old(health).wf(),
        ensures
            final(health).hp == (if old(health).hp - damage_value(self.weapon, self.vel)
                < -HP_LIMIT {
                -HP_LIMIT
            } else {
                old(health).hp - damage_value(self.weapon, self.vel)
            }),
            final(health).wf(),
    {
        let amount = self.damage_amount();
        health.weapon_damage(amount, self.weapon.penetration);
    }

    /// The damage value as an executable amount.
    fn damage_amount(&self) -> (amount: i64)
        requires
            self.wf(),
        ensures
            amount == damage_value(self.weapon, self.vel),
            0 <= amount <= DAMAGE_LIMIT,
    {
        proof {
            lemma_vel_components(self.vel, self.weapon.bullet_speed as int);
        }
        let n = self.vel.norm();
        proof {
            assert(n as int <= self.weapon.bullet_speed as int) by (nonlinear_arith)
                requires
                    n as int * n as int <= norm_sq(self.vel.x as int, self.vel.y as int),
                    norm_sq(self.vel.x as int, self.vel.y as int)
                        <= self.weapon.bullet_speed as int * self.weapon.bullet_speed as int,
                    0 <= n as int,
                    0 < self.weapon.bullet_speed as int,
            ;
            assert(0 <= self.weapon.damage as int * n as int <= self.weapon.bullet_speed as int
                * DAMAGE_LIMIT as int) by (nonlinear_arith)
                requires
                    0 <= self.weapon.damage as int <= DAMAGE_LIMIT as int,
                    0 <= n as int <= self.weapon.bullet_speed as int,
            ;
            crate::fixed::lemma_div_trunc_quotient_bound(
                self.weapon.damage as int * n as int,
                self.weapon.bullet_speed as int,
                DAMAGE_LIMIT as int,
            );
        }
        let q = crate::fixed::div_trunc_i128(
            crate::fixed::mul_wide(self.weapon.damage, n),
            self.weapon.bullet_speed as i128,
        );
        q as i64
    }
}

/// A health value after taking `amount` of damage, saturating at the
/// lowest representable health.
pub open spec fn apply_amount(h: crate::health::Health, amount: int) -> crate::health::Health {
    crate::health::Health {
        hp: (if h.hp - amount < -HP_LIMIT {
            -HP_LIMIT as int
        } else {
            h.hp - amount
        }) as i64,
    }
}

/// A position clamped into the containment bound.
fn contain_point(p: Point2) -> (r: Point2)
    ensures
        r == contain_spec(p),
        -BULLET_POS_LIMIT <= r.x <= BULLET_POS_LIMIT,
        -BULLET_POS_LIMIT <= r.y <= BULLET_POS_LIMIT,
{
    let x = if p.x < -BULLET_POS_LIMIT {
        -BULLET_POS_LIMIT
    } else if p.x > BULLET_POS_LIMIT {
        BULLET_POS_LIMIT
    } else {
        p.x
    };
    let y = if p.y < -BULLET_POS_LIMIT {
        -BULLET_POS_LIMIT
    } else if p.y > BULLET_POS_LIMIT {
        BULLET_POS_LIMIT
    } else {
        p.y
    };
    Point2 { x, y }
}

/// The damage a sound bullet deals is between zero and twice the damage
/// limit, headshot bonus included.
pub proof fn lemma_hit_amount_bounds(weapon: Weapon, vel: Vector2, headshot: bool)
    requires
        weapon.wf(),
        norm_sq(vel.x as int, vel.y as int) <= weapon.bullet_speed as int
            * weapon.bullet_speed as int,
    ensures
        0 <= damage_value(weapon, vel) <= DAMAGE_LIMIT,
        0 <= hit_amount(weapon, vel, headshot) <= 2 * DAMAGE_LIMIT,
{
    let nsq = norm_sq(vel.x as int, vel.y as int);
    assert(vel.x as int * vel.x as int + vel.y as int * vel.y as int >= 0) by (nonlinear_arith);
    assert(nsq >= 0);
    crate::fixed::lemma_sqrt_floor_bracket(nsq);
    let n = sqrt_floor(nsq);
    let speed = weapon.bullet_speed as int;
    assert(n <= speed) by (nonlinear_arith)
        requires
            n * n <= nsq,
            nsq <= speed * speed,
            0 <= n,
            0 < speed,
    ;
    assert(0 <= weapon.damage as int * n <= speed * DAMAGE_LIMIT as int) by (nonlinear_arith)
        requires
            0 <= weapon.damage as int <= DAMAGE_LIMIT as int,
            0 <= n <= speed,
    ;
    crate::fixed::lemma_div_trunc_quotient_bound(
        weapon.damage as int * n,
        speed,
        DAMAGE_LIMIT as int,
    );
    let dv = damage_value(weapon, vel);
    assert(0 <= dv * 3 <= 2 * (3 * DAMAGE_LIMIT as int)) by (nonlinear_arith)
        requires
            0 <= dv <= DAMAGE_LIMIT as int,
    ;
    crate::fixed::lemma_div_trunc_quotient_bound(dv * 3, 2, 3 * DAMAGE_LIMIT as int);
    if dv >= 0 {
        assert(div_trunc(dv * 3, 2) == (dv * 3) / 2);
        vstd::arithmetic::div_mod::lemma_div_is_ordered(0, dv * 3, 2);
        vstd::arithmetic::div_mod::lemma_div_is_ordered(dv * 3, 2 * (2 * DAMAGE_LIMIT as int), 2);
        vstd::arithmetic::div_mod::lemma_div_by_multiple(2 * DAMAGE_LIMIT as int, 2);
        assert(dv * 3 <= 2 * (2 * DAMAGE_LIMIT as int)) by (nonlinear_arith)
            requires
                0 <= dv <= DAMAGE_LIMIT as int,
        ;
        assert((2 * (2 * DAMAGE_LIMIT as int)) == (2 * DAMAGE_LIMIT as int) * 2)
            by (nonlinear_arith);
    }
}

/// Each velocity component is bounded by the speed bound when the squared
/// norm is.
proof fn lemma_vel_components(v: Vector2, speed: int)
    requires
        norm_sq(v.x as int, v.y as int) <= speed * speed,
        0 <= speed,
    ensures
        -speed <= v.x as int <= speed,
        -speed <= v.y as int <= speed,
{
    assert(-speed <= v.x as int <= speed && -speed <= v.y as int <= speed) by (nonlinear_arith)
        requires
            norm_sq(v.x as int, v.y as int) <= speed * speed,
            0 <= speed,
    ;
}

} // verus!
