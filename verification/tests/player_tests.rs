use tileshot::geom::{Point2, Vector2};
use tileshot::grid::Grid;
use tileshot::health::Health;
use tileshot::material::Palette;
use tileshot::player::{ActiveSlot, Object, Player, WepSlots};
use tileshot::visibility::{visible_area, CONE_SAMPLES};
use tileshot::weapon::{BulletType, Weapon, WeaponDrop, WeaponInstance, WeaponSlot};
use tileshot::SCALE;

fn pistol() -> Weapon {
    Weapon {
        damage: 5 * SCALE,
        penetration: 0,
        bullet_speed: 400 * SCALE,
        bullet_type: BulletType::Standard,
        bounciness: false,
        slot: WeaponSlot::Holster,
    }
}

fn rifle() -> Weapon {
    Weapon { slot: WeaponSlot::Sling, ..pistol() }
}

#[test]
fn slots_fill_in_order_and_fall_back() {
    let mut w = WepSlots::default();
    assert_eq!(w.active, ActiveSlot::Knife);
    assert!(w.slot_has_weapon(ActiveSlot::Knife));
    assert!(!w.slot_has_weapon(ActiveSlot::Holster));

    let displaced = w.add_weapon(WeaponInstance { weapon: pistol() });
    assert!(displaced.is_none());
    assert!(w.holster.is_some());

    let displaced = w.add_weapon(WeaponInstance { weapon: rifle() });
    assert!(displaced.is_none());
    assert!(w.sling.is_some());

    w.init_active();
    assert_eq!(w.active, ActiveSlot::Holster);

    w.switch(ActiveSlot::Sling);
    assert_eq!(w.active, ActiveSlot::Sling);
    // Switching to an empty slot does nothing.
    w.switch(ActiveSlot::Holster2);
    assert_eq!(w.active, ActiveSlot::Sling);

    let taken = w.take_active();
    assert!(taken.is_some());
    assert!(w.sling.is_none());
    // The active slot falls back to the holster below.
    assert_eq!(w.active, ActiveSlot::Holster);

    let taken = w.take_active();
    assert!(taken.is_some());
    assert_eq!(w.active, ActiveSlot::Knife);
    assert!(w.take_active().is_none());
}

#[test]
fn second_holster_weapon_goes_to_holster2() {
    let mut w = WepSlots::default();
    let _ = w.add_weapon(WeaponInstance { weapon: pistol() });
    let _ = w.add_weapon(WeaponInstance { weapon: pistol() });
    assert!(w.holster.is_some());
    assert!(w.holster2.is_some());
    assert_eq!(w.carried().len(), 2);
}

#[test]
fn player_builders() {
    let p = Player::from_point(Point2::new(7, 9));
    assert_eq!(p.obj.pos, Point2::new(7, 9));
    assert_eq!(p.health.hp, 100 * SCALE);
    let p = p.with_health(Health::new(50 * SCALE));
    assert_eq!(p.health.hp, 50 * SCALE);
    let mut slots = WepSlots::default();
    let _ = slots.add_weapon(WeaponInstance { weapon: pistol() });
    let p = p.with_weapon(slots);
    assert!(p.wep.holster.is_some());
}

#[test]
fn health_damage_saturates_and_reports_death() {
    let mut h = Health::new(SCALE);
    assert!(!h.is_dead());
    h.weapon_damage(2 * SCALE, 0);
    assert_eq!(h.hp, -SCALE);
    assert!(h.is_dead());
}

#[test]
fn weapon_drop_round_trip() {
    let inst = WeaponInstance { weapon: pistol() };
    let drop = inst.into_drop(Point2::new(3, 4));
    assert_eq!(drop.pos, Point2::new(3, 4));
    let back = WeaponInstance::from_drop(WeaponDrop { pos: drop.pos, weapon: drop.weapon });
    assert_eq!(back.weapon, pistol());
}

#[test]
fn object_faces_positive_x_by_default() {
    let o = Object::new(Point2::new(1, 2));
    assert_eq!(o.rot, Vector2 { x: SCALE, y: 0 });
}

#[test]
fn visible_area_has_expected_shape() {
    let g = Grid::new(10, 10);
    let p = Palette::new(vec![(1, SCALE)]);
    let pos = Point2::new(160 * SCALE, 160 * SCALE);
    let facing = Vector2::new(SCALE, 0);
    let v = visible_area(pos, facing, 400 * SCALE, &p, &g);
    // Four corners, possibly the observer, the samples, then the four
    // closing points.
    assert!(v.len() == CONE_SAMPLES + 8 || v.len() == CONE_SAMPLES + 9);
    assert_eq!(v[1], Point2::new(0, 0));
    assert_eq!(v[v.len() - 1], Point2::new(0, 320 * SCALE));
}

#[test]
fn decoration_solidity() {
    let obj = Object::new(Point2::new(0, 0));
    let d = tileshot::decoration::Decoration::new(obj, String::from("decorations/chair1"));
    assert!(!d.is_solid());
    let old = tileshot::decoration::OldDecoration { obj, i: 7 };
    let t = old.renew();
    assert!(t.is_solid());
    let old = tileshot::decoration::OldDecoration { obj, i: 0 };
    assert!(!old.renew().is_solid());
}
