//! Weapon definitions: the per-projectile constants the simulator consumes.
//! A `Weapon` value is immutable and small; every bullet carries its own
//! read-only copy.

use vstd::prelude::*;
use crate::fixed::{SCALE, VEL_LIMIT};
use crate::geom::Point2;

verus! {

/// Largest weapon damage value, in fixed-point damage units.
pub const DAMAGE_LIMIT: i64 = 1073741824;

/// The kind of projectile a weapon fires.
#[derive(Clone, Copy, Debug, PartialEq, Eq, Structural)]
pub enum BulletType {
    Standard,
    SawBlade,
    Laser,
}

/// Which carrying slot a weapon occupies.
#[derive(Clone, Copy, Debug, PartialEq, Eq, Structural)]
pub enum WeaponSlot {
    Holster,
    Sling,
}

/// A weapon definition: damage, penetration stat, muzzle speed, projectile
/// kind, whether its projectiles bounce off walls, and its carrying slot.
#[derive(Clone, Copy, Debug, PartialEq, Eq, Structural)]
pub struct Weapon {
    /// Base damage, fixed-point.
    pub damage: i64,
    /// Ability to pass through material, `0` to `SCALE` (= 1.0).
    pub penetration: i64,
    /// Muzzle speed, subunits per second.
    pub bullet_speed: i64,
    pub bullet_type: BulletType,
    /// Whether projectiles reflect off walls instead of stopping.
    pub bounciness: bool,
    pub slot: WeaponSlot,
}

impl Weapon {
    /// The ranges the simulator relies on.
    pub open spec fn wf(self) -> bool {
        &&& 0 <= self.damage <= DAMAGE_LIMIT
        &&& 0 <= self.penetration <= SCALE
        &&& 0 < self.bullet_speed <= VEL_LIMIT
    }
}

/// A weapon as carried: the definition plus per-instance state.
#[derive(Clone, Copy, Debug, PartialEq, Eq, Structural)]
pub struct WeaponInstance {
    pub weapon: Weapon,
}

/// A weapon lying in the world, waiting to be picked up.
#[derive(Clone, Copy, Debug, PartialEq, Eq, Structural)]
pub struct WeaponDrop {
    pub pos: Point2,
    pub weapon: Weapon,
}

impl WeaponInstance {
    /// Take a dropped weapon up.
    pub fn from_drop(drop: WeaponDrop) -> (w: WeaponInstance)
        ensures
            w.weapon == drop.weapon,
    {
        WeaponInstance { weapon: drop.weapon }
    }

    /// Lay the weapon down at a position.
    pub fn into_drop(self, pos: Point2) -> (d: WeaponDrop)
        ensures
            d.weapon == self.weapon,
            d.pos == pos,
    {
        WeaponDrop { pos, weapon: self.weapon }
    }
}

} // verus!
