//! An enemy: a player-shaped body with an optional carried weapon.

use vstd::prelude::*;
use crate::player::Player;
use crate::weapon::WeaponInstance;

verus! {

/// An enemy combatant.
#[derive(Clone, Copy, Debug, PartialEq, Eq, Structural)]
pub struct Enemy {
    pub pl: Player,
    pub wep: Option<WeaponInstance>,
}

impl Enemy {
    pub fn new(pl: Player) -> (e: Enemy)
        ensures
            e.pl == pl,
            e.wep is None,
    {
        Enemy { pl, wep: None }
    }
}

} // verus!
