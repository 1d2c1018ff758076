//! A minimal health component: the single operation this engine performs
//! on one is applying weapon damage.  Armour modelling is a collaborator's
//! concern, so the penetration statistic is accepted but does not change
//! the amount here.

use vstd::prelude::*;

verus! {

/// Largest health magnitude, in fixed-point health units.
pub const HP_LIMIT: i64 = 1099511627776;

/// Hit points, fixed-point.  Zero or less means dead.
#[derive(Clone, Copy, Debug, PartialEq, Eq, Structural)]
pub struct Health {
    pub hp: i64,
}

impl Health {
    pub open spec fn wf(self) -> bool {
        -HP_LIMIT <= self.hp <= HP_LIMIT
    }

    pub fn new(hp: i64) -> (h: Health)
        requires
            -HP_LIMIT <= hp <= HP_LIMIT,
        ensures
            h.hp == hp,
            h.wf(),
    {
        Health { hp }
    }

    /// Apply weapon damage: hit points drop by the amount, saturating at
    /// the lowest representable health.
    pub fn weapon_damage(&mut self, amount: i64, penetration: i64)
        requires
            old(self).wf(),
            0 <= amount <= HP_LIMIT,
        ensures
            final(self).hp == (if old(self).hp - amount < -HP_LIMIT {
                -HP_LIMIT
            } else {
                old(self).hp - amount
            }),
            final(self).wf(),
    {
        let next = self.hp - amount;
        self.hp = if next < -HP_LIMIT {
            -HP_LIMIT
        } else {
            next
        };
    }

    /// Whether the health is exhausted.
    pub fn is_dead(&self) -> (d: bool)
        ensures
            d == (self.hp <= 0),
    {
        self.hp <= 0
    }
}

impl Default for Health {
    /// Full default health: 100 health units.
    fn default() -> (h: Health)
        ensures
            h.hp == 100 * crate::fixed::SCALE,
            h.wf(),
    {
        Health { hp: 100 * crate::fixed::SCALE }
    }
}

} // verus!
