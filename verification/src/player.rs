//! The player: a positioned object, health, and the weapon slots.

use vstd::prelude::*;
use crate::fixed::SCALE;
use crate::geom::{Point2, Vector2};
use crate::health::Health;
use crate::weapon::{Weapon, WeaponInstance, WeaponSlot};

verus! {

/// A positioned, oriented thing: the shared positional primitive for the
/// player, enemies and bullets.  The facing is kept as a direction vector
/// in fixed point (the model of an angle: the vector it converts to).
#[derive(Clone, Copy, Debug, PartialEq, Eq, Structural)]
pub struct Object {
    pub pos: Point2,
    pub rot: Vector2,
}

impl Object {
    /// A new object at `pos`, facing along positive `x`.
    pub fn new(pos: Point2) -> (o: Object)
        ensures
            o.pos == pos,
            o.rot == (Vector2 { x: SCALE, y: 0 }),
    {
        Object { pos, rot: Vector2 { x: SCALE, y: 0 } }
    }
}

/// Which weapon slot is active.
#[derive(Clone, Copy, Debug, PartialEq, Eq, Structural)]
pub enum ActiveSlot {
    Knife,
    Holster,
    Holster2,
    Sling,
}

/// The slot one below: used to fall back when the active slot empties.
pub open spec fn slot_below(s: ActiveSlot) -> ActiveSlot {
    match s {
        ActiveSlot::Knife => ActiveSlot::Knife,
        ActiveSlot::Holster => ActiveSlot::Knife,
        ActiveSlot::Holster2 => ActiveSlot::Holster,
        ActiveSlot::Sling => ActiveSlot::Holster2,
    }
}

/// A numeric rank for the slots, for termination of the fallback.
pub open spec fn slot_rank(s: ActiveSlot) -> nat {
    match s {
        ActiveSlot::Knife => 0,
        ActiveSlot::Holster => 1,
        ActiveSlot::Holster2 => 2,
        ActiveSlot::Sling => 3,
    }
}

impl ActiveSlot {
    fn subtract(&mut self)
        ensures
            *final(self) == slot_below(*old(self)),
    {
        *self = match *self {
            ActiveSlot::Knife => ActiveSlot::Knife,
            ActiveSlot::Holster => ActiveSlot::Knife,
            ActiveSlot::Holster2 => ActiveSlot::Holster,
            ActiveSlot::Sling => ActiveSlot::Holster2,
        };
    }
}

impl Default for ActiveSlot {
    fn default() -> (s: Self)
        ensures
            s == ActiveSlot::Knife,
    {
        ActiveSlot::Knife
    }
}

/// The player's carried weapons: one active slot, two holsters and a
/// sling.  The knife slot is always armed.
#[derive(Clone, Copy, Debug, PartialEq, Eq, Structural)]
pub struct WepSlots {
    pub active: ActiveSlot,
    pub holster: Option<WeaponInstance>,
    pub holster2: Option<WeaponInstance>,
    pub sling: Option<WeaponInstance>,
}

/// Whether the given slot holds something to wield.
pub open spec fn spec_slot_has_weapon(w: WepSlots, s: ActiveSlot) -> bool {
    match s {
        ActiveSlot::Knife => true,
        ActiveSlot::Holster => w.holster is Some,
        ActiveSlot::Holster2 => w.holster2 is Some,
        ActiveSlot::Sling => w.sling is Some,
    }
}

/// The first slot at or below `s` that holds a weapon (the knife stops
/// the descent).
pub open spec fn spec_fallback(w: WepSlots, s: ActiveSlot) -> ActiveSlot
    decreases slot_rank(s),
{
    if spec_slot_has_weapon(w, s) {
        s
    } else {
        spec_fallback(w, slot_below(s))
    }
}

/// The weapon in the given slot (the knife slot carries none).
pub open spec fn spec_slot_weapon(w: WepSlots, s: ActiveSlot) -> Option<WeaponInstance> {
    match s {
        ActiveSlot::Knife => None,
        ActiveSlot::Holster => w.holster,
        ActiveSlot::Holster2 => w.holster2,
        ActiveSlot::Sling => w.sling,
    }
}

/// The slot a newly picked-up weapon goes to: a holster weapon prefers an
/// empty holster, then the active holster, then the second holster; a
/// sling weapon always goes to the sling.
pub open spec fn spec_insert_slot(w: WepSlots, weapon: Weapon) -> ActiveSlot {
    match weapon.slot {
        WeaponSlot::Holster => {
            if w.holster is None {
                ActiveSlot::Holster
            } else if w.holster2 is None {
                ActiveSlot::Holster2
            } else if w.active == ActiveSlot::Holster {
                ActiveSlot::Holster
            } else {
                ActiveSlot::Holster2
            }
        },
        WeaponSlot::Sling => ActiveSlot::Sling,
    }
}

/// The weapons a `WepSlots` carries, holsters first, then the sling.
pub open spec fn spec_carried(w: WepSlots) -> Seq<WeaponInstance> {
    let s0 = Seq::<WeaponInstance>::empty();
    let s1 = if w.holster is Some {
        s0.push(w.holster->Some_0)
    } else {
        s0
    };
    let s2 = if w.holster2 is Some {
        s1.push(w.holster2->Some_0)
    } else {
        s1
    };
    if w.sling is Some {
        s2.push(w.sling->Some_0)
    } else {
        s2
    }
}

/// `w` with the given slot replaced (the knife slot cannot be written).
pub open spec fn spec_set_slot(w: WepSlots, s: ActiveSlot, v: Option<WeaponInstance>) -> WepSlots {
    match s {
        ActiveSlot::Knife => w,
        ActiveSlot::Holster => WepSlots { holster: v, ..w },
        ActiveSlot::Holster2 => WepSlots { holster2: v, ..w },
        ActiveSlot::Sling => WepSlots { sling: v, ..w },
    }
}

impl WepSlots {
    pub fn slot_has_weapon(&self, new_active: ActiveSlot) -> (b: bool)
        ensures
            b == spec_slot_has_weapon(*self, new_active),
    {
        match new_active {
            ActiveSlot::Knife => true,
            ActiveSlot::Holster => self.holster.is_some(),
            ActiveSlot::Holster2 => self.holster2.is_some(),
            ActiveSlot::Sling => self.sling.is_some(),
        }
    }

    /// Set active to the first filled weapon slot, falling back to the
    /// knife.
    pub fn init_active(&mut self)
        ensures
            final(self).active == (if old(self).holster is Some {
                ActiveSlot::Holster
            } else if old(self).holster2 is Some {
                ActiveSlot::Holster2
            } else if old(self).sling is Some {
                ActiveSlot::Sling
            } else {
                ActiveSlot::Knife
            }),
            final(self).holster == old(self).holster,
            final(self).holster2 == old(self).holster2,
            final(self).sling == old(self).sling,
    {
        self.active = if self.holster.is_some() {
            ActiveSlot::Holster
        } else if self.holster2.is_some() {
            ActiveSlot::Holster2
        } else if self.sling.is_some() {
            ActiveSlot::Sling
        } else {
            ActiveSlot::Knife
        };
    }

    /// Switch to a slot, but only if it holds something to wield.
    pub fn switch(&mut self, new_active: ActiveSlot)
        ensures
            final(self).active == (if spec_slot_has_weapon(*old(self), new_active) {
                new_active
            } else {
                old(self).active
            }),
            final(self).holster == old(self).holster,
            final(self).holster2 == old(self).holster2,
            final(self).sling == old(self).sling,
    {
        if self.slot_has_weapon(new_active) {
            self.active = new_active;
        }
    }

    /// Take the active weapon out, emptying its slot; the active slot
    /// falls back to the first armed slot below it.
    #[must_use]
    pub fn take_active(&mut self) -> (wep: Option<WeaponInstance>)
        ensures
            wep == spec_slot_weapon(*old(self), old(self).active),
            *final(self) == ({
                let emptied = spec_set_slot(*old(self), old(self).active, None);
                WepSlots { active: spec_fallback(emptied, emptied.active), ..emptied }
            }),
    {
        let wep = match self.active {
            ActiveSlot::Knife => None,
            ActiveSlot::Holster => {
                let w = self.holster;
                self.holster = None;
                w
            },
            ActiveSlot::Holster2 => {
                let w = self.holster2;
                self.holster2 = None;
                w
            },
            ActiveSlot::Sling => {
                let w = self.sling;
                self.sling = None;
                w
            },
        };
        let ghost emptied = *self;
        while !self.slot_has_weapon(self.active)
            invariant
                self.holster == emptied.holster,
                self.holster2 == emptied.holster2,
                self.sling == emptied.sling,
                spec_fallback(emptied, emptied.active) == spec_fallback(emptied, self.active),
            decreases slot_rank(self.active),
        {
            self.active.subtract();
        }
        wep
    }

    /// The active weapon, if the active slot holds one.
    pub fn get_active(&self) -> (w: Option<WeaponInstance>)
        ensures
            w == spec_slot_weapon(*self, self.active),
    {
        match self.active {
            ActiveSlot::Knife => None,
            ActiveSlot::Holster => self.holster,
            ActiveSlot::Holster2 => self.holster2,
            ActiveSlot::Sling => self.sling,
        }
    }

    /// A mutable borrow of the slot a new weapon would go to.
    #[must_use]
    pub fn insert(&mut self, weapon: &Weapon) -> (s: &mut Option<WeaponInstance>)
        ensures
            *s == spec_slot_weapon(*old(self), spec_insert_slot(*old(self), *weapon)),
            *final(self) == spec_set_slot(
                *old(self),
                spec_insert_slot(*old(self), *weapon),
                *final(s),
            ),
    {
        match weapon.slot {
            WeaponSlot::Holster => {
                if self.holster.is_none() {
                    &mut self.holster
                } else if self.holster2.is_none() {
                    &mut self.holster2
                } else if matches!(self.active, ActiveSlot::Holster) {
                    &mut self.holster
                } else {
                    &mut self.holster2
                }
            },
            WeaponSlot::Sling => &mut self.sling,
        }
    }

    /// Put a weapon in its slot, handing back whatever it displaced.
    #[must_use]
    pub fn add_weapon(&mut self, wep_instance: WeaponInstance) -> (displaced: Option<
        WeaponInstance,
    >)
        ensures
            displaced == spec_slot_weapon(
                *old(self),
                spec_insert_slot(*old(self), wep_instance.weapon),
            ),
            *final(self) == spec_set_slot(
                *old(self),
                spec_insert_slot(*old(self), wep_instance.weapon),
                Some(wep_instance),
            ),
    {
        let slot = self.insert(&wep_instance.weapon);
        let displaced = *slot;
        *slot = Some(wep_instance);
        displaced
    }

    /// The carried weapons, holsters first, then the sling.
    pub fn carried(self) -> (v: Vec<WeaponInstance>)
        ensures
            v@ == spec_carried(self),
    {
        let mut v: Vec<WeaponInstance> = Vec::new();
        if let Some(w) = self.holster {
            v.push(w);
        }
        if let Some(w) = self.holster2 {
            v.push(w);
        }
        if let Some(w) = self.sling {
            v.push(w);
        }
        v
    }
}

impl Default for WepSlots {
    /// Empty slots, knife active.
    fn default() -> (w: Self)
        ensures
            w.active == ActiveSlot::Knife,
            w.holster is None,
            w.holster2 is None,
            w.sling is None,
    {
        WepSlots { active: ActiveSlot::Knife, holster: None, holster2: None, sling: None }
    }
}

/// The player.
#[derive(Clone, Copy, Debug, PartialEq, Eq, Structural)]
pub struct Player {
    pub obj: Object,
    pub wep: WepSlots,
    pub health: Health,
}

impl Player {
    pub fn new(obj: Object) -> (p: Player)
        ensures
            p.obj == obj,
            p.wep == (WepSlots {
                active: ActiveSlot::Knife,
                holster: None,
                holster2: None,
                sling: None,
            }),
            p.health.hp == 100 * SCALE,
    {
        Player { obj, wep: Default::default(), health: Default::default() }
    }

    pub fn from_point(p: Point2) -> (r: Player)
        ensures
            r.obj.pos == p,
            r.obj.rot == (Vector2 { x: SCALE, y: 0 }),
            r.wep == (WepSlots {
                active: ActiveSlot::Knife,
                holster: None,
                holster2: None,
                sling: None,
            }),
            r.health.hp == 100 * SCALE,
    {
        Player::new(Object::new(p))
    }

    pub fn with_health(self, health: Health) -> (r: Player)
        ensures
            r == (Player { health, ..self }),
    {
        Player { health, ..self }
    }

    pub fn with_weapon(self, wep: WepSlots) -> (r: Player)
        ensures
            r == (Player { wep, ..self }),
    {
        Player { wep, ..self }
    }
}

} // verus!
