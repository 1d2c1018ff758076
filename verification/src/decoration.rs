//! Decorations: sprite props placed in the world.  Only the trashcan
//! blocks movement.

use vstd::prelude::*;
use crate::player::Object;

verus! {

/// A decoration from the legacy list, stored as an index.
#[derive(Clone, Copy, Debug, PartialEq, Eq, Structural)]
pub struct OldDecoration {
    pub obj: Object,
    pub i: usize,
}

/// The sprite name of a legacy decoration index.
pub open spec fn old_decoration_name(i: int) -> Seq<char> {
    if i == 0 {
        "decorations/chair1"@
    } else if i == 1 {
        "decorations/chair2"@
    } else if i == 2 {
        "decorations/chair_boss"@
    } else if i == 3 {
        "decorations/lamp_post"@
    } else if i == 4 {
        "decorations/office_plant"@
    } else if i == 5 {
        "decorations/office_plant2"@
    } else if i == 6 {
        "decorations/office_plant3"@
    } else if i == 7 {
        "decorations/trashcan"@
    } else if i == 8 {
        "decorations/manhole_cover"@
    } else if i == 9 {
        "decorations/manhole_cover2"@
    } else if i == 10 {
        "decorations/desk_lamp"@
    } else if i == 11 {
        "decorations/wall_light"@
    } else if i == 12 {
        "decorations/wall_light2"@
    } else if i == 13 {
        "decorations/wall_light3"@
    } else {
        "decorations/road_mark"@
    }
}

impl OldDecoration {
    /// Convert the legacy index form into a named decoration.
    pub fn renew(self) -> (d: Decoration)
        requires
            self.i < 15,
        ensures
            d.obj == self.obj,
            d.spr@ == old_decoration_name(self.i as int),
    {
        let spr: String = if self.i == 0 {
            "decorations/chair1".to_owned()
        } else if self.i == 1 {
            "decorations/chair2".to_owned()
        } else if self.i == 2 {
            "decorations/chair_boss".to_owned()
        } else if self.i == 3 {
            "decorations/lamp_post".to_owned()
        } else if self.i == 4 {
            "decorations/office_plant".to_owned()
        } else if self.i == 5 {
            "decorations/office_plant2".to_owned()
        } else if self.i == 6 {
            "decorations/office_plant3".to_owned()
        } else if self.i == 7 {
            "decorations/trashcan".to_owned()
        } else if self.i == 8 {
            "decorations/manhole_cover".to_owned()
        } else if self.i == 9 {
            "decorations/manhole_cover2".to_owned()
        } else if self.i == 10 {
            "decorations/desk_lamp".to_owned()
        } else if self.i == 11 {
            "decorations/wall_light".to_owned()
        } else if self.i == 12 {
            "decorations/wall_light2".to_owned()
        } else if self.i == 13 {
            "decorations/wall_light3".to_owned()
        } else {
            "decorations/road_mark".to_owned()
        };
        Decoration { obj: self.obj, spr }
    }
}

/// A named decoration.
#[derive(Clone, Debug)]
pub struct Decoration {
    pub obj: Object,
    pub spr: String,
}

impl Decoration {
    pub fn new(obj: Object, spr: String) -> (d: Decoration)
        ensures
            d.obj == obj,
            d.spr@ == spr@,
    {
        Decoration { obj, spr }
    }

    /// Whether this decoration blocks movement: only the trashcan does.
    pub fn is_solid(&self) -> (s: bool)
        ensures
            s == (self.spr@ == "decorations/trashcan"@),
    {
        let trashcan: String = "decorations/trashcan".to_owned();
        self.spr == trashcan
    }
}

} // verus!
