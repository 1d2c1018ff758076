//! Tile materials and the palette of their physical properties.

use vstd::prelude::*;
use crate::fixed::SCALE;

verus! {

/// A tile material.  Unknown identifiers map to `Missing`, which blocks
/// everything (fail-closed).
#[derive(Clone, Copy, Debug, PartialEq, Eq, Structural)]
pub enum Material {
    Grass,
    Wall,
    Floor,
    Dirt,
    Asphalt,
    Sand,
    Concrete,
    WoodFloor,
    Missing,
}

/// The material a given identifier denotes; identifiers outside the table
/// denote `Missing`.
pub open spec fn material_of_id(id: u8) -> Material {
    if id == 0 {
        Material::Grass
    } else if id == 1 {
        Material::Wall
    } else if id == 2 {
        Material::Floor
    } else if id == 3 {
        Material::Dirt
    } else if id == 4 {
        Material::Asphalt
    } else if id == 5 {
        Material::Sand
    } else if id == 6 {
        Material::Concrete
    } else if id == 7 {
        Material::WoodFloor
    } else {
        Material::Missing
    }
}

impl Material {
    /// Decode a material identifier, coercing unknown ones to `Missing`.
    pub fn from_id(id: u8) -> (m: Material)
        ensures
            m == material_of_id(id),
    {
        match id {
            0 => Material::Grass,
            1 => Material::Wall,
            2 => Material::Floor,
            3 => Material::Dirt,
            4 => Material::Asphalt,
            5 => Material::Sand,
            6 => Material::Concrete,
            7 => Material::WoodFloor,
            _ => Material::Missing,
        }
    }

    /// The identifier of this material.
    pub open spec fn spec_id(self) -> u8 {
        match self {
            Material::Grass => 0,
            Material::Wall => 1,
            Material::Floor => 2,
            Material::Dirt => 3,
            Material::Asphalt => 4,
            Material::Sand => 5,
            Material::Concrete => 6,
            Material::WoodFloor => 7,
            Material::Missing => 255,
        }
    }

    #[verifier::when_used_as_spec(spec_id)]
    pub fn id(self) -> (id: u8)
        ensures
            id == self.spec_id(),
    {
        match self {
            Material::Grass => 0,
            Material::Wall => 1,
            Material::Floor => 2,
            Material::Dirt => 3,
            Material::Asphalt => 4,
            Material::Sand => 5,
            Material::Concrete => 6,
            Material::WoodFloor => 7,
            Material::Missing => 255,
        }
    }

    /// Whether a tile of this material blocks movement and shots.
    pub open spec fn spec_solid(self) -> bool {
        match self {
            Material::Wall => true,
            Material::Concrete => true,
            Material::Missing => true,
            _ => false,
        }
    }

    #[verifier::when_used_as_spec(spec_solid)]
    pub fn solid(self) -> (s: bool)
        ensures
            s == self.spec_solid(),
    {
        match self {
            Material::Wall => true,
            Material::Concrete => true,
            Material::Missing => true,
            _ => false,
        }
    }
}

/// Physical properties of the materials: for each material identifier, a
/// robustness (resistance to penetration) between `0` (penetrated
/// instantly) and `SCALE` (impenetrable), in fixed-point.  Identifiers
/// without an entry fall back to the conservative `SCALE`, matching the
/// fail-closed `Missing` material.  Immutable after construction.
pub struct Palette {
    entries: Vec<(u8, i64)>,
}

impl View for Palette {
    type V = Seq<(u8, i64)>;

    /// A palette is modelled by its table of `(id, robustness)` entries.
    closed spec fn view(&self) -> Seq<(u8, i64)> {
        self.entries@
    }
}

impl Palette {
    /// Whether every entry's robustness lies in `[0, SCALE]`.
    pub open spec fn wf(self) -> bool {
        forall|i: int| 0 <= i < self@.len() ==> 0 <= (#[trigger] self@[i]).1 <= SCALE
    }

    /// The robustness a table of entries gives to a material identifier:
    /// the first entry for that identifier, or `SCALE` when there is none.
    pub open spec fn robustness_of(entries: Seq<(u8, i64)>, id: u8) -> i64
        decreases entries.len(),
    {
        if entries.len() == 0 {
            SCALE
        } else if entries[0].0 == id {
            entries[0].1
        } else {
            Palette::robustness_of(entries.drop_first(), id)
        }
    }

    /// The robustness the palette gives to a material identifier.
    pub open spec fn spec_robustness(self, id: u8) -> i64 {
        Palette::robustness_of(self@, id)
    }

    /// Build a palette from a table of `(material id, robustness)` pairs.
    /// Robustness values are clamped into `[0, SCALE]`.
    pub fn new(table: Vec<(u8, i64)>) -> (p: Palette)
        ensures
            p.wf(),
            p@.len() == table@.len(),
            forall|i: int| 0 <= i < table@.len() ==> (#[trigger] p@[i]).0 == table@[i].0,
    {
        let mut entries: Vec<(u8, i64)> = Vec::new();
        let mut k: usize = 0;
        while k < table.len()
            invariant
                k <= table@.len(),
                entries@.len() == k,
                forall|i: int| 0 <= i < k ==> 0 <= (#[trigger] entries@[i]).1 <= SCALE,
                forall|i: int| 0 <= i < k ==> (#[trigger] entries@[i]).0 == table@[i].0,
            decreases table@.len() - k,
        {
            let (id, r) = table[k];
            let r = if r < 0 {
                0
            } else if r > SCALE {
                SCALE
            } else {
                r
            };
            entries.push((id, r));
            k += 1;
        }
        Palette { entries }
    }

    /// An empty palette: every identifier gets the fail-closed robustness.
    pub fn missing_only() -> (p: Palette)
        ensures
            p.wf(),
            forall|id: u8| p.spec_robustness(id) == SCALE,
    {
        let p = Palette { entries: Vec::new() };
        proof {
            assert(p@.len() == 0);
        }
        p
    }

    /// Look up the robustness for a material identifier.
    pub fn robustness(&self, id: u8) -> (r: i64)
        requires
            self.wf(),
        ensures
            r == self.spec_robustness(id),
            0 <= r <= SCALE,
    {
        let mut k: usize = 0;
        let n = self.entries.len();
        proof {
            assert(self@.skip(0) =~= self@);
        }
        loop
            invariant
                k <= n,
                n == self@.len(),
                self.wf(),
                self@ == self.entries@,
                self.spec_robustness(id) == Palette::robustness_of(self@.skip(k as int), id),
            decreases n - k,
        {
            if k == n {
                proof {
                    assert(self@.skip(k as int).len() == 0);
                }
                return SCALE;
            }
            let (eid, r) = self.entries[k];
            proof {
                assert(self@.skip(k as int)[0] == self@[k as int]);
                assert(self@.skip(k as int).drop_first() =~= self@.skip(k as int + 1));
            }
            if eid == id {
                return r;
            }
            k += 1;
        }
    }

    /// Whether the palette reports a material as solid.
    pub fn solid(&self, m: Material) -> (s: bool)
        ensures
            s == m.spec_solid(),
    {
        m.solid()
    }
}

} // verus!
