//! The level grid: a flat, row-major array of materials with an explicit
//! width.  Cells are 32 world units (`CELL` subunits) on a side; the height
//! is always derived from the length, never stored.

use vstd::prelude::*;
use crate::material::{Material, material_of_id};
use crate::geom::Point2;

verus! {

/// Side length of a grid cell in subunits: 32 world units.
pub const CELL: i64 = 2097152;

/// The cell index a world coordinate falls in along one axis, saturated to
/// `u16` exactly as coordinates outside the grid saturate.
pub open spec fn cell_coord(c: int) -> int {
    if c < 0 {
        0
    } else if c / (CELL as int) > 65535 {
        65535
    } else {
        c / (CELL as int)
    }
}

/// A rectangular tile grid in row-major order: the material of cell
/// `(x, y)` sits at index `x + y * width`.
#[derive(Clone, Debug)]
pub struct Grid {
    width: u16,
    mats: Vec<Material>,
}

impl Grid {
    /// The stored width, in cells.
    pub closed spec fn spec_width(self) -> int {
        self.width as int
    }

    /// The materials, row-major.
    pub closed spec fn cells(self) -> Seq<Material> {
        self.mats@
    }

    /// The derived height, in cells.
    pub open spec fn spec_height(self) -> int {
        if self.spec_width() == 0 {
            0
        } else {
            self.cells().len() as int / self.spec_width()
        }
    }

    /// Row-major layout invariant: the cell array is exactly
    /// `width * height` long, and the grid fits the `u16` coordinate space.
    pub open spec fn wf(self) -> bool {
        &&& self.cells().len() == self.spec_width() * self.spec_height()
        &&& self.spec_height() <= 65535
        &&& self.spec_width() <= 65535
    }

    /// The material of cell `(x, y)`, or `None` outside the grid.
    pub open spec fn spec_get(self, x: int, y: int) -> Option<Material> {
        if 0 <= x < self.spec_width() && 0 <= y < self.spec_height() {
            Some(self.cells()[x + y * self.spec_width()])
        } else {
            None
        }
    }

    /// Whether cell `(x, y)` blocks movement and shots; cells outside the
    /// grid block (fail-closed).
    pub open spec fn spec_solid(self, x: int, y: int) -> bool {
        match self.spec_get(x, y) {
            Some(m) => m.spec_solid(),
            None => true,
        }
    }

    /// A fresh grid of the given size, all `Grass`.
    pub fn new(width: u16, height: u16) -> (g: Grid)
        ensures
            g.wf(),
            g.spec_width() == width,
            width > 0 ==> g.spec_height() == height,
            width == 0 ==> g.spec_height() == 0,
            forall|x: int, y: int| #[trigger] g.spec_get(x, y) matches Some(m) ==> m == Material::Grass,
    {
        proof {
            assert(0 <= width as int * height as int <= 65535 * 65535) by (nonlinear_arith)
                requires
                    0 <= width as int <= 65535,
                    0 <= height as int <= 65535,
            ;
        }
        let n: usize = (width as usize) * (height as usize);
        let mats: Vec<Material> = vec![Material::Grass; n];
        let g = Grid { width, mats };
        proof {
            if width > 0 {
                assert(g.cells().len() as int == height as int * width as int)
                    by (nonlinear_arith)
                    requires
                        g.cells().len() as int == width as int * height as int,
                ;
                vstd::arithmetic::div_mod::lemma_div_by_multiple(height as int, width as int);
                assert(g.spec_height() == height as int);
                assert(g.cells().len() as int == g.spec_width() * g.spec_height())
                    by (nonlinear_arith)
                    requires
                        g.cells().len() as int == g.spec_width() * height as int,
                        g.spec_height() == height as int,
                ;
            }
            assert forall|x: int, y: int|
                (#[trigger] g.spec_get(x, y)) matches Some(m) ==> m == Material::Grass by {
                if 0 <= x < g.spec_width() && 0 <= y < g.spec_height() {
                    lemma_cell_index_in_range(g.spec_width(), g.spec_height(), x, y);
                }
            }
        }
        g
    }

    /// Rebuild a grid from a stored width and flat material identifiers;
    /// unknown identifiers become the fail-closed `Missing` material.
    /// Returns `None` when the data cannot satisfy the row-major layout
    /// invariant.
    pub fn from_raw(width: u16, ids: &Vec<u8>) -> (r: Option<Grid>)
        ensures
            r matches Some(g) ==> {
                &&& g.wf()
                &&& g.spec_width() == width
                &&& g.cells().len() == ids@.len()
                &&& forall|i: int|
                    0 <= i < ids@.len() ==> #[trigger] g.cells()[i] == material_of_id(ids@[i])
            },
            r is None <==> (width == 0 && ids@.len() > 0) || (width > 0 && (ids@.len() as int
                % width as int != 0 || ids@.len() as int / width as int > 65535)),
    {
        if width == 0 {
            if ids.len() > 0 {
                return None;
            }
            return Some(Grid { width, mats: Vec::new() });
        }
        if ids.len() % (width as usize) != 0 || ids.len() / (width as usize) > 65535 {
            return None;
        }
        let mut mats: Vec<Material> = Vec::new();
        let mut i: usize = 0;
        while i < ids.len()
            invariant
                i <= ids@.len(),
                mats@.len() == i,
                forall|j: int| 0 <= j < i ==> #[trigger] mats@[j] == material_of_id(ids@[j]),
            decreases ids@.len() - i,
        {
            mats.push(Material::from_id(ids[i]));
            i += 1;
        }
        let g = Grid { width, mats };
        proof {
            vstd::arithmetic::div_mod::lemma_fundamental_div_mod(
                ids@.len() as int,
                width as int,
            );
        }
        Some(g)
    }

    /// The flat material identifiers, row-major, for persisting the grid.
    pub fn raw_ids(&self) -> (ids: Vec<u8>)
        ensures
            ids@.len() == self.cells().len(),
            forall|i: int|
                0 <= i < ids@.len() ==> #[trigger] ids@[i] == self.cells()[i].spec_id(),
    {
        let mut ids: Vec<u8> = Vec::new();
        let mut i: usize = 0;
        while i < self.mats.len()
            invariant
                i <= self.cells().len(),
                ids@.len() == i,
                forall|j: int| 0 <= j < i ==> #[trigger] ids@[j] == self.cells()[j].spec_id(),
            decreases self.cells().len() - i,
        {
            ids.push(self.mats[i].id());
            i += 1;
        }
        ids
    }

    #[inline]
    pub fn width(&self) -> (w: u16)
        ensures
            w == self.spec_width(),
    {
        self.width
    }

    pub fn height(&self) -> (h: u16)
        requires
            self.wf(),
        ensures
            h == self.spec_height(),
    {
        if self.width == 0 {
            0
        } else {
            (self.mats.len() / (self.width as usize)) as u16
        }
    }

    /// Add a column of `Grass` at the right edge.  Every existing cell
    /// keeps its material at its `(x, y)` position.
    pub fn widen(&mut self)
        requires
            old(self).wf(),
            old(self).spec_width() < 65535,
        ensures
            final(self).wf(),
            final(self).spec_width() == old(self).spec_width() + 1,
            final(self).spec_height() == old(self).spec_height(),
            forall|x: int, y: int|
                0 <= x < old(self).spec_width() && 0 <= y < old(self).spec_height()
                    ==> #[trigger] final(self).spec_get(x, y) == old(self).spec_get(x, y),
            forall|y: int|
                0 <= y < old(self).spec_height() ==> #[trigger] final(self).spec_get(
                    old(self).spec_width(),
                    y,
                ) == Some(Material::Grass),
    {
        let w: usize = self.width as usize;
        let h: usize = self.height() as usize;
        let total: usize = self.mats.len();
        let ghost old_cells = self.cells();
        let mut mats: Vec<Material> = Vec::new();
        let mut y: usize = 0;
        while y < h
            invariant
                y <= h,
                w == old(self).spec_width(),
                h == old(self).spec_height(),
                old_cells == old(self).cells(),
                old_cells.len() == total == w * h,
                *self == *old(self),
                mats@.len() == y * (w + 1),
                forall|yy: int, xx: int|
                    0 <= yy < y && 0 <= xx <= w ==> #[trigger] mats@[xx + yy * (w + 1)] == (
                    if xx < w {
                        old_cells[xx + yy * w]
                    } else {
                        Material::Grass
                    }),
            decreases h - y,
        {
            let row_base: usize = mats.len();
            let mut x: usize = 0;
            while x < w
                invariant
                    x <= w,
                    y < h,
                    w == old(self).spec_width(),
                    old_cells == old(self).cells(),
                    old_cells.len() == total == w * h,
                    h == old(self).spec_height(),
                    *self == *old(self),
                    row_base == y * (w + 1),
                    mats@.len() == row_base + x,
                    forall|yy: int, xx: int|
                        0 <= yy < y && 0 <= xx <= w ==> #[trigger] mats@[xx + yy * (w + 1)]
                            == (if xx < w {
                            old_cells[xx + yy * w]
                        } else {
                            Material::Grass
                        }),
                    forall|xx: int|
                        0 <= xx < x ==> #[trigger] mats@[row_base + xx] == old_cells[xx + y
                            * w],
                decreases w - x,
            {
                proof {
                    lemma_row_major_bound(x as int, y as int, h as int, w as int);
                }
                let idx: usize = x + y * w;
                let ghost prev = mats@;
                mats.push(self.mats[idx]);
                x += 1;
                proof {
                    assert forall|yy: int, xx: int| 0 <= yy < y && 0 <= xx <= w implies
                        #[trigger] mats@[xx + yy * (w + 1)] == (if xx < w {
                        old_cells[xx + yy * w]
                    } else {
                        Material::Grass
                    }) by {
                        assert(0 <= xx + yy * (w + 1) < y * (w + 1)) by (nonlinear_arith)
                            requires
                                0 <= xx <= w,
                                0 <= yy < y,
                        ;
                        assert(mats@[xx + yy * (w + 1)] == prev[xx + yy * (w + 1)]);
                    }
                }
            }
            let ghost prev = mats@;
            mats.push(Material::Grass);
            y += 1;
            proof {
                assert(y * (w + 1) == row_base + (w + 1)) by (nonlinear_arith)
                    requires
                        row_base == (y - 1) * (w + 1),
                ;
                assert forall|yy: int, xx: int| 0 <= yy < y && 0 <= xx <= w implies #[trigger]
                    mats@[xx + yy * (w + 1)] == (if xx < w {
                    old_cells[xx + yy * w]
                } else {
                    Material::Grass
                }) by {
                    lemma_row_major_bound(xx, yy, y as int, w as int + 1);
                    if yy < y - 1 {
                        assert(0 <= xx + yy * (w + 1) < (y - 1) * (w + 1)) by (nonlinear_arith)
                            requires
                                0 <= xx <= w,
                                0 <= yy < y - 1,
                        ;
                        assert(mats@[xx + yy * (w + 1)] == prev[xx + yy * (w + 1)]);
                    } else {
                        assert(xx + yy * (w + 1) == row_base + xx) by (nonlinear_arith)
                            requires
                                yy == y - 1,
                                row_base == (y - 1) * (w + 1),
                        ;
                    }
                }
            }
        }
        self.mats = mats;
        self.width = self.width + 1;
        proof {
            assert(self.cells().len() == h * (w + 1));
            lemma_grid_shape(w as int + 1, h as int, self.cells().len() as int);
            assert forall|x: int, y: int|
                0 <= x < old(self).spec_width() && 0 <= y < old(self).spec_height()
                    implies #[trigger] self.spec_get(x, y) == old(self).spec_get(x, y) by {
                lemma_row_major_bound(x, y, h as int, w as int);
            }
        }
    }

    /// Remove the rightmost column, unless the grid is at most one cell
    /// wide, in which case nothing changes.  Remaining cells keep their
    /// materials at their `(x, y)` positions.
    pub fn thin(&mut self)
        requires
            old(self).wf(),
        ensures
            final(self).wf(),
            old(self).spec_width() <= 1 ==> *final(self) == *old(self),
            old(self).spec_width() > 1 ==> {
                &&& final(self).spec_width() == old(self).spec_width() - 1
                &&& final(self).spec_height() == old(self).spec_height()
                &&& forall|x: int, y: int|
                    0 <= x < old(self).spec_width() - 1 && 0 <= y < old(self).spec_height()
                        ==> #[trigger] final(self).spec_get(x, y) == old(self).spec_get(x, y)
            },
    {
        if self.width <= 1 {
            return ;
        }
        let w: usize = self.width as usize;
        let h: usize = self.height() as usize;
        let total: usize = self.mats.len();
        let ghost old_cells = self.cells();
        let mut mats: Vec<Material> = Vec::new();
        let mut y: usize = 0;
        while y < h
            invariant
                y <= h,
                w >= 2,
                w == old(self).spec_width(),
                h == old(self).spec_height(),
                old_cells == old(self).cells(),
                old_cells.len() == total == w * h,
                *self == *old(self),
                mats@.len() == y * (w - 1),
                forall|yy: int, xx: int|
                    0 <= yy < y && 0 <= xx < w - 1 ==> #[trigger] mats@[xx + yy * (w - 1)]
                        == old_cells[xx + yy * w],
            decreases h - y,
        {
            let row_base: usize = mats.len();
            let mut x: usize = 0;
            while x < w - 1
                invariant
                    x <= w - 1,
                    y < h,
                    w >= 2,
                    w == old(self).spec_width(),
                    h == old(self).spec_height(),
                    old_cells == old(self).cells(),
                    old_cells.len() == total == w * h,
                    *self == *old(self),
                    row_base == y * (w - 1),
                    mats@.len() == row_base + x,
                    forall|yy: int, xx: int|
                        0 <= yy < y && 0 <= xx < w - 1 ==> #[trigger] mats@[xx + yy * (w - 1)]
                            == old_cells[xx + yy * w],
                    forall|xx: int|
                        0 <= xx < x ==> #[trigger] mats@[row_base + xx] == old_cells[xx + y
                            * w],
                decreases w - 1 - x,
            {
                proof {
                    lemma_row_major_bound(x as int, y as int, h as int, w as int);
                }
                let idx: usize = x + y * w;
                let ghost prev = mats@;
                mats.push(self.mats[idx]);
                x += 1;
                proof {
                    assert forall|yy: int, xx: int| 0 <= yy < y && 0 <= xx < w - 1 implies
                        #[trigger] mats@[xx + yy * (w - 1)] == old_cells[xx + yy * w] by {
                        assert(0 <= xx + yy * (w - 1) < y * (w - 1)) by (nonlinear_arith)
                            requires
                                0 <= xx < w - 1,
                                0 <= yy < y,
                        ;
                        assert(mats@[xx + yy * (w - 1)] == prev[xx + yy * (w - 1)]);
                    }
                }
            }
            let ghost prev = mats@;
            y += 1;
            proof {
                assert(y * (w - 1) == row_base + (w - 1)) by (nonlinear_arith)
                    requires
                        row_base == (y - 1) * (w - 1),
                ;
                assert forall|yy: int, xx: int| 0 <= yy < y && 0 <= xx < w - 1 implies
                    #[trigger] mats@[xx + yy * (w - 1)] == old_cells[xx + yy * w] by {
                    lemma_row_major_bound(xx, yy, y as int, w as int - 1);
                    if yy < y - 1 {
                        assert(0 <= xx + yy * (w - 1) < (y - 1) * (w - 1)) by (nonlinear_arith)
                            requires
                                0 <= xx < w - 1,
                                0 <= yy < y - 1,
                        ;
                        assert(mats@[xx + yy * (w - 1)] == prev[xx + yy * (w - 1)]);
                    } else {
                        assert(xx + yy * (w - 1) == row_base + xx) by (nonlinear_arith)
                            requires
                                yy == y - 1,
                                row_base == (y - 1) * (w - 1),
                        ;
                    }
                }
            }
        }
        self.mats = mats;
        self.width = self.width - 1;
        proof {
            assert(self.cells().len() == h * (w - 1));
            lemma_grid_shape(w as int - 1, h as int, self.cells().len() as int);
            assert forall|x: int, y: int|
                0 <= x < old(self).spec_width() - 1 && 0 <= y < old(self).spec_height()
                    implies #[trigger] self.spec_get(x, y) == old(self).spec_get(x, y) by {
                lemma_row_major_bound(x, y, h as int, w as int);
            }
        }
    }

    /// Append a row of `Grass` at the bottom.  Every existing cell keeps
    /// its material at its `(x, y)` position.
    pub fn heighten(&mut self)
        requires
            old(self).wf(),
            old(self).spec_height() < 65535,
        ensures
            final(self).wf(),
            final(self).spec_width() == old(self).spec_width(),
            old(self).spec_width() > 0 ==> final(self).spec_height() == old(self).spec_height()
                + 1,
            old(self).spec_width() == 0 ==> *final(self) == *old(self),
            forall|x: int, y: int|
                0 <= x < old(self).spec_width() && 0 <= y < old(self).spec_height()
                    ==> #[trigger] final(self).spec_get(x, y) == old(self).spec_get(x, y),
            forall|x: int|
                0 <= x < old(self).spec_width() ==> #[trigger] final(self).spec_get(
                    x,
                    old(self).spec_height(),
                ) == Some(Material::Grass),
    {
        if self.width == 0 {
            return ;
        }
        let w: usize = self.width as usize;
        let h: usize = self.height() as usize;
        let old_len: usize = self.mats.len();
        let ghost old_cells = self.cells();
        let mut x: usize = 0;
        while x < w
            invariant
                x <= w,
                w == old(self).spec_width(),
                h == old(self).spec_height(),
                old_cells == old(self).cells(),
                old_cells.len() == old_len == w * h,
                self.width == old(self).width,
                self.cells().len() == old_len + x,
                self.cells().subrange(0, old_len as int) == old_cells,
                forall|xx: int|
                    0 <= xx < x ==> #[trigger] self.cells()[old_len + xx] == Material::Grass,
            decreases w - x,
        {
            self.mats.push(Material::Grass);
            x += 1;
            proof {
                assert(self.cells().subrange(0, old_len as int) =~= old_cells);
            }
        }
        proof {
            assert(self.cells().len() == w * h + w);
            assert(w * h + w == (h + 1) * w) by (nonlinear_arith);
            lemma_grid_shape(w as int, h as int + 1, self.cells().len() as int);
            assert forall|x: int, y: int|
                0 <= x < old(self).spec_width() && 0 <= y < old(self).spec_height()
                    implies #[trigger] self.spec_get(x, y) == old(self).spec_get(x, y) by {
                lemma_row_major_bound(x, y, h as int, w as int);
                assert(self.cells()[x + y * (w as int)] == self.cells().subrange(
                    0,
                    old_len as int,
                )[x + y * (w as int)]);
            }
            assert forall|x: int| 0 <= x < old(self).spec_width() implies #[trigger] self
                .spec_get(x, h as int) == Some(Material::Grass) by {
                assert(x + (h as int) * (w as int) == old_len + x) by (nonlinear_arith)
                    requires
                        old_len == (w as int) * (h as int),
                ;
            }
        }
    }

    /// Remove the bottom row, unless the grid has at most one row, in
    /// which case nothing changes.  Remaining cells keep their materials
    /// at their `(x, y)` positions.
    pub fn shorten(&mut self)
        requires
            old(self).wf(),
        ensures
            final(self).wf(),
            old(self).spec_height() <= 1 ==> *final(self) == *old(self),
            old(self).spec_height() > 1 ==> {
                &&& final(self).spec_width() == old(self).spec_width()
                &&& final(self).spec_height() == old(self).spec_height() - 1
                &&& forall|x: int, y: int|
                    0 <= x < old(self).spec_width() && 0 <= y < old(self).spec_height() - 1
                        ==> #[trigger] final(self).spec_get(x, y) == old(self).spec_get(x, y)
            },
    {
        if self.width == 0 {
            return ;
        }
        let w: usize = self.width as usize;
        let h: usize = self.height() as usize;
        if h <= 1 {
            return ;
        }
        proof {
            assert(w * h - w == (h - 1) * w) by (nonlinear_arith);
            assert((h - 1) * w >= w) by (nonlinear_arith)
                requires
                    h >= 2,
                    w >= 1,
            ;
        }
        let new_len: usize = self.mats.len() - w;
        self.mats.truncate(new_len);
        proof {
            lemma_grid_shape(w as int, h as int - 1, self.cells().len() as int);
            assert forall|x: int, y: int|
                0 <= x < old(self).spec_width() && 0 <= y < old(self).spec_height() - 1
                    implies #[trigger] self.spec_get(x, y) == old(self).spec_get(x, y) by {
                lemma_row_major_bound(x, y, h as int - 1, w as int);
                lemma_row_major_bound(x, y, h as int, w as int);
            }
        }
    }

    /// The cell coordinates a world point falls in, saturating outside the
    /// `u16` range.
    pub fn snap(c: Point2) -> (r: (u16, u16))
        ensures
            r.0 == cell_coord(c.x as int),
            r.1 == cell_coord(c.y as int),
    {
        Grid::snap_coords(c.x, c.y)
    }

    /// As `snap`, from bare coordinates.
    pub fn snap_coords(x: i64, y: i64) -> (r: (u16, u16))
        ensures
            r.0 == cell_coord(x as int),
            r.1 == cell_coord(y as int),
    {
        let cx: i64 = if x < 0 {
            0
        } else if x / CELL > 65535 {
            65535
        } else {
            x / CELL
        };
        let cy: i64 = if y < 0 {
            0
        } else if y / CELL > 65535 {
            65535
        } else {
            y / CELL
        };
        (cx as u16, cy as u16)
    }

    /// The material of cell `(x, y)`, or `None` outside the grid.
    pub fn get(&self, x: u16, y: u16) -> (m: Option<Material>)
        requires
            self.wf(),
        ensures
            m == self.spec_get(x as int, y as int),
    {
        if x < self.width && (y as usize) < self.mats.len() / (self.width as usize) {
            proof {
                lemma_cell_index_in_range(
                    self.spec_width(),
                    self.spec_height(),
                    x as int,
                    y as int,
                );
            }
            let idx: usize = (x as usize) + (y as usize) * (self.width as usize);
            Some(self.mats[idx])
        } else {
            None
        }
    }

    /// Whether cell `(x, y)` is solid; out-of-bounds cells are solid.
    pub fn is_solid(&self, x: u16, y: u16) -> (s: bool)
        requires
            self.wf(),
        ensures
            s == self.spec_solid(x as int, y as int),
    {
        match self.get(x, y) {
            Some(m) => m.solid(),
            None => true,
        }
    }

    /// Set the material of cell `(x, y)`; writes outside the grid are
    /// ignored.
    pub fn insert(&mut self, x: u16, y: u16, mat: Material)
        requires
            old(self).wf(),
        ensures
            final(self).wf(),
            final(self).spec_width() == old(self).spec_width(),
            final(self).spec_height() == old(self).spec_height(),
            final(self).spec_get(x as int, y as int) == (if old(self).spec_get(
                x as int,
                y as int,
            ) is Some {
                Some(mat)
            } else {
                Option::<Material>::None
            }),
            forall|xx: int, yy: int|
                !(xx == x as int && yy == y as int) ==> #[trigger] final(self).spec_get(xx, yy)
                    == old(self).spec_get(xx, yy),
    {
        let ghost old_self = *self;
        if x < self.width && (y as usize) < self.mats.len() / (self.width as usize) {
            proof {
                lemma_cell_index_in_range(
                    self.spec_width(),
                    self.spec_height(),
                    x as int,
                    y as int,
                );
            }
            let idx: usize = (x as usize) + (y as usize) * (self.width as usize);
            self.mats.set(idx, mat);
            proof {
                assert forall|xx: int, yy: int|
                    !(xx == x as int && yy == y as int) implies #[trigger] self.spec_get(xx, yy)
                    == old_self.spec_get(xx, yy) by {
                    if 0 <= xx < self.spec_width() && 0 <= yy < self.spec_height() {
                        lemma_cell_index_in_range(
                            self.spec_width(),
                            self.spec_height(),
                            xx,
                            yy,
                        );
                        lemma_cell_index_injective(
                            self.spec_width(),
                            x as int,
                            y as int,
                            xx,
                            yy,
                        );
                    }
                }
            }
        }
    }
}

/// Within a `w`-by-`h` grid, the row-major index of a cell is in range.
pub proof fn lemma_cell_index_in_range(w: int, h: int, x: int, y: int)
    requires
        0 <= x < w,
        0 <= y < h,
    ensures
        0 <= x + y * w < w * h,
{
    assert(x + y * w < w * h) by (nonlinear_arith)
        requires
            0 <= x < w,
            0 <= y < h,
    ;
    assert(y * w >= 0) by (nonlinear_arith)
        requires
            y >= 0,
            w > 0,
    ;
}

/// A cell in one of the first `rows` rows of a `w`-wide row-major layout
/// has its index inside those rows.
pub proof fn lemma_row_major_bound(x: int, y: int, rows: int, w: int)
    requires
        0 <= x < w,
        0 <= y < rows,
    ensures
        0 <= x + y * w < rows * w,
        x + y * w < w * rows,
{
    assert(0 <= x + y * w < rows * w && x + y * w < w * rows) by (nonlinear_arith)
        requires
            0 <= x < w,
            0 <= y < rows,
    ;
}

/// A positive-width grid whose cell count is a whole number of rows has
/// the row-major shape invariant: the derived height is that row count.
pub proof fn lemma_grid_shape(w: int, h: int, len: int)
    requires
        w > 0,
        0 <= h,
        len == h * w || len == w * h,
    ensures
        len / w == h,
        len == w * (len / w),
{
    assert(h * w == w * h) by (nonlinear_arith);
    vstd::arithmetic::div_mod::lemma_div_by_multiple(h, w);
    assert((h * w) / w == h);
}

/// Distinct cells of a `w`-wide grid have distinct row-major indices.
pub proof fn lemma_cell_index_injective(w: int, x1: int, y1: int, x2: int, y2: int)
    requires
        0 <= x1 < w,
        0 <= x2 < w,
        0 <= y1,
        0 <= y2,
        !(x1 == x2 && y1 == y2),
    ensures
        x1 + y1 * w != x2 + y2 * w,
{
    assert(x1 + y1 * w != x2 + y2 * w) by (nonlinear_arith)
        requires
            0 <= x1 < w,
            0 <= x2 < w,
            0 <= y1,
            0 <= y2,
            !(x1 == x2 && y1 == y2),
    ;
}

} // verus!
