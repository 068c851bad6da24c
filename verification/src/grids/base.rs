use vstd::prelude::*;
use crate::grids::common::{GridCoords, in_bounds};

verus! {

/// Counter that changes whenever a grid's content changes.
pub type GridVersion = u32;

/// The content of one grid cell; a fresh grid is filled with default fields.
pub trait FieldTrait: Sized {
    spec fn spec_is_default(&self) -> bool;

    fn default_field() -> (r: Self)
        ensures
            r.spec_is_default(),
    ;
}

/// A grid's version marker; a fresh grid starts at the default version.
pub trait GridVersionTrait: Sized {
    spec fn spec_default() -> Self;

    fn default_version() -> (r: Self)
        ensures
            r == Self::spec_default(),
    ;
}

impl GridVersionTrait for u32 {
    open spec fn spec_default() -> u32 {
        0
    }

    fn default_version() -> (r: u32) {
        0
    }
}

impl FieldTrait for bool {
    open spec fn spec_is_default(&self) -> bool {
        !*self
    }

    fn default_field() -> (r: bool) {
        false
    }
}

/// A rectangular grid of fields stored row by row.
pub struct BaseGrid<FieldType: FieldTrait, GridVersionType: GridVersionTrait> {
    pub width: i32,
    pub height: i32,
    pub grid: Vec<FieldType>,
    /// Used to determine whether the grid has changed.
    pub version: GridVersionType,
}

/// Position of cell `c` in the row-by-row storage of a grid `width` cells wide.
pub open spec fn flat_index(c: GridCoords, width: int) -> int {
    c.y * width + c.x
}

/// Cells inside a grid have storage positions inside the grid's storage.
pub proof fn lemma_flat_index_in_range(c: GridCoords, width: int, height: int)
    requires
        in_bounds(c, width, height),
    ensures
        0 <= flat_index(c, width) < width * height,
{
    let x = c.x as int;
    let y = c.y as int;
    assert(0 <= y * width + x < width * height) by (nonlinear_arith)
        requires
            0 <= x < width,
            0 <= y < height,
    ;
}

/// Distinct cells inside a grid have distinct storage positions.
pub proof fn lemma_flat_index_injective(c1: GridCoords, c2: GridCoords, width: int, height: int)
    requires
        in_bounds(c1, width, height),
        in_bounds(c2, width, height),
        flat_index(c1, width) == flat_index(c2, width),
    ensures
        c1 == c2,
{
    let (x1, y1, x2, y2) = (c1.x as int, c1.y as int, c2.x as int, c2.y as int);
    assert(y1 == y2) by (nonlinear_arith)
        requires
            0 <= x1 < width,
            0 <= x2 < width,
            y1 * width + x1 == y2 * width + x2,
    ;
}

/// Every storage position of a grid belongs to a cell inside the grid.
pub proof fn lemma_flat_index_surjective(i: int, width: int, height: int) -> (c: GridCoords)
    requires
        0 <= i < width * height,
        0 <= width <= i32::MAX,
        0 <= height <= i32::MAX,
    ensures
        in_bounds(c, width, height),
        flat_index(c, width) == i,
{
    assert(width > 0) by (nonlinear_arith)
        requires
            0 <= i < width * height,
            0 <= height,
            0 <= width,
    ;
    let x = i % width;
    let y = i / width;
    assert(0 <= x < width && 0 <= y < height && y * width + x == i) by (nonlinear_arith)
        requires
            width > 0,
            0 <= i < width * height,
            x == i % width,
            y == i / width,
    ;
    GridCoords { x: x as i32, y: y as i32 }
}

impl<FieldType: FieldTrait, GridVersionType: GridVersionTrait> BaseGrid<
    FieldType,
    GridVersionType,
> {
    /// Dimensions are non-negative and the storage holds one field per cell.
    pub open spec fn wf(&self) -> bool {
        &&& self.width >= 0
        &&& self.height >= 0
        &&& self.width * self.height <= i32::MAX
        &&& self.grid@.len() == self.width * self.height
    }

    pub open spec fn contains(&self, c: GridCoords) -> bool {
        in_bounds(c, self.width as int, self.height as int)
    }

    /// The field at cell `c`.
    pub open spec fn cell(&self, c: GridCoords) -> FieldType {
        self.grid@[flat_index(c, self.width as int)]
    }

    /// Every cell holds the default field.
    pub open spec fn is_cleared(&self) -> bool {
        forall|i: int| 0 <= i < self.grid@.len() ==> #[trigger] self.grid@[i].spec_is_default()
    }

    fn filled_with_default(n: usize) -> (r: Vec<FieldType>)
        ensures
            r@.len() == n,
            forall|i: int| 0 <= i < n ==> #[trigger] r@[i].spec_is_default(),
    {
        let mut r: Vec<FieldType> = Vec::new();
        let mut k: usize = 0;
        while k < n
            invariant
                k <= n,
                r@.len() == k,
                forall|i: int| 0 <= i < k ==> #[trigger] r@[i].spec_is_default(),
            decreases n - k,
        {
            r.push(FieldType::default_field());
            k = k + 1;
        }
        r
    }

    /// A grid of zero size.
    pub fn new_empty() -> (r: Self)
        ensures
            r.wf(),
            r.width == 0,
            r.height == 0,
            r.grid@.len() == 0,
            r.version == GridVersionType::spec_default(),
    {
        BaseGrid {
            width: 0,
            height: 0,
            grid: Vec::new(),
            version: GridVersionType::default_version(),
        }
    }

    /// A grid of `width` x `height` default fields.
    pub fn new_with_size(width: i32, height: i32) -> (r: Self)
        requires
            0 <= width,
            0 <= height,
            width * height <= i32::MAX,
        ensures
            r.wf(),
            r.width == width,
            r.height == height,
            r.is_cleared(),
            r.version == GridVersionType::spec_default(),
    {
        let n = (width * height) as usize;
        BaseGrid {
            width,
            height,
            grid: Self::filled_with_default(n),
            version: GridVersionType::default_version(),
        }
    }

    /// Changes the dimensions and clears every cell; the version is kept.
    pub fn resize_and_reset(&mut self, width: i32, height: i32)
        requires
            0 <= width,
            0 <= height,
            width * height <= i32::MAX,
        ensures
            final(self).wf(),
            final(self).width == width,
            final(self).height == height,
            final(self).is_cleared(),
            final(self).version == old(self).version,
    {
        self.width = width;
        self.height = height;
        let n = (width * height) as usize;
        self.grid = Self::filled_with_default(n);
    }

    /// Storage position of `coords`, computed without a bounds check.
    pub fn index(&self, coords: GridCoords) -> (r: usize)
        requires
            self.wf(),
            self.contains(coords),
        ensures
            r == flat_index(coords, self.width as int),
            r < self.grid@.len(),
    {
        proof {
            lemma_flat_index_in_range(coords, self.width as int, self.height as int);
            assert(0 <= coords.y * self.width <= self.width * self.height) by (nonlinear_arith)
                requires
                    0 <= coords.y < self.height,
                    0 <= self.width,
            ;
        }
        (coords.y * self.width + coords.x) as usize
    }

    pub fn bounds(&self) -> (r: (i32, i32))
        ensures
            r == (self.width, self.height),
    {
        (self.width, self.height)
    }

    /// The field at `coords`; the cell must lie inside the grid.
    pub fn get(&self, coords: GridCoords) -> (r: &FieldType)
        requires
            self.wf(),
            self.contains(coords),
        ensures
            *r == self.cell(coords),
    {
        let i = self.index(coords);
        &self.grid[i]
    }

    /// Replaces the field at `coords`; the cell must lie inside the grid.
    pub fn set(&mut self, coords: GridCoords, value: FieldType)
        requires
            old(self).wf(),
            old(self).contains(coords),
        ensures
            final(self).wf(),
            final(self).width == old(self).width,
            final(self).height == old(self).height,
            final(self).version == old(self).version,
            final(self).grid@ == old(self).grid@.update(
                flat_index(coords, old(self).width as int),
                value,
            ),
            final(self).cell(coords) == value,
            forall|c: GridCoords|
                old(self).contains(c) && c != coords ==> #[trigger] final(self).cell(c) == old(
                    self,
                ).cell(c),
    {
        let i = self.index(coords);
        self.grid.set(i, value);
        proof {
            assert forall|c: GridCoords|
                old(self).contains(c) && c != coords implies #[trigger] self.cell(c) == old(
                self,
            ).cell(c) by {
                lemma_flat_index_in_range(c, self.width as int, self.height as int);
                if flat_index(c, self.width as int) == flat_index(coords, self.width as int) {
                    lemma_flat_index_injective(c, coords, self.width as int, self.height as int);
                }
            }
        }
    }
}

} // verus!
