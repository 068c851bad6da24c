use vstd::prelude::*;
use crate::common::Entity;
use crate::buildings::common_components::BuildingType;
use crate::grids::base::{BaseGrid, FieldTrait, GridVersion, flat_index, lemma_flat_index_in_range};
use crate::grids::common::{
    GridCoords, GridImprint, imprint_covers, imprint_fits_i32, imprint_in_bounds, imprint_prefix_writes,
    imprint_positions_distinct, imprint_storage_ok, imprint_writes, lemma_imprint_in_bounds_storage, lemma_prefix_writes_all,
    lemma_prefix_writes_row, lemma_prefix_writes_step, offset_storage_ok, rect_prefix_covers, storage_pos,
};

verus! {

/// What occupies a cell of the obstacle grid.
#[derive(Clone, Copy, Debug, PartialEq, Eq, Structural)]
pub enum Field {
    Empty,
    Building(Entity, BuildingType, BelowField),
    Wall(Entity),
    DarkOre(Entity),
    QuantumField(Entity),
}

impl FieldTrait for Field {
    open spec fn spec_is_default(&self) -> bool {
        *self is Empty
    }

    fn default_field() -> (r: Field) {
        Field::Empty
    }
}

/// A natural obstacle: a wall, dark ore, a mining complex standing on dark ore, or a quantum field.
pub open spec fn spec_is_natural_obstacle(f: Field) -> bool {
    match f {
        Field::Wall(_) | Field::DarkOre(_) | Field::QuantumField(_) => true,
        Field::Building(_, bt, below) => bt is MiningComplex && below is DarkOre,
        Field::Empty => false,
    }
}

impl Field {
    pub fn is_empty(&self) -> (r: bool)
        ensures
            r == (*self is Empty),
    {
        match self {
            Field::Empty => true,
            _ => false,
        }
    }

    pub fn is_building(&self) -> (r: bool)
        ensures
            r == (*self is Building),
    {
        match self {
            Field::Building(..) => true,
            _ => false,
        }
    }

    pub fn is_wall(&self) -> (r: bool)
        ensures
            r == (*self is Wall),
    {
        match self {
            Field::Wall(_) => true,
            _ => false,
        }
    }

    pub fn is_dark_ore(&self) -> (r: bool)
        ensures
            r == (*self is DarkOre),
    {
        match self {
            Field::DarkOre(_) => true,
            _ => false,
        }
    }

    /// Walls and buildings.
    pub fn is_high_obstacle(&self) -> (r: bool)
        ensures
            r == (*self is Wall || *self is Building),
    {
        match self {
            Field::Wall(_) | Field::Building(..) => true,
            _ => false,
        }
    }

    pub fn is_natural_obstacle(&self) -> (r: bool)
        ensures
            r == spec_is_natural_obstacle(*self),
    {
        match self {
            Field::Wall(_) | Field::DarkOre(_) | Field::QuantumField(_) => true,
            Field::Building(_, BuildingType::MiningComplex, BelowField::DarkOre(_)) => true,
            _ => false,
        }
    }
}

/// What lies under a building that stands on a natural resource.
#[derive(Clone, Copy, Debug, PartialEq, Eq, Structural)]
pub enum BelowField {
    Empty,
    DarkOre(Entity),
}

impl BelowField {
    pub fn is_empty(&self) -> (r: bool)
        ensures
            r == (*self is Empty),
    {
        match self {
            BelowField::Empty => true,
            _ => false,
        }
    }
}

impl Default for BelowField {
    fn default() -> (r: Self)
        ensures
            r is Empty,
    {
        BelowField::Empty
    }
}

/// The grid of obstacles: buildings, walls, dark ore and quantum fields.
pub type ObstacleGrid = BaseGrid<Field, GridVersion>;

/// What a mining complex keeps of the field it is placed on.
pub open spec fn below_field_of(f: Field) -> BelowField {
    match f {
        Field::DarkOre(e) => BelowField::DarkOre(e),
        _ => BelowField::Empty,
    }
}

/// A field that carries a mining complex.
pub open spec fn is_mining_complex_field(f: Field) -> bool {
    match f {
        Field::Building(_, bt, _) => bt is MiningComplex,
        _ => false,
    }
}

impl BaseGrid<Field, GridVersion> {
    /// Writes `field` into every storage position that `imprint` at `coords` writes.
    fn fill_imprint(&mut self, coords: GridCoords, imprint: GridImprint, field: Field)
        requires
            old(self).wf(),
            imprint_storage_ok(imprint, coords, old(self).width as int, old(self).grid@.len() as int),
        ensures
            final(self).wf(),
            final(self).width == old(self).width,
            final(self).height == old(self).height,
            final(self).version == old(self).version,
            forall|i: int|
                0 <= i < old(self).grid@.len() ==> #[trigger] final(self).grid@[i] == if imprint_writes(
                    imprint,
                    coords,
                    old(self).width as int,
                    i,
                ) {
                    field
                } else {
                    old(self).grid@[i]
                },
    {
        let ghost old_grid = *old(self);
        match imprint {
            GridImprint::Rectangle { width, height } => {
                if width <= 0 || height <= 0 {
                    return ;
                }
                let mut y: i32 = 0;
                while y < height
                    invariant
                        0 < width,
                        0 <= y <= height,
                        imprint == (GridImprint::Rectangle { width, height }),
                        imprint_storage_ok(
                            imprint,
                            coords,
                            old_grid.width as int,
                            old_grid.grid@.len() as int,
                        ),
                        self.wf(),
                        old_grid.wf(),
                        self.width == old_grid.width,
                        self.height == old_grid.height,
                        self.version == old_grid.version,
                        forall|i: int|
                            0 <= i < old_grid.grid@.len() ==> #[trigger] self.grid@[i]
                                == if imprint_prefix_writes(
                                coords,
                                old_grid.width as int,
                                width as int,
                                y as int,
                                0,
                                i,
                            ) {
                                field
                            } else {
                                old_grid.grid@[i]
                            },
                    decreases height - y,
                {
                    let mut x: i32 = 0;
                    while x < width
                        invariant
                            0 < width,
                            0 <= y < height,
                            0 <= x <= width,
                            imprint == (GridImprint::Rectangle { width, height }),
                            imprint_storage_ok(
                                imprint,
                                coords,
                                old_grid.width as int,
                                old_grid.grid@.len() as int,
                            ),
                            self.wf(),
                            old_grid.wf(),
                        old_grid.wf(),
                            self.width == old_grid.width,
                            self.height == old_grid.height,
                            self.version == old_grid.version,
                            forall|i: int|
                                0 <= i < old_grid.grid@.len() ==> #[trigger] self.grid@[i]
                                    == if imprint_prefix_writes(
                                    coords,
                                    old_grid.width as int,
                                    width as int,
                                    y as int,
                                    x as int,
                                    i,
                                ) {
                                    field
                                } else {
                                    old_grid.grid@[i]
                                },
                        decreases width - x,
                    {
                        proof {
                            assert(offset_storage_ok(
                                coords,
                                old_grid.width as int,
                                old_grid.grid@.len() as int,
                                x as int,
                                y as int,
                            ));
                            assert(storage_pos(coords, old_grid.width as int, x as int, y as int)
                                == (coords.y + y) * self.width + (coords.x + x));
                        }
                        let idx = ((coords.y + y) * self.width + (coords.x + x)) as usize;
                        self.grid.set(idx, field);
                        proof {
                            assert forall|i: int| 0 <= i < old_grid.grid@.len() implies #[trigger] self.grid@[i]
                                == if imprint_prefix_writes(
                                coords,
                                old_grid.width as int,
                                width as int,
                                y as int,
                                x + 1,
                                i,
                            ) {
                                field
                            } else {
                                old_grid.grid@[i]
                            } by {
                                lemma_prefix_writes_step(
                                    coords,
                                    old_grid.width as int,
                                    width as int,
                                    y as int,
                                    x as int,
                                    i,
                                );
                            }
                        }
                        x = x + 1;
                    }
                    proof {
                        assert forall|i: int| 0 <= i < old_grid.grid@.len() implies #[trigger] self.grid@[i]
                            == if imprint_prefix_writes(
                            coords,
                            old_grid.width as int,
                            width as int,
                            y + 1,
                            0,
                            i,
                        ) {
                            field
                        } else {
                            old_grid.grid@[i]
                        } by {
                            lemma_prefix_writes_row(coords, old_grid.width as int, width as int, y as int, i);
                        }
                    }
                    y = y + 1;
                }
                proof {
                    assert forall|i: int| 0 <= i < old_grid.grid@.len() implies #[trigger] self.grid@[i]
                        == if imprint_writes(imprint, coords, old_grid.width as int, i) {
                        field
                    } else {
                        old_grid.grid@[i]
                    } by {
                        lemma_prefix_writes_all(coords, old_grid.width as int, width, height, i);
                    }
                }
            },
        }
    }

    /// Places `field` on every storage position that `imprint` at `coords` writes and bumps
    /// the version. Storage is row by row, so a part of the imprint that reaches past the end
    /// of a row lands on the following row. A mining complex must be placed with
    /// `imprint_mining_complex`.
    pub fn imprint(&mut self, coords: GridCoords, field: Field, imprint: GridImprint)
        requires
            old(self).wf(),
            imprint_storage_ok(imprint, coords, old(self).width as int, old(self).grid@.len() as int),
            !is_mining_complex_field(field),
        ensures
            final(self).wf(),
            final(self).width == old(self).width,
            final(self).height == old(self).height,
            final(self).version == old(self).version.wrapping_add(1),
            forall|i: int|
                0 <= i < old(self).grid@.len() ==> #[trigger] final(self).grid@[i] == if imprint_writes(
                    imprint,
                    coords,
                    old(self).width as int,
                    i,
                ) {
                    field
                } else {
                    old(self).grid@[i]
                },
            imprint_in_bounds(imprint, coords, old(self).width as int, old(self).height as int)
                ==> forall|c: GridCoords|
                old(self).contains(c) ==> #[trigger] final(self).cell(c) == if imprint_covers(
                    imprint,
                    coords,
                    c,
                ) {
                    field
                } else {
                    old(self).cell(c)
                },
    {
        self.fill_imprint(coords, imprint, field);
        self.version = self.version.wrapping_add(1);
        proof {
            lemma_cells_follow_storage(*old(self), *self, imprint, coords);
            if imprint_in_bounds(imprint, coords, old(self).width as int, old(self).height as int) {
                assert forall|c: GridCoords| old(self).contains(c) implies #[trigger] self.cell(c)
                    == if imprint_covers(imprint, coords, c) {
                    field
                } else {
                    old(self).cell(c)
                } by {
                    lemma_flat_index_in_range(c, old(self).width as int, old(self).height as int);
                }
            }
        }
    }

    /// Clears every storage position that `imprint` at `coords` writes and bumps the version.
    pub fn deprint(&mut self, coords: GridCoords, imprint: GridImprint)
        requires
            old(self).wf(),
            imprint_storage_ok(imprint, coords, old(self).width as int, old(self).grid@.len() as int),
        ensures
            final(self).wf(),
            final(self).width == old(self).width,
            final(self).height == old(self).height,
            final(self).version == old(self).version.wrapping_add(1),
            forall|i: int|
                0 <= i < old(self).grid@.len() ==> #[trigger] final(self).grid@[i] == if imprint_writes(
                    imprint,
                    coords,
                    old(self).width as int,
                    i,
                ) {
                    Field::Empty
                } else {
                    old(self).grid@[i]
                },
            imprint_in_bounds(imprint, coords, old(self).width as int, old(self).height as int)
                ==> forall|c: GridCoords|
                old(self).contains(c) ==> #[trigger] final(self).cell(c) == if imprint_covers(
                    imprint,
                    coords,
                    c,
                ) {
                    Field::Empty
                } else {
                    old(self).cell(c)
                },
    {
        self.fill_imprint(coords, imprint, Field::Empty);
        self.version = self.version.wrapping_add(1);
        proof {
            lemma_cells_follow_storage(*old(self), *self, imprint, coords);
            if imprint_in_bounds(imprint, coords, old(self).width as int, old(self).height as int) {
                assert forall|c: GridCoords| old(self).contains(c) implies #[trigger] self.cell(c)
                    == if imprint_covers(imprint, coords, c) {
                    Field::Empty
                } else {
                    old(self).cell(c)
                } by {
                    lemma_flat_index_in_range(c, old(self).width as int, old(self).height as int);
                }
            }
        }
    }
}

/// Whether the cell at offset `(dx, dy)` from `coords` can be named and located within `i32`
/// on a grid `width` cells wide, with its storage position among the `len` stored ones.
fn offset_fits(coords: GridCoords, width: i32, len: usize, dx: i32, dy: i32) -> (r: bool)
    requires
        len <= i32::MAX,
    ensures
        r == offset_storage_ok(coords, width as int, len as int, dx as int, dy as int),
{
    let x = coords.x as i128 + dx as i128;
    let y = coords.y as i128 + dy as i128;
    proof {
        assert(-0x1_0000_0000 * 0x8000_0000 <= y * width <= 0x1_0000_0000 * 0x8000_0000) by (nonlinear_arith)
            requires
                -0x1_0000_0000 <= y <= 0x1_0000_0000,
                i32::MIN <= width <= i32::MAX,
        ;
    }
    let row_start = y * width as i128;
    let pos = row_start + x;
    x <= i32::MAX as i128 && y <= i32::MAX as i128 && i32::MIN as i128 <= row_start && row_start
        <= i32::MAX as i128 && 0 <= pos && pos < len as i128
}

/// For an imprint inside the grid, a storage position of a cell inside the grid is written
/// exactly when the imprint covers that cell.
proof fn lemma_cells_follow_storage(
    before: ObstacleGrid,
    after: ObstacleGrid,
    imprint: GridImprint,
    coords: GridCoords,
)
    requires
        before.wf(),
    ensures
        imprint_in_bounds(imprint, coords, before.width as int, before.height as int) ==> forall|
            c: GridCoords,
        |
            before.contains(c) ==> (#[trigger] imprint_writes(
                imprint,
                coords,
                before.width as int,
                flat_index(c, before.width as int),
            ) <==> imprint_covers(imprint, coords, c)),
{
    if imprint_in_bounds(imprint, coords, before.width as int, before.height as int) {
        lemma_imprint_in_bounds_storage(imprint, coords, before.width as int, before.height as int);
    }
}

impl BaseGrid<Field, GridVersion> {
    /// Whether `imprint` at `coords` can be placed: every storage position it writes is
    /// stored, and every position can be computed within `i32`.
    pub fn imprint_fits_storage(&self, coords: GridCoords, imprint: GridImprint) -> (r: bool)
        requires
            self.wf(),
        ensures
            r == imprint_storage_ok(imprint, coords, self.width as int, self.grid@.len() as int),
    {
        match imprint {
            GridImprint::Rectangle { width, height } => {
                if width <= 0 || height <= 0 {
                    return true;
                }
                let len = self.grid.len();
                let r = offset_fits(coords, self.width, len, 0, 0) && offset_fits(
                    coords,
                    self.width,
                    len,
                    width - 1,
                    height - 1,
                );
                proof {
                    let w = self.width as int;
                    if r {
                        assert forall|dx: int, dy: int|
                            0 <= dx < width && 0 <= dy < height implies #[trigger] offset_storage_ok(
                            coords,
                            w,
                            len as int,
                            dx,
                            dy,
                        ) by {
                            let (y0, y1) = (coords.y as int, coords.y + height - 1);
                            assert(y0 * w <= (y0 + dy) * w <= y1 * w) by (nonlinear_arith)
                                requires
                                    0 <= dy <= height - 1,
                                    y1 == y0 + height - 1,
                                    w >= 0,
                            ;
                        }
                    }
                }
                r
            },
        }
    }

    /// Moves an object: clears its imprint at `old_coords`, then places `field` at `new_coords`.
    pub fn reprint(
        &mut self,
        old_coords: GridCoords,
        new_coords: GridCoords,
        field: Field,
        imprint: GridImprint,
    )
        requires
            old(self).wf(),
            imprint_storage_ok(
                imprint,
                old_coords,
                old(self).width as int,
                old(self).grid@.len() as int,
            ),
            imprint_storage_ok(
                imprint,
                new_coords,
                old(self).width as int,
                old(self).grid@.len() as int,
            ),
            !is_mining_complex_field(field),
        ensures
            final(self).wf(),
            final(self).width == old(self).width,
            final(self).height == old(self).height,
            final(self).version == old(self).version.wrapping_add(1).wrapping_add(1),
            forall|i: int|
                0 <= i < old(self).grid@.len() ==> #[trigger] final(self).grid@[i] == if imprint_writes(
                    imprint,
                    new_coords,
                    old(self).width as int,
                    i,
                ) {
                    field
                } else if imprint_writes(imprint, old_coords, old(self).width as int, i) {
                    Field::Empty
                } else {
                    old(self).grid@[i]
                },
            imprint_in_bounds(imprint, old_coords, old(self).width as int, old(self).height as int)
                && imprint_in_bounds(
                imprint,
                new_coords,
                old(self).width as int,
                old(self).height as int,
            ) ==> forall|c: GridCoords|
                old(self).contains(c) ==> #[trigger] final(self).cell(c) == if imprint_covers(
                    imprint,
                    new_coords,
                    c,
                ) {
                    field
                } else if imprint_covers(imprint, old_coords, c) {
                    Field::Empty
                } else {
                    old(self).cell(c)
                },
    {
        self.deprint(old_coords, imprint);
        let ghost cleared = *self;
        self.imprint(new_coords, field, imprint);
        proof {
            assert forall|i: int| 0 <= i < old(self).grid@.len() implies #[trigger] self.grid@[i]
                == if imprint_writes(imprint, new_coords, old(self).width as int, i) {
                field
            } else if imprint_writes(imprint, old_coords, old(self).width as int, i) {
                Field::Empty
            } else {
                old(self).grid@[i]
            } by {
                assert(cleared.grid@[i] == if imprint_writes(
                    imprint,
                    old_coords,
                    old(self).width as int,
                    i,
                ) {
                    Field::Empty
                } else {
                    old(self).grid@[i]
                });
            }
            if imprint_in_bounds(imprint, old_coords, old(self).width as int, old(self).height as int)
                && imprint_in_bounds(
                imprint,
                new_coords,
                old(self).width as int,
                old(self).height as int,
            ) {
                assert forall|c: GridCoords| old(self).contains(c) implies #[trigger] self.cell(c)
                    == if imprint_covers(imprint, new_coords, c) {
                    field
                } else if imprint_covers(imprint, old_coords, c) {
                    Field::Empty
                } else {
                    old(self).cell(c)
                } by {
                    assert(cleared.contains(c));
                }
            }
        }
    }

    /// Whether `query` holds for every covered cell inside the grid; covered cells outside
    /// the grid are not asked.
    pub fn imprint_query_all<Q: Fn(&Field) -> bool>(
        &self,
        coords: GridCoords,
        imprint: GridImprint,
        query: Q,
    ) -> (r: bool)
        requires
            self.wf(),
            imprint_fits_i32(imprint, coords),
            forall|f: &Field| #[trigger] query.requires((f,)),
        ensures
            r ==> forall|c: GridCoords|
                imprint_covers(imprint, coords, c) && self.contains(c) ==> query.ensures(
                    (&self.cell(c),),
                    true,
                ),
            !r ==> exists|c: GridCoords|
                imprint_covers(imprint, coords, c) && self.contains(c) && query.ensures(
                    (&self.cell(c),),
                    false,
                ),
    {
        match imprint {
            GridImprint::Rectangle { width, height } => {
                let mut y: i32 = 0;
                while y < height
                    invariant
                        imprint == (GridImprint::Rectangle { width, height }),
                        imprint_fits_i32(imprint, coords),
                        0 <= y,
                        y == 0 || y <= height,
                        self.wf(),
                        forall|f: &Field| #[trigger] query.requires((f,)),
                        forall|c: GridCoords|
                            rect_prefix_covers(coords, width as int, y as int, 0, c)
                                && self.contains(c) ==> query.ensures((&self.cell(c),), true),
                    decreases height - y,
                {
                    let mut x: i32 = 0;
                    while x < width
                        invariant
                            imprint == (GridImprint::Rectangle { width, height }),
                            imprint_fits_i32(imprint, coords),
                            0 <= y < height,
                            0 <= x,
                            x == 0 || x <= width,
                            self.wf(),
                            forall|f: &Field| #[trigger] query.requires((f,)),
                            forall|c: GridCoords|
                                rect_prefix_covers(coords, width as int, y as int, x as int, c)
                                    && self.contains(c) ==> query.ensures(
                                    (&self.cell(c),),
                                    true,
                                ),
                        decreases width - x,
                    {
                        let inner_coords = coords.shifted((x, y));
                        if inner_coords.is_in_bounds(self.bounds()) {
                            let q = query(self.get(inner_coords));
                            if !q {
                                assert(imprint_covers(imprint, coords, inner_coords) && self.contains(
                                    inner_coords,
                                ) && query.ensures((&self.cell(inner_coords),), false));
                                return false;
                            }
                        }
                        x = x + 1;
                    }
                    y = y + 1;
                }
                true
            },
        }
    }

    /// Whether `query` holds for some covered cell inside the grid.
    pub fn imprint_query_any<Q: Fn(&Field) -> bool>(
        &self,
        coords: GridCoords,
        imprint: GridImprint,
        query: Q,
    ) -> (r: bool)
        requires
            self.wf(),
            imprint_fits_i32(imprint, coords),
            forall|f: &Field| #[trigger] query.requires((f,)),
        ensures
            r ==> exists|c: GridCoords|
                imprint_covers(imprint, coords, c) && self.contains(c) && query.ensures(
                    (&self.cell(c),),
                    true,
                ),
            !r ==> forall|c: GridCoords|
                imprint_covers(imprint, coords, c) && self.contains(c) ==> query.ensures(
                    (&self.cell(c),),
                    false,
                ),
    {
        match imprint {
            GridImprint::Rectangle { width, height } => {
                let mut y: i32 = 0;
                while y < height
                    invariant
                        imprint == (GridImprint::Rectangle { width, height }),
                        imprint_fits_i32(imprint, coords),
                        0 <= y,
                        y == 0 || y <= height,
                        self.wf(),
                        forall|f: &Field| #[trigger] query.requires((f,)),
                        forall|c: GridCoords|
                            rect_prefix_covers(coords, width as int, y as int, 0, c)
                                && self.contains(c) ==> query.ensures((&self.cell(c),), false),
                    decreases height - y,
                {
                    let mut x: i32 = 0;
                    while x < width
                        invariant
                            imprint == (GridImprint::Rectangle { width, height }),
                            imprint_fits_i32(imprint, coords),
                            0 <= y < height,
                            0 <= x,
                            x == 0 || x <= width,
                            self.wf(),
                            forall|f: &Field| #[trigger] query.requires((f,)),
                            forall|c: GridCoords|
                                rect_prefix_covers(coords, width as int, y as int, x as int, c)
                                    && self.contains(c) ==> query.ensures(
                                    (&self.cell(c),),
                                    false,
                                ),
                        decreases width - x,
                    {
                        let inner_coords = coords.shifted((x, y));
                        if inner_coords.is_in_bounds(self.bounds()) {
                            let q = query(self.get(inner_coords));
                            if q {
                                assert(imprint_covers(imprint, coords, inner_coords) && self.contains(
                                    inner_coords,
                                ) && query.ensures((&self.cell(inner_coords),), true));
                                return true;
                            }
                        }
                        x = x + 1;
                    }
                    y = y + 1;
                }
                false
            },
        }
    }
}

/// A mining complex may stand on `imprint` at `coords`: every covered cell lies inside the
/// grid and is empty or dark ore, and at least one covered cell is dark ore.
pub open spec fn mining_complex_placeable(
    grid: ObstacleGrid,
    coords: GridCoords,
    imprint: GridImprint,
) -> bool {
    &&& forall|c: GridCoords| #![trigger grid.cell(c)]
        imprint_covers(imprint, coords, c) ==> grid.contains(c) && (grid.cell(c) is Empty
            || grid.cell(c) is DarkOre)
    &&& exists|c: GridCoords|
        imprint_covers(imprint, coords, c) && grid.contains(c) && grid.cell(c) is DarkOre
}

/// Every covered cell inside the grid is empty.
pub open spec fn imprint_area_empty(grid: ObstacleGrid, coords: GridCoords, imprint: GridImprint) -> bool {
    forall|c: GridCoords|
        imprint_covers(imprint, coords, c) && grid.contains(c) ==> grid.cell(c) is Empty
}

/// Whether a building of `building_type` may be placed on `imprint` at `coords`.
pub open spec fn building_placeable(
    grid: ObstacleGrid,
    coords: GridCoords,
    building_type: BuildingType,
    imprint: GridImprint,
) -> bool {
    if building_type is MiningComplex {
        mining_complex_placeable(grid, coords, imprint)
    } else {
        imprint_area_empty(grid, coords, imprint)
    }
}

impl BaseGrid<Field, GridVersion> {
    /// A mining complex needs at least one dark ore cell and no other obstacle; any other
    /// building needs every covered cell inside the grid to be empty.
    pub fn query_building_placement(
        &self,
        coords: GridCoords,
        building_type: BuildingType,
        imprint: GridImprint,
    ) -> (r: bool)
        requires
            self.wf(),
            imprint_fits_i32(imprint, coords),
        ensures
            r == building_placeable(*self, coords, building_type, imprint),
    {
        match building_type {
            BuildingType::MiningComplex => {
                let GridImprint::Rectangle { width, height } = imprint;
                let mut has_dark_ore = false;
                let mut y: i32 = 0;
                while y < height
                    invariant
                        imprint == (GridImprint::Rectangle { width, height }),
                        building_type is MiningComplex,
                        imprint_fits_i32(imprint, coords),
                        0 <= y,
                        y == 0 || y <= height,
                        self.wf(),
                        forall|c: GridCoords| #![trigger self.cell(c)]
                            rect_prefix_covers(coords, width as int, y as int, 0, c) ==> self.contains(c)
                                && (self.cell(c) is Empty || self.cell(c) is DarkOre),
                        has_dark_ore ==> exists|c: GridCoords|
                            imprint_covers(imprint, coords, c) && self.contains(c)
                                && self.cell(c) is DarkOre,
                        !has_dark_ore ==> forall|c: GridCoords| #![trigger self.cell(c)]
                            rect_prefix_covers(coords, width as int, y as int, 0, c) ==> !(self.cell(
                                c,
                            ) is DarkOre),
                    decreases height - y,
                {
                    let mut x: i32 = 0;
                    while x < width
                        invariant
                            imprint == (GridImprint::Rectangle { width, height }),
                        building_type is MiningComplex,
                            imprint_fits_i32(imprint, coords),
                            0 <= y < height,
                            0 <= x,
                            x == 0 || x <= width,
                            self.wf(),
                            forall|c: GridCoords| #![trigger self.cell(c)]
                                rect_prefix_covers(coords, width as int, y as int, x as int, c)
                                    ==> self.contains(c) && (self.cell(c) is Empty || self.cell(
                                    c,
                                ) is DarkOre),
                            has_dark_ore ==> exists|c: GridCoords|
                                imprint_covers(imprint, coords, c) && self.contains(c)
                                    && self.cell(c) is DarkOre,
                            !has_dark_ore ==> forall|c: GridCoords| #![trigger self.cell(c)]
                                rect_prefix_covers(coords, width as int, y as int, x as int, c)
                                    ==> !(self.cell(c) is DarkOre),
                        decreases width - x,
                    {
                        let inner_coords = coords.shifted((x, y));
                        if !inner_coords.is_in_bounds(self.bounds()) {
                            assert(imprint_covers(imprint, coords, inner_coords) && !self.contains(
                                inner_coords,
                            ) && self.cell(inner_coords) == self.cell(inner_coords));
                            return false;
                        }
                        match self.get(inner_coords) {
                            Field::Empty => {},
                            Field::DarkOre(_) => {
                                has_dark_ore = true;
                                assert(imprint_covers(imprint, coords, inner_coords) && self.contains(
                                    inner_coords,
                                ) && self.cell(inner_coords) is DarkOre);
                            },
                            _ => {
                                assert(imprint_covers(imprint, coords, inner_coords));
                                assert(!(self.cell(inner_coords) is Empty || self.cell(
                                    inner_coords,
                                ) is DarkOre));
                                return false;
                            },
                        }
                        x = x + 1;
                    }
                    y = y + 1;
                }
                proof {
                    if !has_dark_ore {
                        assert forall|c: GridCoords| #![trigger self.cell(c)]
                            imprint_covers(imprint, coords, c) && self.contains(c) implies !(
                            self.cell(c) is DarkOre) by {
                            assert(rect_prefix_covers(coords, width as int, y as int, 0, c));
                        }
                    }
                    assert forall|c: GridCoords| imprint_covers(imprint, coords, c) implies self.contains(c)
                        && (self.cell(c) is Empty || self.cell(c) is DarkOre) by {
                        assert(rect_prefix_covers(coords, width as int, y as int, 0, c));
                    }
                }
                has_dark_ore
            },
            _ => {
                self.imprint_query_all(coords, imprint, Field::is_empty)
            },
        }
    }

    /// Places a mining complex on every storage position that `imprint` at `coords` writes,
    /// keeping the dark ore found there as the field below it, and bumps the version. Each
    /// position is written once and holds an empty field or dark ore.
    pub fn imprint_mining_complex(
        &mut self,
        coords: GridCoords,
        mining_complex_entity: Entity,
        imprint: GridImprint,
    )
        requires
            old(self).wf(),
            imprint_storage_ok(imprint, coords, old(self).width as int, old(self).grid@.len() as int),
            imprint_positions_distinct(imprint, coords, old(self).width as int),
            forall|i: int|
                0 <= i < old(self).grid@.len() && #[trigger] imprint_writes(
                    imprint,
                    coords,
                    old(self).width as int,
                    i,
                ) ==> old(self).grid@[i] is Empty || old(self).grid@[i] is DarkOre,
        ensures
            final(self).wf(),
            final(self).width == old(self).width,
            final(self).height == old(self).height,
            final(self).version == old(self).version.wrapping_add(1),
            forall|i: int|
                0 <= i < old(self).grid@.len() ==> #[trigger] final(self).grid@[i] == if imprint_writes(
                    imprint,
                    coords,
                    old(self).width as int,
                    i,
                ) {
                    Field::Building(
                        mining_complex_entity,
                        BuildingType::MiningComplex,
                        below_field_of(old(self).grid@[i]),
                    )
                } else {
                    old(self).grid@[i]
                },
            imprint_in_bounds(imprint, coords, old(self).width as int, old(self).height as int)
                ==> forall|c: GridCoords|
                old(self).contains(c) ==> #[trigger] final(self).cell(c) == if imprint_covers(
                    imprint,
                    coords,
                    c,
                ) {
                    Field::Building(
                        mining_complex_entity,
                        BuildingType::MiningComplex,
                        below_field_of(old(self).cell(c)),
                    )
                } else {
                    old(self).cell(c)
                },
    {
        let ghost old_grid = *old(self);
        let ghost w = old(self).width as int;
        match imprint {
            GridImprint::Rectangle { width, height } => {
                if width > 0 && height > 0 {
                    let mut y: i32 = 0;
                    while y < height
                        invariant
                            0 < width,
                            0 <= y <= height,
                            w == old_grid.width,
                            imprint == (GridImprint::Rectangle { width, height }),
                            imprint_storage_ok(imprint, coords, w, old_grid.grid@.len() as int),
                            imprint_positions_distinct(imprint, coords, w),
                            forall|i: int|
                                0 <= i < old_grid.grid@.len() && #[trigger] imprint_writes(
                                    imprint,
                                    coords,
                                    w,
                                    i,
                                ) ==> old_grid.grid@[i] is Empty || old_grid.grid@[i] is DarkOre,
                            self.wf(),
                            old_grid.wf(),
                            self.width == old_grid.width,
                            self.height == old_grid.height,
                            self.version == old_grid.version,
                            forall|i: int|
                                0 <= i < old_grid.grid@.len() ==> #[trigger] self.grid@[i]
                                    == if imprint_prefix_writes(
                                    coords,
                                    w,
                                    width as int,
                                    y as int,
                                    0,
                                    i,
                                ) {
                                    Field::Building(
                                        mining_complex_entity,
                                        BuildingType::MiningComplex,
                                        below_field_of(old_grid.grid@[i]),
                                    )
                                } else {
                                    old_grid.grid@[i]
                                },
                        decreases height - y,
                    {
                        let mut x: i32 = 0;
                        while x < width
                            invariant
                                0 < width,
                                0 <= y < height,
                                0 <= x <= width,
                                w == old_grid.width,
                                imprint == (GridImprint::Rectangle { width, height }),
                                imprint_storage_ok(imprint, coords, w, old_grid.grid@.len() as int),
                                imprint_positions_distinct(imprint, coords, w),
                                forall|i: int|
                                    0 <= i < old_grid.grid@.len() && #[trigger] imprint_writes(
                                        imprint,
                                        coords,
                                        w,
                                        i,
                                    ) ==> old_grid.grid@[i] is Empty || old_grid.grid@[i] is DarkOre,
                                self.wf(),
                                old_grid.wf(),
                                self.width == old_grid.width,
                                self.height == old_grid.height,
                                self.version == old_grid.version,
                                forall|i: int|
                                    0 <= i < old_grid.grid@.len() ==> #[trigger] self.grid@[i]
                                        == if imprint_prefix_writes(
                                        coords,
                                        w,
                                        width as int,
                                        y as int,
                                        x as int,
                                        i,
                                    ) {
                                        Field::Building(
                                            mining_complex_entity,
                                            BuildingType::MiningComplex,
                                            below_field_of(old_grid.grid@[i]),
                                        )
                                    } else {
                                        old_grid.grid@[i]
                                    },
                            decreases width - x,
                        {
                            let ghost pos = storage_pos(coords, w, x as int, y as int);
                            proof {
                                assert(offset_storage_ok(
                                    coords,
                                    w,
                                    old_grid.grid@.len() as int,
                                    x as int,
                                    y as int,
                                ));
                                assert(pos == (coords.y + y) * self.width + (coords.x + x));
                                if imprint_prefix_writes(coords, w, width as int, y as int, x as int, pos) {
                                    let (dx, dy) = choose|dx: int, dy: int|
                                        ((0 <= dy < y && 0 <= dx < width) || (dy == y && 0 <= dx < x))
                                            && #[trigger] storage_pos(coords, w, dx, dy) == pos;
                                    assert(storage_pos(coords, w, dx, dy) != storage_pos(
                                        coords,
                                        w,
                                        x as int,
                                        y as int,
                                    ));
                                }
                                assert(imprint_writes(imprint, coords, w, pos));
                            }
                            let idx = ((coords.y + y) * self.width + (coords.x + x)) as usize;
                            let below_field = match self.grid[idx] {
                                Field::Empty => BelowField::Empty,
                                Field::DarkOre(entity) => BelowField::DarkOre(entity),
                                _ => {
                                    proof {
                                        assert(false);
                                    }
                                    BelowField::Empty
                                },
                            };
                            self.grid.set(
                                idx,
                                Field::Building(
                                    mining_complex_entity,
                                    BuildingType::MiningComplex,
                                    below_field,
                                ),
                            );
                            proof {
                                assert forall|i: int| 0 <= i < old_grid.grid@.len() implies #[trigger] self.grid@[i]
                                    == if imprint_prefix_writes(
                                    coords,
                                    w,
                                    width as int,
                                    y as int,
                                    x + 1,
                                    i,
                                ) {
                                    Field::Building(
                                        mining_complex_entity,
                                        BuildingType::MiningComplex,
                                        below_field_of(old_grid.grid@[i]),
                                    )
                                } else {
                                    old_grid.grid@[i]
                                } by {
                                    lemma_prefix_writes_step(
                                        coords,
                                        w,
                                        width as int,
                                        y as int,
                                        x as int,
                                        i,
                                    );
                                }
                            }
                            x = x + 1;
                        }
                        proof {
                            assert forall|i: int| 0 <= i < old_grid.grid@.len() implies #[trigger] self.grid@[i]
                                == if imprint_prefix_writes(coords, w, width as int, y + 1, 0, i) {
                                Field::Building(
                                    mining_complex_entity,
                                    BuildingType::MiningComplex,
                                    below_field_of(old_grid.grid@[i]),
                                )
                            } else {
                                old_grid.grid@[i]
                            } by {
                                lemma_prefix_writes_row(coords, w, width as int, y as int, i);
                            }
                        }
                        y = y + 1;
                    }
                    proof {
                        assert forall|i: int| 0 <= i < old_grid.grid@.len() implies #[trigger] self.grid@[i]
                            == if imprint_writes(imprint, coords, w, i) {
                            Field::Building(
                                mining_complex_entity,
                                BuildingType::MiningComplex,
                                below_field_of(old_grid.grid@[i]),
                            )
                        } else {
                            old_grid.grid@[i]
                        } by {
                            lemma_prefix_writes_all(coords, w, width, height, i);
                        }
                    }
                }
            },
        }
        self.version = self.version.wrapping_add(1);
        proof {
            lemma_cells_follow_storage(*old(self), *self, imprint, coords);
            if imprint_in_bounds(imprint, coords, old(self).width as int, old(self).height as int) {
                assert forall|c: GridCoords| old(self).contains(c) implies #[trigger] self.cell(c)
                    == if imprint_covers(imprint, coords, c) {
                    Field::Building(
                        mining_complex_entity,
                        BuildingType::MiningComplex,
                        below_field_of(old(self).cell(c)),
                    )
                } else {
                    old(self).cell(c)
                } by {
                    lemma_flat_index_in_range(c, old(self).width as int, old(self).height as int);
                }
            }
        }
    }
}

/// `query` answers for each field whether it satisfies `p`.
pub open spec fn query_decides<Q: Fn(&Field) -> bool>(query: Q, p: spec_fn(Field) -> bool) -> bool {
    forall|f: Field, b: bool| #[trigger] query.ensures((&f,), b) ==> b == p(f)
}

/// Some cell inside the grid covered by `imprint` at `coords` holds a field satisfying `p`.
pub open spec fn imprint_any(
    grid: ObstacleGrid,
    coords: GridCoords,
    imprint: GridImprint,
    p: spec_fn(Field) -> bool,
) -> bool {
    exists|c: GridCoords| imprint_covers(imprint, coords, c) && grid.contains(c) && p(#[trigger] grid.cell(c))
}

/// `r` is an answer `imprint_query_all` gives with `query`, as its `ensures` states it.
pub open spec fn query_all_answer<Q: Fn(&Field) -> bool>(
    grid: ObstacleGrid,
    coords: GridCoords,
    imprint: GridImprint,
    query: Q,
    r: bool,
) -> bool {
    &&& r ==> forall|c: GridCoords|
        imprint_covers(imprint, coords, c) && grid.contains(c) ==> query.ensures(
            (&grid.cell(c),),
            true,
        )
    &&& !r ==> exists|c: GridCoords|
        imprint_covers(imprint, coords, c) && grid.contains(c) && query.ensures(
            (&grid.cell(c),),
            false,
        )
}

/// `r` is an answer `imprint_query_any` gives with `query`, as its `ensures` states it.
pub open spec fn query_any_answer<Q: Fn(&Field) -> bool>(
    grid: ObstacleGrid,
    coords: GridCoords,
    imprint: GridImprint,
    query: Q,
    r: bool,
) -> bool {
    &&& r ==> exists|c: GridCoords|
        imprint_covers(imprint, coords, c) && grid.contains(c) && query.ensures(
            (&grid.cell(c),),
            true,
        )
    &&& !r ==> forall|c: GridCoords|
        imprint_covers(imprint, coords, c) && grid.contains(c) ==> query.ensures(
            (&grid.cell(c),),
            false,
        )
}

/// Asking whether any covered cell inside the grid satisfies `p` gives the opposite of asking
/// whether every such cell satisfies its negation: with queries deciding `p` and `!p`, the
/// answers of `imprint_query_any` and `imprint_query_all` are each other's negation, and the
/// first is whether some covered cell inside the grid satisfies `p` (none when no covered cell
/// lies inside).
pub proof fn lemma_query_any_is_not_all_not<Q: Fn(&Field) -> bool, N: Fn(&Field) -> bool>(
    grid: ObstacleGrid,
    coords: GridCoords,
    imprint: GridImprint,
    query: Q,
    not_query: N,
    p: spec_fn(Field) -> bool,
    any: bool,
    all: bool,
)
    requires
        query_decides(query, p),
        query_decides(not_query, |f: Field| !p(f)),
        query_any_answer(grid, coords, imprint, query, any),
        query_all_answer(grid, coords, imprint, not_query, all),
    ensures
        any == imprint_any(grid, coords, imprint, p),
        any == !all,
{
    if any {
        let c = choose|c: GridCoords|
            imprint_covers(imprint, coords, c) && grid.contains(c) && query.ensures(
                (&grid.cell(c),),
                true,
            );
        assert(p(grid.cell(c)));
        if all {
            assert(not_query.ensures((&grid.cell(c),), true));
        }
    } else {
        assert forall|c: GridCoords| imprint_covers(imprint, coords, c) && grid.contains(c) implies !p(
            #[trigger] grid.cell(c),
        ) by {
            assert(query.ensures((&grid.cell(c),), false));
        }
        if !all {
            let c = choose|c: GridCoords|
                imprint_covers(imprint, coords, c) && grid.contains(c) && not_query.ensures(
                    (&grid.cell(c),),
                    false,
                );
            assert(!p(grid.cell(c)));
        }
    }
}

} // verus!
