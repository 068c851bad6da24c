use vstd::prelude::*;
use crate::common::Entity;

use crate::grids::common::{GridCoords, GridImprint, covered_cells, imprint_area, imprint_covers, imprint_fits_i32};
use crate::grids::obstacles::{BelowField, Field, ObstacleGrid};

verus! {

/// Dark ore placed in the editor starts with this amount.
pub const DARK_ORE_PLACED_AMOUNT: u32 = 1000;

/// The imprint of a dark ore deposit: a single cell.
pub fn dark_ore_grid_imprint() -> (r: GridImprint)
    ensures
        r == (GridImprint::Rectangle { width: 1, height: 1 }),
{
    GridImprint::Rectangle { width: 1, height: 1 }
}

/// A deposit of dark ore.
#[derive(Clone, Copy, Debug, PartialEq, Eq, Structural)]
pub struct DarkOre {
    pub amount: i32,
}

impl DarkOre {
    /// A deposit with nothing left is removed from the map.
    pub fn is_depleted(&self) -> (r: bool)
        ensures
            r == (self.amount <= 0),
    {
        self.amount <= 0
    }
}

/// What a dark ore deposit keeps when the game is saved.
#[derive(Clone, Copy, Debug, PartialEq, Eq, Structural)]
pub struct DarkOreSaveData {
    pub entity: Entity,
}

/// Request to place a dark ore deposit, new or restored from a save.
#[derive(Clone, Copy, Debug, PartialEq, Eq, Structural)]
pub struct BuilderDarkOre {
    pub grid_position: GridCoords,
    pub amount: u32,
    pub save_data: Option<DarkOreSaveData>,
}

impl BuilderDarkOre {
    pub fn new(grid_position: GridCoords, amount: u32) -> (r: Self)
        ensures
            r.grid_position == grid_position,
            r.amount == amount,
            r.save_data is None,
    {
        BuilderDarkOre { grid_position, amount, save_data: None }
    }

    pub fn new_for_saving(grid_position: GridCoords, amount: u32, save_data: DarkOreSaveData) -> (r:
        Self)
        ensures
            r.grid_position == grid_position,
            r.amount == amount,
            r.save_data == Some(save_data),
    {
        BuilderDarkOre { grid_position, amount, save_data: Some(save_data) }
    }

    /// The record saved for a deposit; its amount is stored unsigned, as the save keeps it.
    pub fn for_saving(entity: Entity, grid_position: GridCoords, dark_ore: &DarkOre) -> (r: Self)
        ensures
            r.grid_position == grid_position,
            r.amount == dark_ore.amount as u32,
            r.save_data == Some(DarkOreSaveData { entity }),
    {
        BuilderDarkOre::new_for_saving(
            grid_position,
            dark_ore.amount as u32,
            DarkOreSaveData { entity },
        )
    }

    /// The deposit the request places; the amount is read back as a signed number.
    pub fn dark_ore(&self) -> (r: DarkOre)
        ensures
            r.amount == self.amount as i32,
    {
        DarkOre { amount: self.amount as i32 }
    }
}

/// Marks a scanner with dark ore in its range.
#[derive(Clone, Copy, Debug, Default)]
pub struct HasOreInScannerRange;

/// Marks a scanner without dark ore in its range.
#[derive(Clone, Copy, Debug, Default)]
pub struct NoOreInScannerRange;

/// Looks for dark ore over the cells its imprint covers around its position.
#[derive(Clone, Copy, Debug, PartialEq, Eq, Structural)]
pub struct DarkOreAreaScanner {
    pub range_imprint: GridImprint,
}

/// The dark ore deposits within a scanner's range.
#[derive(Clone, Debug, Default)]
pub struct DarkOreInRange(pub Vec<Entity>);

/// The dark ore of a field: a deposit, or the deposit a building stands on.
pub open spec fn dark_ore_of(f: Field) -> Option<Entity> {
    match f {
        Field::DarkOre(e) => Some(e),
        Field::Building(_, _, BelowField::DarkOre(e)) => Some(e),
        _ => None,
    }
}

/// The dark ore of the cells of `cells` that lie inside the grid, in their order.
pub open spec fn dark_ores_on(grid: ObstacleGrid, cells: Seq<GridCoords>) -> Seq<Entity>
    decreases cells.len(),
{
    if cells.len() == 0 {
        Seq::empty()
    } else {
        let prev = dark_ores_on(grid, cells.drop_last());
        let c = cells.last();
        if grid.contains(c) {
            match dark_ore_of(grid.cell(c)) {
                Some(e) => prev.push(e),
                None => prev,
            }
        } else {
            prev
        }
    }
}

impl DarkOreAreaScanner {
    /// The dark ore within range of a scanner at `grid_coords`, cell by cell in the order the
    /// range covers them.
    pub fn scan(&self, obstacle_grid: &ObstacleGrid, grid_coords: GridCoords) -> (r: DarkOreInRange)
        requires
            obstacle_grid.wf(),
            imprint_fits_i32(self.range_imprint, grid_coords),
            imprint_area(self.range_imprint) <= usize::MAX,
        ensures
            r.0@ == dark_ores_on(*obstacle_grid, covered_cells(self.range_imprint, grid_coords)),
    {
        let cells = self.range_imprint.covered_coords(grid_coords);
        let mut ores: Vec<Entity> = Vec::new();
        let mut i: usize = 0;
        while i < cells.len()
            invariant
                obstacle_grid.wf(),
                i <= cells@.len(),
                ores@ == dark_ores_on(*obstacle_grid, cells@.subrange(0, i as int)),
            decreases cells@.len() - i,
        {
            let c = cells[i];
            proof {
                assert(cells@.subrange(0, i + 1).drop_last() =~= cells@.subrange(0, i as int));
            }
            if c.is_in_bounds(obstacle_grid.bounds()) {
                match obstacle_grid.get(c) {
                    Field::DarkOre(e) => ores.push(*e),
                    Field::Building(_, _, BelowField::DarkOre(e)) => ores.push(*e),
                    _ => {},
                }
            }
            i = i + 1;
        }
        proof {
            assert(cells@.subrange(0, cells@.len() as int) =~= cells@);
        }
        DarkOreInRange(ores)
    }
}

/// Searches `s` for `v`; the first position holding it.
fn find_position(s: &Vec<Entity>, v: Entity) -> (r: Option<usize>)
    ensures
        match r {
            Some(p) => 0 <= p < s@.len() && s@[p as int] == v && forall|q: int|
                0 <= q < p ==> s@[q] != v,
            None => !s@.contains(v),
        },
{
    let mut p: usize = 0;
    while p < s.len()
        invariant
            p <= s@.len(),
            forall|q: int| 0 <= q < p ==> s@[q] != v,
        decreases s@.len() - p,
    {
        if s[p] == v {
            return Some(p);
        }
        p = p + 1;
    }
    None
}

impl DarkOreInRange {
    /// Some dark ore is within range.
    pub fn has_ore(&self) -> (r: bool)
        ensures
            r == (self.0@.len() > 0),
    {
        self.0.len() > 0
    }

    /// A dark ore deposit at `ore_coords` was removed: a scanner at `scanner_coords` whose
    /// range covers it forgets it, the last deposit taking its place. Returns whether no
    /// dark ore is left in range.
    pub fn on_dark_ore_removed(
        &mut self,
        ore: Entity,
        ore_coords: GridCoords,
        scanner: &DarkOreAreaScanner,
        scanner_coords: GridCoords,
    ) -> (r: bool)
        ensures
            final(self).0@ == if imprint_covers(scanner.range_imprint, scanner_coords, ore_coords)
                && old(self).0@.contains(ore) {
                crate::grids::wisps::swap_removed(old(self).0@, ore)
            } else {
                old(self).0@
            },
            r == (final(self).0@.len() == 0),
    {
        if scanner.range_imprint.covers_coords(scanner_coords, ore_coords) {
            match find_position(&self.0, ore) {
                Some(index) => {
                    proof {
                        let s = old(self).0@;
                        let p = crate::grids::wisps::first_index_of(s, ore);
                        assert(s.contains(ore));
                        assert(0 <= p < s.len() && s[p] == ore && forall|q: int|
                            0 <= q < p ==> s[q] != ore);
                        if p != index {
                            if p < index {
                                assert(s[p] != ore);
                            } else {
                                assert(s[index as int] != ore);
                            }
                        }
                    }
                    self.0.swap_remove(index);
                },
                None => {},
            }
        }
        self.0.len() == 0
    }

    /// A dark ore deposit appeared at `ore_coords`: a scanner at `scanner_coords` whose range
    /// covers it adds it unless it already knows it. Returns whether the scanner had no dark
    /// ore in range before and has now.
    pub fn on_dark_ore_added(
        &mut self,
        ore: Entity,
        ore_coords: GridCoords,
        scanner: &DarkOreAreaScanner,
        scanner_coords: GridCoords,
    ) -> (r: bool)
        ensures
            final(self).0@ == if imprint_covers(scanner.range_imprint, scanner_coords, ore_coords)
                && !old(self).0@.contains(ore) {
                old(self).0@.push(ore)
            } else {
                old(self).0@
            },
            r == (imprint_covers(scanner.range_imprint, scanner_coords, ore_coords) && !old(
                self,
            ).0@.contains(ore) && old(self).0@.len() == 0),
    {
        if scanner.range_imprint.covers_coords(scanner_coords, ore_coords) {
            if find_position(&self.0, ore).is_none() {
                let was_empty = self.0.len() == 0;
                self.0.push(ore);
                return was_empty;
            }
        }
        false
    }
}

} // verus!
