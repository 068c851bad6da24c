use vstd::prelude::*;
use std::collections::HashSet;
use crate::common::Entity;
use crate::grids::base::{BaseGrid, FieldTrait, GridVersion};
use crate::grids::common::{GridCoords, GridImprint, imprint_covers, imprint_fits_i32, rect_prefix_covers};

verus! {

broadcast use vstd::std_specs::hash::group_hash_axioms;

/// Range, in cells, over which a building supplies energy.
#[derive(Clone, Copy, Debug, PartialEq, Eq, Structural)]
pub struct SupplierEnergy {
    pub range: usize,
}

/// The suppliers whose energy reaches a cell.
#[derive(Debug)]
pub struct EnergySupplyField(HashSet<Entity>);

impl EnergySupplyField {
    pub closed spec fn suppliers(&self) -> Set<Entity> {
        self.0@
    }

    pub fn has_supply(&self) -> (r: bool)
        ensures
            r == !self.suppliers().is_empty(),
    {
        !self.0.is_empty()
    }

    pub fn add_supplier(&mut self, supplier: Entity)
        ensures
            final(self).suppliers() == old(self).suppliers().insert(supplier),
    {
        self.0.insert(supplier);
    }

    pub fn remove_supplier(&mut self, supplier: Entity)
        ensures
            final(self).suppliers() == old(self).suppliers().remove(supplier),
    {
        self.0.remove(&supplier);
    }

    pub fn has_supplier(&self, supplier: Entity) -> (r: bool)
        ensures
            r == self.suppliers().contains(supplier),
    {
        self.0.contains(&supplier)
    }
}

impl Default for EnergySupplyField {
    fn default() -> (r: Self)
        ensures
            r.suppliers() == Set::<Entity>::empty(),
    {
        EnergySupplyField(HashSet::new())
    }
}

impl FieldTrait for EnergySupplyField {
    open spec fn spec_is_default(&self) -> bool {
        self.suppliers() == Set::<Entity>::empty()
    }

    fn default_field() -> (r: EnergySupplyField) {
        EnergySupplyField::default()
    }
}

/// For every cell, the suppliers whose energy reaches it.
pub type EnergySupplyGrid = BaseGrid<EnergySupplyField, GridVersion>;

impl BaseGrid<EnergySupplyField, GridVersion> {
    /// Adds `supplier` to the suppliers of `coords` and bumps the version.
    pub fn add_supplier(&mut self, coords: GridCoords, supplier: Entity)
        requires
            old(self).wf(),
            old(self).contains(coords),
        ensures
            final(self).wf(),
            final(self).width == old(self).width,
            final(self).height == old(self).height,
            final(self).version == old(self).version.wrapping_add(1),
            final(self).cell(coords).suppliers() == old(self).cell(coords).suppliers().insert(
                supplier,
            ),
            forall|c: GridCoords|
                old(self).contains(c) && c != coords ==> #[trigger] final(self).cell(c) == old(
                    self,
                ).cell(c),
    {
        let idx = self.index(coords);
        self.grid[idx].add_supplier(supplier);
        proof {
            lemma_other_cells_unchanged(*old(self), *self, coords);
        }
        let ghost updated = *self;
        self.version = self.version.wrapping_add(1);
        assert forall|c: GridCoords| old(self).contains(c) && c != coords implies #[trigger] self.cell(c)
            == old(self).cell(c) by {
            assert(self.cell(c) == updated.cell(c));
        }
    }

    /// Removes `supplier` from the suppliers of `coords` and bumps the version.
    pub fn remove_supplier(&mut self, coords: GridCoords, supplier: Entity)
        requires
            old(self).wf(),
            old(self).contains(coords),
        ensures
            final(self).wf(),
            final(self).width == old(self).width,
            final(self).height == old(self).height,
            final(self).version == old(self).version.wrapping_add(1),
            final(self).cell(coords).suppliers() == old(self).cell(coords).suppliers().remove(
                supplier,
            ),
            forall|c: GridCoords|
                old(self).contains(c) && c != coords ==> #[trigger] final(self).cell(c) == old(
                    self,
                ).cell(c),
    {
        let idx = self.index(coords);
        self.grid[idx].remove_supplier(supplier);
        proof {
            lemma_other_cells_unchanged(*old(self), *self, coords);
        }
        let ghost updated = *self;
        self.version = self.version.wrapping_add(1);
        assert forall|c: GridCoords| old(self).contains(c) && c != coords implies #[trigger] self.cell(c)
            == old(self).cell(c) by {
            assert(self.cell(c) == updated.cell(c));
        }
    }

    /// At least one of the imprint's cells must have energy supply.
    pub fn is_imprint_suppliable(&self, coords: GridCoords, imprint: GridImprint) -> (r: bool)
        requires
            self.wf(),
            imprint_fits_i32(imprint, coords),
        ensures
            r == exists|c: GridCoords|
                imprint_covers(imprint, coords, c) && self.contains(c) && !#[trigger] self.cell(
                    c,
                ).suppliers().is_empty(),
    {
        match imprint {
            GridImprint::Rectangle { width, height } => {
                let mut y: i32 = 0;
                while y < height
                    invariant
                        imprint == (GridImprint::Rectangle { width, height }),
                        imprint_fits_i32(imprint, coords),
                        0 <= y,
                        y == 0 || y <= height,
                        self.wf(),
                        forall|c: GridCoords| #![trigger self.cell(c)]
                            rect_prefix_covers(coords, width as int, y as int, 0, c)
                                && self.contains(c) ==> self.cell(c).suppliers().is_empty(),
                    decreases height - y,
                {
                    let mut x: i32 = 0;
                    while x < width
                        invariant
                            imprint == (GridImprint::Rectangle { width, height }),
                            imprint_fits_i32(imprint, coords),
                            0 <= y < height,
                            0 <= x,
                            x == 0 || x <= width,
                            self.wf(),
                            forall|c: GridCoords| #![trigger self.cell(c)]
                                rect_prefix_covers(coords, width as int, y as int, x as int, c)
                                    && self.contains(c) ==> self.cell(c).suppliers().is_empty(),
                        decreases width - x,
                    {
                        let inner_coords = coords.shifted((x, y));
                        if inner_coords.is_in_bounds(self.bounds()) && self.get(
                            inner_coords,
                        ).has_supply() {
                            assert(imprint_covers(imprint, coords, inner_coords));
                            return true;
                        }
                        x = x + 1;
                    }
                    y = y + 1;
                }
                proof {
                    assert forall|c: GridCoords|
                        imprint_covers(imprint, coords, c) && self.contains(c) implies #[trigger] self.cell(
                        c,
                    ).suppliers().is_empty() by {
                        assert(rect_prefix_covers(coords, width as int, y as int, 0, c));
                    }
                }
                false
            },
        }
    }
}


/// Changing the storage at the position of `coords` leaves every other cell unchanged.
pub proof fn lemma_other_cells_unchanged<F: FieldTrait, V: crate::grids::base::GridVersionTrait>(
    before: BaseGrid<F, V>,
    after: BaseGrid<F, V>,
    coords: GridCoords,
)
    requires
        before.wf(),
        before.contains(coords),
        after.width == before.width,
        after.grid@ == before.grid@.update(
            crate::grids::base::flat_index(coords, before.width as int),
            after.grid@[crate::grids::base::flat_index(coords, before.width as int)],
        ),
    ensures
        forall|c: GridCoords|
            before.contains(c) && c != coords ==> #[trigger] after.cell(c) == before.cell(c),
{
    assert forall|c: GridCoords| before.contains(c) && c != coords implies #[trigger] after.cell(c)
        == before.cell(c) by {
        crate::grids::base::lemma_flat_index_in_range(c, before.width as int, before.height as int);
        crate::grids::base::lemma_flat_index_in_range(coords, before.width as int, before.height as int);
        if crate::grids::base::flat_index(c, before.width as int) == crate::grids::base::flat_index(
            coords,
            before.width as int,
        ) {
            crate::grids::base::lemma_flat_index_injective(
                c,
                coords,
                before.width as int,
                before.height as int,
            );
        }
    }
}


/// Adding a supplier a cell did not have and removing it again restores the cell's suppliers.
pub proof fn lemma_add_then_remove_supplier(suppliers: Set<Entity>, supplier: Entity)
    requires
        !suppliers.contains(supplier),
    ensures
        suppliers.insert(supplier).remove(supplier) == suppliers,
{
    assert(suppliers.insert(supplier).remove(supplier) =~= suppliers);
}

} // verus!
