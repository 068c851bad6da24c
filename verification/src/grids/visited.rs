use vstd::prelude::*;
use crate::grids::base::{BaseGrid, FieldTrait, GridVersion};
use crate::grids::common::GridCoords;

verus! {

/// Grid of cells already visited by a search.
pub type VisitedGrid = BaseGrid<bool, GridVersion>;

impl BaseGrid<bool, GridVersion> {
    pub fn set_visited(&mut self, coords: GridCoords)
        requires
            old(self).wf(),
            old(self).contains(coords),
        ensures
            final(self).wf(),
            final(self).width == old(self).width,
            final(self).height == old(self).height,
            final(self).version == old(self).version,
            final(self).cell(coords),
            forall|c: GridCoords|
                old(self).contains(c) && c != coords ==> #[trigger] final(self).cell(c) == old(
                    self,
                ).cell(c),
    {
        let index = self.index(coords);
        self.set(coords, true);
    }

    pub fn is_visited(&self, coords: GridCoords) -> (r: bool)
        requires
            self.wf(),
            self.contains(coords),
        ensures
            r == self.cell(coords),
    {
        let index = self.index(coords);
        self.grid[index]
    }
}

/// Whether a cell was reached during a search, and from which cell, so that the search
/// can be backtracked.
#[derive(Clone, Copy, Debug, PartialEq, Eq, Structural)]
pub enum Tracking {
    Unvisited,
    Visited { from: GridCoords },
}

impl FieldTrait for Tracking {
    open spec fn spec_is_default(&self) -> bool {
        *self is Unvisited
    }

    fn default_field() -> (r: Tracking) {
        Tracking::Unvisited
    }
}

/// Grid that keeps track of the cell each visited cell was reached from.
pub type TrackingGrid = BaseGrid<Tracking, GridVersion>;

/// The cell `c` was reached from (`c` itself when it was not reached).
pub open spec fn tracked_from(grid: TrackingGrid, c: GridCoords) -> GridCoords {
    match grid.cell(c) {
        Tracking::Visited { from } => from,
        Tracking::Unvisited => c,
    }
}

/// The cell reached from `c` by walking back `k` times.
pub open spec fn walk_back(grid: TrackingGrid, c: GridCoords, k: nat) -> GridCoords
    decreases k,
{
    if k == 0 {
        c
    } else {
        tracked_from(grid, walk_back(grid, c, (k - 1) as nat))
    }
}

/// Walking back `n` times from `from` stays on tracked cells inside the grid and ends at `to`.
pub open spec fn walks_back_to(grid: TrackingGrid, from: GridCoords, to: GridCoords, n: nat) -> bool {
    &&& n >= 1
    &&& walk_back(grid, from, n) == to
    &&& forall|k: nat|
        k < n ==> grid.contains(#[trigger] walk_back(grid, from, k)) && grid.cell(
            walk_back(grid, from, k),
        ) is Visited
}

impl BaseGrid<Tracking, GridVersion> {
    pub fn set_tracked(&mut self, coords: GridCoords, from: GridCoords)
        requires
            old(self).wf(),
            old(self).contains(coords),
        ensures
            final(self).wf(),
            final(self).width == old(self).width,
            final(self).height == old(self).height,
            final(self).version == old(self).version,
            final(self).cell(coords) == (Tracking::Visited { from }),
            forall|c: GridCoords|
                old(self).contains(c) && c != coords ==> #[trigger] final(self).cell(c) == old(
                    self,
                ).cell(c),
    {
        self.set(coords, Tracking::Visited { from });
    }

    pub fn is_tracked(&self, coords: GridCoords) -> (r: bool)
        requires
            self.wf(),
            self.contains(coords),
        ensures
            r == (self.cell(coords) is Visited),
    {
        let index = self.index(coords);
        match self.grid[index] {
            Tracking::Unvisited => false,
            Tracking::Visited { .. } => true,
        }
    }

    /// Creates a path between given points. The path is built by backtracking from
    /// `from_coords` to `to_coords` and then reversed: it runs from the cell after
    /// `to_coords` to `from_coords`.
    pub fn compile_path(&self, from_coords: GridCoords, to_coords: GridCoords) -> (path: Vec<
        GridCoords,
    >)
        requires
            self.wf(),
            exists|n: nat| walks_back_to(*self, from_coords, to_coords, n),
        ensures
            path@.len() >= 1,
            walk_back(*self, from_coords, path@.len()) == to_coords,
            forall|k: nat| 1 <= k < path@.len() ==> walk_back(*self, from_coords, k) != to_coords,
            forall|i: int|
                0 <= i < path@.len() ==> #[trigger] path@[i] == walk_back(
                    *self,
                    from_coords,
                    (path@.len() - 1 - i) as nat,
                ),
    {
        let ghost n = choose|n: nat| walks_back_to(*self, from_coords, to_coords, n);
        let mut backwards: Vec<GridCoords> = Vec::new();
        backwards.push(from_coords);
        let mut curr_coords = from_coords;
        let ghost mut k: nat = 0;
        loop
            invariant
                self.wf(),
                walks_back_to(*self, from_coords, to_coords, n),
                k < n,
                curr_coords == walk_back(*self, from_coords, k),
                backwards@.len() == k + 1,
                forall|m: int|
                    0 <= m <= k ==> #[trigger] backwards@[m] == walk_back(
                        *self,
                        from_coords,
                        m as nat,
                    ),
                forall|m: nat| 1 <= m <= k ==> walk_back(*self, from_coords, m) != to_coords,
            ensures
                walk_back(*self, from_coords, (k + 1) as nat) == to_coords,
                backwards@.len() == k + 1,
                forall|m: int|
                    0 <= m <= k ==> #[trigger] backwards@[m] == walk_back(
                        *self,
                        from_coords,
                        m as nat,
                    ),
                forall|m: nat| 1 <= m <= k ==> walk_back(*self, from_coords, m) != to_coords,
            decreases n - k,
        {
            assert(self.contains(walk_back(*self, from_coords, k)));
            let index = self.index(curr_coords);
            let next = match self.grid[index] {
                Tracking::Visited { from } => from,
                Tracking::Unvisited => curr_coords,
            };
            assert(next == walk_back(*self, from_coords, (k + 1) as nat));
            if next != to_coords {
                backwards.push(next);
                curr_coords = next;
                proof {
                    k = k + 1;
                }
            } else {
                break ;
            }
        }
        let len = backwards.len();
        let mut path: Vec<GridCoords> = Vec::new();
        let mut i: usize = 0;
        while i < len
            invariant
                len == backwards@.len(),
                i <= len,
                path@.len() == i,
                forall|m: int| 0 <= m < i ==> #[trigger] path@[m] == backwards@[len - 1 - m],
            decreases len - i,
        {
            path.push(backwards[len - 1 - i]);
            i = i + 1;
        }
        path
    }
}

} // verus!
