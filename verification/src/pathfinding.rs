use vstd::prelude::*;
use crate::grids::base::{flat_index, lemma_flat_index_in_range, lemma_flat_index_injective};
use crate::grids::common::{GridCoords, in_bounds};
use crate::grids::obstacles::ObstacleGrid;

verus! {

/// Whether a cell was reached during the search, and from which cell.
#[derive(Clone, Copy, Debug, PartialEq, Eq, Structural)]
enum Visited {
    Unvisited,
    Visited { from: GridCoords },
}

/// Cells reached during a search, each with the cell it was reached from.
struct TrackingGrid {
    pub width: i32,
    pub height: i32,
    pub grid: Vec<Visited>,
}

/// Number of unvisited entries in `s`.
spec fn count_unvisited(s: Seq<Visited>) -> nat
    decreases s.len(),
{
    if s.len() == 0 {
        0
    } else {
        count_unvisited(s.drop_last()) + if s.last() is Unvisited {
            1nat
        } else {
            0nat
        }
    }
}

proof fn lemma_count_unvisited_update(s: Seq<Visited>, i: int, v: Visited)
    requires
        0 <= i < s.len(),
        v is Visited,
    ensures
        s[i] is Unvisited ==> count_unvisited(s.update(i, v)) + 1 == count_unvisited(s),
        s[i] is Visited ==> count_unvisited(s.update(i, v)) == count_unvisited(s),
    decreases s.len(),
{
    if i == s.len() - 1 {
        assert(s.update(i, v).drop_last() =~= s.drop_last());
    } else {
        assert(s.update(i, v).drop_last() =~= s.drop_last().update(i, v));
        lemma_count_unvisited_update(s.drop_last(), i, v);
    }
}

impl TrackingGrid {
    spec fn wf(&self) -> bool {
        &&& self.width >= 0
        &&& self.height >= 0
        &&& self.width * self.height <= i32::MAX
        &&& self.grid@.len() == self.width * self.height
    }

    spec fn contains(&self, c: GridCoords) -> bool {
        in_bounds(c, self.width as int, self.height as int)
    }

    spec fn cell(&self, c: GridCoords) -> Visited {
        self.grid@[flat_index(c, self.width as int)]
    }

    spec fn visited(&self, c: GridCoords) -> bool {
        self.cell(c) is Visited
    }

    /// The cell `c` was reached from.
    spec fn parent(&self, c: GridCoords) -> GridCoords {
        self.cell(c)->from
    }

    /// A grid of `width` x `height` unvisited cells.
    fn new(width: i32, height: i32) -> (r: Self)
        requires
            0 <= width,
            0 <= height,
            width * height <= i32::MAX,
        ensures
            r.wf(),
            r.width == width,
            r.height == height,
            forall|i: int| 0 <= i < r.grid@.len() ==> #[trigger] r.grid@[i] is Unvisited,
            count_unvisited(r.grid@) == width * height,
    {
        let n = (width * height) as usize;
        let mut grid: Vec<Visited> = Vec::new();
        let mut k: usize = 0;
        while k < n
            invariant
                k <= n,
                grid@.len() == k,
                forall|i: int| 0 <= i < k ==> #[trigger] grid@[i] is Unvisited,
                count_unvisited(grid@) == k,
            decreases n - k,
        {
            let ghost before = grid@;
            grid.push(Visited::Unvisited);
            assert(grid@.drop_last() =~= before);
            k = k + 1;
        }
        TrackingGrid { width, height, grid }
    }

    /// Records that `coords` was reached from `from`.
    fn set_visited(&mut self, coords: GridCoords, from: GridCoords)
        requires
            old(self).wf(),
            old(self).contains(coords),
        ensures
            final(self).wf(),
            final(self).width == old(self).width,
            final(self).height == old(self).height,
            final(self).cell(coords) == (Visited::Visited { from }),
            forall|c: GridCoords|
                old(self).contains(c) && c != coords ==> #[trigger] final(self).cell(c) == old(
                    self,
                ).cell(c),
            old(self).cell(coords) is Unvisited ==> count_unvisited(final(self).grid@) + 1
                == count_unvisited(old(self).grid@),
            old(self).cell(coords) is Visited ==> count_unvisited(final(self).grid@)
                == count_unvisited(old(self).grid@),
    {
        proof {
            lemma_flat_index_in_range(coords, self.width as int, self.height as int);
            assert(0 <= coords.y * self.width <= self.width * self.height) by (nonlinear_arith)
                requires
                    0 <= coords.y < self.height,
                    0 <= self.width,
            ;
        }
        let i = (coords.y * self.width + coords.x) as usize;
        let ghost before = self.grid@;
        self.grid.set(i, Visited::Visited { from });
        proof {
            lemma_count_unvisited_update(before, i as int, Visited::Visited { from });
            assert forall|c: GridCoords|
                old(self).contains(c) && c != coords implies #[trigger] self.cell(c) == old(
                self,
            ).cell(c) by {
                lemma_flat_index_in_range(c, self.width as int, self.height as int);
                if flat_index(c, self.width as int) == flat_index(coords, self.width as int) {
                    lemma_flat_index_injective(c, coords, self.width as int, self.height as int);
                }
            }
        }
    }

    fn is_visited(&self, coords: GridCoords) -> (r: bool)
        requires
            self.wf(),
            self.contains(coords),
        ensures
            r == self.visited(coords),
    {
        proof {
            lemma_flat_index_in_range(coords, self.width as int, self.height as int);
            assert(0 <= coords.y * self.width <= self.width * self.height) by (nonlinear_arith)
                requires
                    0 <= coords.y < self.height,
                    0 <= self.width,
            ;
        }
        let i = (coords.y * self.width + coords.x) as usize;
        match self.grid[i] {
            Visited::Unvisited => false,
            Visited::Visited { .. } => true,
        }
    }

    /// Every reached cell other than `root` was reached from a reached cell one step closer
    /// to `root`, as `dist` counts steps.
    spec fn chains_to(&self, root: GridCoords, dist: Map<GridCoords, nat>) -> bool {
        &&& self.wf()
        &&& forall|c: GridCoords| #[trigger] dist.contains_key(c) ==> self.contains(c)
        &&& forall|c: GridCoords| self.contains(c) ==> (#[trigger] self.visited(c) <==> dist.contains_key(c))
        &&& dist.contains_key(root)
        &&& dist[root] == 0
        &&& forall|c: GridCoords|
            #[trigger] dist.contains_key(c) && c != root ==> dist.contains_key(self.parent(c))
                && dist[self.parent(c)] + 1 == dist[c]
    }

    /// The path from `to_coords` (excluded) to `from_coords` (included), found by walking
    /// back from `from_coords` along the cells each was reached from.
    fn compile_path(
        &self,
        from_coords: GridCoords,
        to_coords: GridCoords,
        Ghost(dist): Ghost<Map<GridCoords, nat>>,
    ) -> (path: Vec<GridCoords>)
        requires
            self.chains_to(to_coords, dist),
            dist.contains_key(from_coords),
            from_coords != to_coords,
        ensures
            path@.len() == dist[from_coords],
            path@.last() == from_coords,
            self.parent(path@[0]) == to_coords,
            forall|k: int|
                0 <= k < path@.len() ==> dist.contains_key(#[trigger] path@[k]) && dist[path@[k]]
                    == k + 1,
            forall|k: int|
                0 <= k < path@.len() - 1 ==> self.parent(#[trigger] path@[k + 1]) == path@[k],
    {
        let mut backwards: Vec<GridCoords> = Vec::new();
        backwards.push(from_coords);
        let mut curr_coords = from_coords;
        loop
            invariant
                self.chains_to(to_coords, dist),
                dist.contains_key(from_coords),
                dist.contains_key(curr_coords),
                curr_coords != to_coords,
                backwards@.len() >= 1,
                backwards@[0] == from_coords,
                backwards@.len() + dist[curr_coords] == dist[from_coords] + 1,
                backwards@.last() == curr_coords,
                forall|k: int|
                    0 <= k < backwards@.len() ==> dist.contains_key(#[trigger] backwards@[k])
                        && dist[backwards@[k]] == dist[from_coords] - k,
                forall|k: int|
                    0 <= k < backwards@.len() - 1 ==> self.parent(#[trigger] backwards@[k])
                        == backwards@[k + 1],
            ensures
                self.parent(curr_coords) == to_coords,
            decreases dist[curr_coords],
        {
            proof {
                lemma_flat_index_in_range(curr_coords, self.width as int, self.height as int);
                assert(0 <= curr_coords.y * self.width <= self.width * self.height)
                    by (nonlinear_arith)
                    requires
                        0 <= curr_coords.y < self.height,
                        0 <= self.width,
                ;
                assert(self.visited(curr_coords));
            }
            let i = (curr_coords.y * self.width + curr_coords.x) as usize;
            let next = match self.grid[i] {
                Visited::Visited { from } => from,
                Visited::Unvisited => curr_coords,
            };
            assert(next == self.parent(curr_coords));
            if next != to_coords {
                let ghost before = backwards@;
                backwards.push(next);
                curr_coords = next;
                proof {
                    assert forall|k: int|
                        0 <= k < backwards@.len() - 1 implies self.parent(#[trigger] backwards@[k])
                        == backwards@[k + 1] by {
                        if k < before.len() - 1 {
                            assert(backwards@[k] == before[k]);
                        }
                    }
                }
            } else {
                break ;
            }
        }
        assert(dist[curr_coords] == 1);
        let n = backwards.len();
        let mut path: Vec<GridCoords> = Vec::new();
        let mut k: usize = 0;
        while k < n
            invariant
                n == backwards@.len(),
                k <= n,
                path@.len() == k,
                forall|m: int| 0 <= m < k ==> #[trigger] path@[m] == backwards@[n - 1 - m],
            decreases n - k,
        {
            path.push(backwards[n - 1 - k]);
            k = k + 1;
        }
        proof {
            assert(path@[n - 1] == backwards@[0]);
            assert forall|m: int| 0 <= m < path@.len() - 1 implies self.parent(
                #[trigger] path@[m + 1],
            ) == path@[m] by {
                assert(path@[m + 1] == backwards@[n - 2 - m]);
                assert(backwards@[(n - 2 - m) + 1] == backwards@[n - 1 - m]);
            }
            assert forall|m: int| 0 <= m < path@.len() implies dist.contains_key(
                #[trigger] path@[m],
            ) && dist[path@[m]] == m + 1 by {
                assert(path@[m] == backwards@[n - 1 - m]);
            }
        }
        path
    }
}

/// The move `(dx, dy)` tried `j`-th when leaving a cell: the four cardinal directions
/// first, then the four diagonals.
pub open spec fn spec_direction(j: int) -> (int, int) {
    if j == 0 {
        (0, 1)
    } else if j == 1 {
        (1, 0)
    } else if j == 2 {
        (0, -1)
    } else if j == 3 {
        (-1, 0)
    } else if j == 4 {
        (1, 1)
    } else if j == 5 {
        (-1, 1)
    } else if j == 6 {
        (1, -1)
    } else {
        (-1, -1)
    }
}

/// The cell reached from `c` by the `j`-th move.
pub open spec fn neighbor(c: GridCoords, j: int) -> GridCoords {
    GridCoords {
        x: (c.x + spec_direction(j).0) as i32,
        y: (c.y + spec_direction(j).1) as i32,
    }
}

/// A unit can move from `a` to the adjacent cell `b`: `b` lies inside the grid and is not a
/// wall, and a diagonal move does not cut the corner of a wall.
pub open spec fn step_ok(grid: ObstacleGrid, a: GridCoords, b: GridCoords) -> bool {
    let dx = b.x - a.x;
    let dy = b.y - a.y;
    &&& -1 <= dx <= 1
    &&& -1 <= dy <= 1
    &&& (dx != 0 || dy != 0)
    &&& grid.contains(b)
    &&& !(grid.cell(b) is Wall)
    &&& (dx != 0 && dy != 0) ==> !(grid.cell(GridCoords { x: b.x, y: a.y }) is Wall) && !(
    grid.cell(GridCoords { x: a.x, y: b.y }) is Wall)
}

/// A unit may move on from `c`: it lies inside the grid and holds neither a wall nor a building.
pub open spec fn passable(grid: ObstacleGrid, c: GridCoords) -> bool {
    &&& grid.contains(c)
    &&& !(grid.cell(c) is Wall)
    &&& !(grid.cell(c) is Building)
}

/// `p` lists the cells of a walk that leaves `start`, one move per cell, passing only
/// through passable cells before its last cell.
pub open spec fn is_walk(grid: ObstacleGrid, start: GridCoords, p: Seq<GridCoords>) -> bool {
    &&& p.len() >= 1
    &&& step_ok(grid, start, p[0])
    &&& forall|k: int|
        0 <= k < p.len() - 1 ==> #[trigger] step_ok(grid, p[k], p[k + 1]) && passable(grid, p[k])
}

/// `p` is a walk from `start` that ends on a building cell other than `start`.
pub open spec fn is_path_to_building(grid: ObstacleGrid, start: GridCoords, p: Seq<GridCoords>) -> bool {
    &&& is_walk(grid, start, p)
    &&& grid.cell(p.last()) is Building
    &&& p.last() != start
}

fn direction(j: usize) -> (d: (i32, i32))
    requires
        j < 8,
    ensures
        d.0 == spec_direction(j as int).0,
        d.1 == spec_direction(j as int).1,
{
    if j == 0 {
        (0, 1)
    } else if j == 1 {
        (1, 0)
    } else if j == 2 {
        (0, -1)
    } else if j == 3 {
        (-1, 0)
    } else if j == 4 {
        (1, 1)
    } else if j == 5 {
        (-1, 1)
    } else if j == 6 {
        (1, -1)
    } else {
        (-1, -1)
    }
}

/// Every move is one of the eight moves tried.
proof fn lemma_step_is_direction(grid: ObstacleGrid, a: GridCoords, b: GridCoords) -> (j: int)
    requires
        step_ok(grid, a, b),
    ensures
        0 <= j < 8,
        b == neighbor(a, j),
{
    let dx = b.x - a.x;
    let dy = b.y - a.y;
    let j = if dx == 0 && dy == 1 {
        0
    } else if dx == 1 && dy == 0 {
        1
    } else if dx == 0 && dy == -1 {
        2
    } else if dx == -1 && dy == 0 {
        3
    } else if dx == 1 && dy == 1 {
        4
    } else if dx == -1 && dy == 1 {
        5
    } else if dx == 1 && dy == -1 {
        6
    } else {
        7
    };
    assert(b == neighbor(a, j));
    j
}

/// Invariant of the breadth-first search: `dist` maps every reached cell to the number of
/// moves it was reached with, every reached cell other than `start` was reached by a move
/// from a cell one move closer and is passable, and every cell closer than `level` has had
/// all its moves tried.
spec fn search_inv(
    grid: ObstacleGrid,
    start: GridCoords,
    tracking: TrackingGrid,
    dist: Map<GridCoords, nat>,
    level: nat,
) -> bool {
    &&& grid.wf()
    &&& tracking.chains_to(start, dist)
    &&& tracking.width == grid.width
    &&& tracking.height == grid.height
    &&& forall|c: GridCoords|
        #[trigger] dist.contains_key(c) && c != start ==> step_ok(grid, tracking.parent(c), c)
            && passable(grid, c)
    &&& forall|c: GridCoords| #[trigger] dist.contains_key(c) ==> dist[c] <= level + 1
    &&& forall|c: GridCoords, b: GridCoords|
        #![trigger dist.contains_key(c), step_ok(grid, c, b)]
        dist.contains_key(c) && dist[c] < level && step_ok(grid, c, b) ==> dist.contains_key(b)
            && dist[b] <= dist[c] + 1
}

/// The first `level` cells of a walk from `start` have been reached, each within as many
/// moves as its position in the walk; when every reached cell is closer than `level`, all
/// cells of the walk have been reached.
proof fn lemma_walk_reached(
    grid: ObstacleGrid,
    start: GridCoords,
    tracking: TrackingGrid,
    dist: Map<GridCoords, nat>,
    level: nat,
    q: Seq<GridCoords>,
    k: int,
)
    requires
        search_inv(grid, start, tracking, dist, level),
        is_walk(grid, start, q),
        0 <= k < q.len(),
        k < level || forall|c: GridCoords| #[trigger] dist.contains_key(c) ==> dist[c] < level,
    ensures
        dist.contains_key(q[k]),
        k < level ==> dist[q[k]] <= k + 1,
    decreases k,
{
    if k == 0 {
        assert(dist.contains_key(start));
        assert(step_ok(grid, start, q[0]));
    } else {
        lemma_walk_reached(grid, start, tracking, dist, level, q, k - 1);
        assert(step_ok(grid, q[k - 1], q[k - 1 + 1]));
        assert(dist.contains_key(q[k - 1]));
    }
}

/// Finds a shortest walk from `start_coords` to the nearest building by a breadth-first
/// search over the eight moves; `None` when no building can be reached.
pub fn path_find_closest_building(grid: &ObstacleGrid, start_coords: GridCoords) -> (r: Option<
    Vec<GridCoords>,
>)
    requires
        grid.wf(),
        grid.contains(start_coords),
    ensures
        match r {
            Some(path) => is_path_to_building(*grid, start_coords, path@) && forall|q: Seq<GridCoords>|
                #[trigger] is_path_to_building(*grid, start_coords, q) ==> path@.len() <= q.len(),
            None => forall|q: Seq<GridCoords>| !#[trigger] is_path_to_building(*grid, start_coords, q),
        },
{
    let mut tracking = TrackingGrid::new(grid.width, grid.height);
    tracking.set_visited(start_coords, start_coords);
    let ghost mut dist: Map<GridCoords, nat> = Map::empty().insert(start_coords, 0nat);
    let ghost mut level: nat = 0;
    proof {
        assert forall|c: GridCoords| tracking.contains(c) implies (#[trigger] tracking.visited(c)
            <==> dist.contains_key(c)) by {
            if c != start_coords {
                lemma_flat_index_in_range(c, tracking.width as int, tracking.height as int);
            }
        }
    }
    let mut frontier: Vec<GridCoords> = Vec::new();
    frontier.push(start_coords);
    assert(frontier@[0] == start_coords);
    while frontier.len() > 0
        invariant
            search_inv(*grid, start_coords, tracking, dist, level),
            forall|c: GridCoords| #[trigger] dist.contains_key(c) ==> dist[c] <= level,
            forall|k: int|
                0 <= k < frontier@.len() ==> dist.contains_key(#[trigger] frontier@[k])
                    && dist[frontier@[k]] == level,
            forall|c: GridCoords|
                #[trigger] dist.contains_key(c) && dist[c] == level ==> frontier@.contains(c),
        decreases count_unvisited(tracking.grid@) + frontier@.len(),
    {
        let ghost count0 = count_unvisited(tracking.grid@);
        let ghost dist0 = dist;
        let mut next: Vec<GridCoords> = Vec::new();
        let mut i: usize = 0;
        while i < frontier.len()
            invariant
                search_inv(*grid, start_coords, tracking, dist, level),
                i <= frontier@.len(),
                forall|c: GridCoords| #[trigger] dist0.contains_key(c) ==> dist.contains_key(c)
                    && dist[c] == dist0[c],
                forall|c: GridCoords|
                    #[trigger] dist.contains_key(c) && !dist0.contains_key(c) ==> dist[c] == level
                        + 1,
                forall|c: GridCoords| #[trigger] dist0.contains_key(c) ==> dist0[c] <= level,
                forall|k: int|
                    0 <= k < frontier@.len() ==> dist0.contains_key(#[trigger] frontier@[k])
                        && dist0[frontier@[k]] == level,
                forall|c: GridCoords|
                    #[trigger] dist0.contains_key(c) && dist0[c] == level ==> frontier@.contains(c),
                forall|k: int|
                    0 <= k < next@.len() ==> dist.contains_key(#[trigger] next@[k]) && dist[next@[k]]
                        == level + 1,
                forall|c: GridCoords|
                    #[trigger] dist.contains_key(c) && dist[c] == level + 1 ==> next@.contains(c),
                forall|k: int, b: GridCoords|
                    #![trigger frontier@[k], step_ok(*grid, frontier@[k], b)]
                    0 <= k < i && step_ok(*grid, frontier@[k], b) ==> dist.contains_key(b)
                        && dist[b] <= level + 1,
                count_unvisited(tracking.grid@) + next@.len() == count0,
            decreases frontier@.len() - i,
        {
            let coords = frontier[i];
            let mut j: usize = 0;
            while j < 8
                invariant
                    search_inv(*grid, start_coords, tracking, dist, level),
                    i < frontier@.len(),
                    coords == frontier@[i as int],
                    j <= 8,
                    forall|c: GridCoords| #[trigger] dist0.contains_key(c) ==> dist.contains_key(c)
                        && dist[c] == dist0[c],
                    forall|c: GridCoords|
                        #[trigger] dist.contains_key(c) && !dist0.contains_key(c) ==> dist[c] == level
                            + 1,
                    forall|c: GridCoords| #[trigger] dist0.contains_key(c) ==> dist0[c] <= level,
                    forall|k: int|
                        0 <= k < frontier@.len() ==> dist0.contains_key(#[trigger] frontier@[k])
                            && dist0[frontier@[k]] == level,
                    forall|c: GridCoords|
                        #[trigger] dist0.contains_key(c) && dist0[c] == level ==> frontier@.contains(
                            c,
                        ),
                    forall|k: int|
                        0 <= k < next@.len() ==> dist.contains_key(#[trigger] next@[k])
                            && dist[next@[k]] == level + 1,
                    forall|c: GridCoords|
                        #[trigger] dist.contains_key(c) && dist[c] == level + 1 ==> next@.contains(c),
                    forall|k: int, b: GridCoords|
                        #![trigger frontier@[k], step_ok(*grid, frontier@[k], b)]
                        0 <= k < i && step_ok(*grid, frontier@[k], b) ==> dist.contains_key(b)
                            && dist[b] <= level + 1,
                    forall|jj: int|
                        0 <= jj < j && #[trigger] step_ok(*grid, coords, neighbor(coords, jj))
                            ==> dist.contains_key(neighbor(coords, jj)) && dist[neighbor(coords, jj)]
                            <= level + 1,
                    count_unvisited(tracking.grid@) + next@.len() == count0,
                decreases 8 - j,
            {
                let ghost tracking0 = tracking;
                let ghost dist_before = dist;
                assert(dist.contains_key(coords));
                assert(grid.contains(coords));
                let (dx, dy) = direction(j);
                let new_coords = GridCoords { x: coords.x + dx, y: coords.y + dy };
                assert(new_coords == neighbor(coords, j as int));
                if !new_coords.is_in_bounds(grid.bounds()) {
                    j = j + 1;
                    continue ;
                }
                if tracking.is_visited(new_coords) {
                    j = j + 1;
                    continue ;
                }
                if grid.get(new_coords).is_wall() {
                    j = j + 1;
                    continue ;
                }
                if dx != 0 && dy != 0 {
                    // A diagonal move is allowed only if both adjacent fields are not walls.
                    let adjacent_x = GridCoords { x: coords.x + dx, y: coords.y };
                    let adjacent_y = GridCoords { x: coords.x, y: coords.y + dy };
                    if grid.get(adjacent_x).is_wall() || grid.get(adjacent_y).is_wall() {
                        j = j + 1;
                        continue ;
                    }
                }
                assert(step_ok(*grid, coords, new_coords));
                assert(!dist.contains_key(new_coords));
                tracking.set_visited(new_coords, coords);
                proof {
                    dist = dist.insert(new_coords, level + 1);
                    assert forall|c: GridCoords| tracking.contains(c) implies (
                    #[trigger] tracking.visited(c) <==> dist.contains_key(c)) by {
                        if c != new_coords {
                            assert(tracking0.visited(c) <==> dist_before.contains_key(c));
                        }
                    }
                    assert forall|c: GridCoords|
                        #[trigger] dist.contains_key(c) && c != start_coords implies dist.contains_key(
                        tracking.parent(c),
                    ) && dist[tracking.parent(c)] + 1 == dist[c] by {
                        if c != new_coords {
                            assert(dist_before.contains_key(c));
                            assert(tracking.parent(c) == tracking0.parent(c));
                        }
                    }
                    assert(tracking.chains_to(start_coords, dist));
                }
                if grid.get(new_coords).is_building() {
                    let path = tracking.compile_path(new_coords, start_coords, Ghost(dist));
                    proof {
                        lemma_found_path(
                            *grid,
                            start_coords,
                            tracking0,
                            dist_before,
                            tracking,
                            dist,
                            level,
                            new_coords,
                            coords,
                            path@,
                        );
                    }
                    return Some(path);
                }
                let ghost next_before = next@;
                next.push(new_coords);
                proof {
                    assert forall|c: GridCoords|
                        #[trigger] dist.contains_key(c) && c != start_coords implies step_ok(
                        *grid,
                        tracking.parent(c),
                        c,
                    ) && passable(*grid, c) by {
                        if c != new_coords {
                            assert(dist_before.contains_key(c));
                            assert(tracking.parent(c) == tracking0.parent(c));
                        }
                    }
                    assert forall|c: GridCoords, b: GridCoords|
                        #![trigger dist.contains_key(c), step_ok(*grid, c, b)]
                        dist.contains_key(c) && dist[c] < level && step_ok(
                        *grid,
                        c,
                        b,
                    ) implies dist.contains_key(b) && dist[b] <= dist[c] + 1 by {
                        assert(dist_before.contains_key(c));
                    }
                    assert forall|c: GridCoords|
                        #[trigger] dist.contains_key(c) && dist[c] == level + 1 implies next@.contains(
                        c,
                    ) by {
                        if c == new_coords {
                            assert(next@[next@.len() - 1] == c);
                        } else {
                            assert(dist_before.contains_key(c));
                            let k = choose|k: int| 0 <= k < next_before.len() && next_before[k] == c;
                            assert(next@[k] == c);
                        }
                    }
                }
                j = j + 1;
            }
            proof {
                assert forall|k: int, b: GridCoords|
                    #![trigger frontier@[k], step_ok(*grid, frontier@[k], b)]
                    0 <= k < i + 1 && step_ok(*grid, frontier@[k], b) implies dist.contains_key(b)
                        && dist[b] <= level + 1 by {
                    if k == i {
                        let jj = lemma_step_is_direction(*grid, coords, b);
                    }
                }
            }
            i = i + 1;
        }
        proof {
            assert forall|c: GridCoords, b: GridCoords|
                #![trigger dist.contains_key(c), step_ok(*grid, c, b)]
                dist.contains_key(c) && dist[c] < level + 1 && step_ok(
                *grid,
                c,
                b,
            ) implies dist.contains_key(b) && dist[b] <= dist[c] + 1 by {
                assert(dist0.contains_key(c));
                if dist[c] == level {
                    let k = choose|k: int| 0 <= k < frontier@.len() && frontier@[k] == c;
                    assert(step_ok(*grid, frontier@[k], b));
                }
            }
        }
        frontier = next;
        proof {
            level = level + 1;
        }
    }
    proof {
        assert forall|c: GridCoords| #[trigger] dist.contains_key(c) implies dist[c] < level by {
            if dist[c] == level {
                assert(frontier@.contains(c));
            }
        }
        assert forall|q: Seq<GridCoords>| !#[trigger] is_path_to_building(*grid, start_coords, q) by {
            if is_path_to_building(*grid, start_coords, q) {
                lemma_walk_reached(*grid, start_coords, tracking, dist, level, q, q.len() - 1);
            }
        }
    }
    None
}

/// The path compiled when the search reaches building `b` from `from` is a walk to the
/// building, and no walk to a building is shorter.
proof fn lemma_found_path(
    grid: ObstacleGrid,
    start: GridCoords,
    tracking0: TrackingGrid,
    dist0: Map<GridCoords, nat>,
    tracking: TrackingGrid,
    dist: Map<GridCoords, nat>,
    level: nat,
    b: GridCoords,
    from: GridCoords,
    path: Seq<GridCoords>,
)
    requires
        search_inv(grid, start, tracking0, dist0, level),
        dist0.contains_key(from),
        dist0[from] == level,
        !dist0.contains_key(b),
        step_ok(grid, from, b),
        grid.cell(b) is Building,
        dist == dist0.insert(b, level + 1),
        tracking.parent(b) == from,
        forall|c: GridCoords|
            tracking0.contains(c) && c != b ==> #[trigger] tracking.cell(c) == tracking0.cell(c),
        path.len() == dist[b],
        path.last() == b,
        tracking.parent(path[0]) == start,
        forall|k: int|
            0 <= k < path.len() ==> dist.contains_key(#[trigger] path[k]) && dist[path[k]] == k + 1,
        forall|k: int| 0 <= k < path.len() - 1 ==> tracking.parent(#[trigger] path[k + 1]) == path[k],
    ensures
        is_path_to_building(grid, start, path),
        forall|q: Seq<GridCoords>| #[trigger] is_path_to_building(grid, start, q) ==> path.len() <= q.len(),
{
    lemma_found_path_is_walk(grid, start, tracking0, dist0, tracking, dist, level, b, from, path);
    assert forall|q: Seq<GridCoords>| #[trigger] is_path_to_building(grid, start, q) implies path.len()
        <= q.len() by {
        if q.len() <= level {
            lemma_walk_reached(grid, start, tracking0, dist0, level, q, q.len() - 1);
            assert(passable(grid, q.last()));
        }
    }
}

proof fn lemma_found_path_is_walk(
    grid: ObstacleGrid,
    start: GridCoords,
    tracking0: TrackingGrid,
    dist0: Map<GridCoords, nat>,
    tracking: TrackingGrid,
    dist: Map<GridCoords, nat>,
    level: nat,
    b: GridCoords,
    from: GridCoords,
    path: Seq<GridCoords>,
)
    requires
        tracking0.chains_to(start, dist0),
        forall|c: GridCoords|
            #[trigger] dist0.contains_key(c) && c != start ==> step_ok(grid, tracking0.parent(c), c)
                && passable(grid, c),
        !dist0.contains_key(b),
        step_ok(grid, from, b),
        grid.cell(b) is Building,
        dist == dist0.insert(b, level + 1),
        tracking.parent(b) == from,
        forall|c: GridCoords|
            tracking0.contains(c) && c != b ==> #[trigger] tracking.cell(c) == tracking0.cell(c),
        path.len() == level + 1,
        path.last() == b,
        tracking.parent(path[0]) == start,
        forall|k: int|
            0 <= k < path.len() ==> dist.contains_key(#[trigger] path[k]) && dist[path[k]] == k + 1,
        forall|k: int| 0 <= k < path.len() - 1 ==> tracking.parent(#[trigger] path[k + 1]) == path[k],
    ensures
        is_path_to_building(grid, start, path),
{
    assert(b != start) by {
        assert(dist0.contains_key(start));
    }
    assert forall|k: int| 0 <= k < path.len() - 1 implies #[trigger] dist0.contains_key(path[k])
        && path[k] != start by {
        assert(dist.contains_key(path[k]));
        assert(dist[path[k]] == k + 1);
        assert(path[k] != b);
        assert(dist0[start] == 0);
    }
    if path.len() > 1 {
        assert(dist0.contains_key(path[0]) && path[0] != start);
        assert(tracking0.contains(path[0]));
        assert(tracking.cell(path[0]) == tracking0.cell(path[0]));
    } else {
        assert(path[0] == b);
    }
    assert(step_ok(grid, start, path[0]));
    assert forall|k: int| 0 <= k < path.len() - 1 implies #[trigger] step_ok(
        grid,
        path[k],
        path[k + 1],
    ) && passable(grid, path[k]) by {
        assert(dist0.contains_key(path[k]) && path[k] != start);
        if k + 1 < path.len() - 1 {
            assert(dist0.contains_key(path[k + 1]) && path[k + 1] != start);
            assert(tracking0.contains(path[k + 1]));
            assert(tracking.cell(path[k + 1]) == tracking0.cell(path[k + 1]));
        } else {
            assert(path[k + 1] == b);
        }
    }
}

} // verus!
