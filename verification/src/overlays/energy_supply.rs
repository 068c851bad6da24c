use vstd::prelude::*;
use crate::common::Entity;
use crate::grids::base::{flat_index, lemma_flat_index_in_range, lemma_flat_index_injective};
use crate::grids::common::{GridCoords, GridImprint, covered_cells, imprint_area, imprint_fits_i32, in_bounds};
use crate::grids::energy_supply::EnergySupplyGrid;
use crate::grids::base::{FieldTrait, GridVersion};
use crate::buildings::common_components::BuildingType;
use crate::inventory::almanach::Almanach;

verus! {

/// Whether the energy supply overlay is displayed.
#[derive(Clone, Copy, Debug, PartialEq, Eq, Structural)]
pub enum EnergySupplyOverlayState {
    Hide,
    Show,
}

impl Default for EnergySupplyOverlayState {
    fn default() -> (r: Self)
        ensures
            r == EnergySupplyOverlayState::Hide,
    {
        EnergySupplyOverlayState::Hide
    }
}

/// Marks the entity that shows the energy supply heatmap.
#[derive(Clone, Copy, Debug, Default)]
pub struct EnergySupplyOverlay;

/// How strongly a supplied cell is drawn.
#[derive(Clone, Copy, Debug, PartialEq, Eq, Structural)]
pub enum HighlightLevel {
    /// No supply: completely transparent.
    Unlit,
    /// Supplied, but another building is highlighted.
    Dimmed,
    /// Supplied by the highlighted building, or every supply is shown.
    Highlighted,
}

impl HighlightLevel {
    pub open spec fn spec_value(self) -> u32 {
        match self {
            HighlightLevel::Unlit => 0,
            HighlightLevel::Dimmed => 1,
            HighlightLevel::Highlighted => 2,
        }
    }

    /// The number the shader reads for this level.
    pub fn value(&self) -> (r: u32)
        ensures
            r == self.spec_value(),
    {
        match self {
            HighlightLevel::Unlit => 0,
            HighlightLevel::Dimmed => 1,
            HighlightLevel::Highlighted => 2,
        }
    }
}

/// One cell of the heatmap buffer handed to the GPU.
#[derive(Clone, Copy, Debug, PartialEq, Eq, Structural)]
pub struct EnergySupplyCell {
    /// 1 when the cell has energy supply.
    pub has_supply: u32,
    /// 1 when the cell is connected to the power network.
    pub has_power: u32,
    /// The cell's `HighlightLevel` as a number.
    pub highlight_level: u32,
}

pub open spec fn spec_cell_none() -> EnergySupplyCell {
    EnergySupplyCell { has_supply: 0, has_power: 0, highlight_level: 0 }
}

pub open spec fn spec_cell_with_supply(has_power: bool, level: HighlightLevel) -> EnergySupplyCell {
    EnergySupplyCell {
        has_supply: 1,
        has_power: if has_power {
            1
        } else {
            0
        },
        highlight_level: level.spec_value(),
    }
}

impl EnergySupplyCell {
    /// A cell without energy supply.
    pub fn none() -> (r: Self)
        ensures
            r == spec_cell_none(),
    {
        EnergySupplyCell { has_supply: 0, has_power: 0, highlight_level: 0 }
    }

    /// A supplied cell with the given power status and highlight.
    pub fn with_supply(has_power: bool, highlight_level: HighlightLevel) -> (r: Self)
        ensures
            r == spec_cell_with_supply(has_power, highlight_level),
    {
        EnergySupplyCell {
            has_supply: 1,
            has_power: if has_power {
                1
            } else {
                0
            },
            highlight_level: highlight_level.value(),
        }
    }
}

/// The overlay cell of a grid cell with the given suppliers: unsupplied cells are blank; when a
/// supplier is highlighted, only the cells it supplies are at full color and the others dimmed.
pub open spec fn overlay_cell(
    suppliers: Set<Entity>,
    powered: bool,
    highlight_supplier: Option<Entity>,
) -> EnergySupplyCell {
    if suppliers.is_empty() {
        spec_cell_none()
    } else {
        spec_cell_with_supply(
            powered,
            match highlight_supplier {
                Some(s) => if suppliers.contains(s) {
                    HighlightLevel::Highlighted
                } else {
                    HighlightLevel::Dimmed
                },
                None => HighlightLevel::Highlighted,
            },
        )
    }
}

/// The overlay cell of `c` when nothing is being placed.
pub open spec fn base_cell(
    grid: EnergySupplyGrid,
    power_grid: Seq<bool>,
    highlight_supplier: Option<Entity>,
    c: GridCoords,
) -> EnergySupplyCell {
    overlay_cell(
        grid.cell(c).suppliers(),
        power_grid[flat_index(c, grid.width as int)],
        highlight_supplier,
    )
}

/// The move `(dx, dy)` of the `j`-th cardinal direction.
pub open spec fn cardinal_direction(j: int) -> (int, int) {
    if j == 0 {
        (0, 1)
    } else if j == 1 {
        (1, 0)
    } else if j == 2 {
        (0, -1)
    } else {
        (-1, 0)
    }
}

/// The cell next to `c` in the `j`-th cardinal direction.
pub open spec fn cardinal_neighbor(c: GridCoords, j: int) -> GridCoords {
    GridCoords {
        x: (c.x + cardinal_direction(j).0) as i32,
        y: (c.y + cardinal_direction(j).1) as i32,
    }
}

/// Cell `c` is reached within `n` steps by a flood that starts at the cells of `start` and
/// spreads to cardinal neighbours inside the `width` x `height` grid for which `allowed` holds.
pub open spec fn flood_reach(
    width: int,
    height: int,
    start: Seq<GridCoords>,
    allowed: spec_fn(GridCoords) -> bool,
    n: nat,
    c: GridCoords,
) -> bool
    decreases n,
{
    if n == 0 {
        start.contains(c)
    } else {
        let m = (n - 1) as nat;
        ||| flood_reach(width, height, start, allowed, m, c)
        ||| in_bounds(c, width, height) && allowed(c) && (flood_reach(
            width,
            height,
            start,
            allowed,
            m,
            cardinal_neighbor(c, 0),
        ) || flood_reach(width, height, start, allowed, m, cardinal_neighbor(c, 1))
            || flood_reach(width, height, start, allowed, m, cardinal_neighbor(c, 2))
            || flood_reach(width, height, start, allowed, m, cardinal_neighbor(c, 3)))
    }
}

/// The grid dimensions are valid and every start cell lies inside the grid.
pub open spec fn flood_start_ok(width: int, height: int, start: Seq<GridCoords>) -> bool {
    &&& 0 <= width <= i32::MAX
    &&& 0 <= height <= i32::MAX
    &&& forall|k: int| 0 <= k < start.len() ==> in_bounds(#[trigger] start[k], width, height)
}

/// Only cells inside the grid are reached.
pub proof fn lemma_flood_in_bounds(
    width: int,
    height: int,
    start: Seq<GridCoords>,
    allowed: spec_fn(GridCoords) -> bool,
    n: nat,
    c: GridCoords,
)
    requires
        flood_start_ok(width, height, start),
        flood_reach(width, height, start, allowed, n, c),
    ensures
        in_bounds(c, width, height),
    decreases n,
{
    if n == 0 {
        let k = choose|k: int| 0 <= k < start.len() && start[k] == c;
    } else if flood_reach(width, height, start, allowed, (n - 1) as nat, c) {
        lemma_flood_in_bounds(width, height, start, allowed, (n - 1) as nat, c);
    }
}

/// A cell reached within `n` steps is reached within any larger number of steps.
pub proof fn lemma_flood_monotone(
    width: int,
    height: int,
    start: Seq<GridCoords>,
    allowed: spec_fn(GridCoords) -> bool,
    n: nat,
    m: nat,
    c: GridCoords,
)
    requires
        n <= m,
        flood_reach(width, height, start, allowed, n, c),
    ensures
        flood_reach(width, height, start, allowed, m, c),
    decreases m,
{
    if n < m {
        lemma_flood_monotone(width, height, start, allowed, n, (m - 1) as nat, c);
    }
}

/// Going one cell in a cardinal direction and back returns to the same cell.
pub proof fn lemma_cardinal_back(c: GridCoords, j: int, width: int, height: int)
    requires
        0 <= j < 4,
        in_bounds(c, width, height),
        width <= i32::MAX,
        height <= i32::MAX,
    ensures
        cardinal_neighbor(cardinal_neighbor(c, j), (j + 2) % 4) == c,
{
}

/// A cell next to a reached cell is reached one step later, when it lies inside the grid and
/// the flood may spread to it.
pub proof fn lemma_flood_step(
    width: int,
    height: int,
    start: Seq<GridCoords>,
    allowed: spec_fn(GridCoords) -> bool,
    n: nat,
    f: GridCoords,
    j: int,
)
    requires
        flood_start_ok(width, height, start),
        0 <= j < 4,
        flood_reach(width, height, start, allowed, n, f),
        in_bounds(cardinal_neighbor(f, j), width, height),
        allowed(cardinal_neighbor(f, j)),
    ensures
        flood_reach(width, height, start, allowed, n + 1, cardinal_neighbor(f, j)),
{
    lemma_flood_in_bounds(width, height, start, allowed, n, f);
    lemma_cardinal_back(f, j, width, height);
    let nb = cardinal_neighbor(f, j);
    let back = (j + 2) % 4;
    assert(cardinal_neighbor(nb, back) == f);
    if back == 0 {
        assert(flood_reach(width, height, start, allowed, n, cardinal_neighbor(nb, 0)));
    } else if back == 1 {
        assert(flood_reach(width, height, start, allowed, n, cardinal_neighbor(nb, 1)));
    } else if back == 2 {
        assert(flood_reach(width, height, start, allowed, n, cardinal_neighbor(nb, 2)));
    } else {
        assert(flood_reach(width, height, start, allowed, n, cardinal_neighbor(nb, 3)));
    }
}

/// A cell first reached at step `n + 1` lies next to a cell first reached at step `n`.
pub proof fn lemma_flood_new_from_new(
    width: int,
    height: int,
    start: Seq<GridCoords>,
    allowed: spec_fn(GridCoords) -> bool,
    n: nat,
    c: GridCoords,
) -> (j: int)
    requires
        flood_reach(width, height, start, allowed, n + 1, c),
        !flood_reach(width, height, start, allowed, n, c),
    ensures
        0 <= j < 4,
        in_bounds(c, width, height),
        allowed(c),
        flood_reach(width, height, start, allowed, n, cardinal_neighbor(c, j)),
        n > 0 ==> !flood_reach(
            width,
            height,
            start,
            allowed,
            (n - 1) as nat,
            cardinal_neighbor(c, j),
        ),
{
    let j = if flood_reach(width, height, start, allowed, n, cardinal_neighbor(c, 0)) {
        0
    } else if flood_reach(width, height, start, allowed, n, cardinal_neighbor(c, 1)) {
        1
    } else if flood_reach(width, height, start, allowed, n, cardinal_neighbor(c, 2)) {
        2
    } else {
        3
    };
    if n > 0 {
        let m = (n - 1) as nat;
        if flood_reach(width, height, start, allowed, m, cardinal_neighbor(c, j)) {
            assert(flood_reach(width, height, start, allowed, n, c));
        }
    }
    j
}

/// Once a step reaches no new cell, no later step does either.
pub proof fn lemma_flood_fixpoint(
    width: int,
    height: int,
    start: Seq<GridCoords>,
    allowed: spec_fn(GridCoords) -> bool,
    k: nat,
    m: nat,
)
    requires
        k <= m,
        forall|c: GridCoords|
            #[trigger] flood_reach(width, height, start, allowed, k + 1, c) ==> flood_reach(
                width,
                height,
                start,
                allowed,
                k,
                c,
            ),
    ensures
        forall|c: GridCoords|
            #[trigger] flood_reach(width, height, start, allowed, m, c) ==> flood_reach(
                width,
                height,
                start,
                allowed,
                k,
                c,
            ),
    decreases m,
{
    if m > k {
        lemma_flood_fixpoint(width, height, start, allowed, k, (m - 1) as nat);
        assert forall|c: GridCoords| #[trigger]
            flood_reach(width, height, start, allowed, m, c) implies flood_reach(
            width,
            height,
            start,
            allowed,
            k,
            c,
        ) by {
            let p = (m - 1) as nat;
            if !flood_reach(width, height, start, allowed, p, c) {
                if flood_reach(width, height, start, allowed, p, cardinal_neighbor(c, 0)) {
                    assert(flood_reach(width, height, start, allowed, k, cardinal_neighbor(c, 0)));
                } else if flood_reach(width, height, start, allowed, p, cardinal_neighbor(c, 1)) {
                    assert(flood_reach(width, height, start, allowed, k, cardinal_neighbor(c, 1)));
                } else if flood_reach(width, height, start, allowed, p, cardinal_neighbor(c, 2)) {
                    assert(flood_reach(width, height, start, allowed, k, cardinal_neighbor(c, 2)));
                } else {
                    assert(m == p + 1);
                    assert(flood_reach(width, height, start, allowed, p, cardinal_neighbor(c, 3)));
                    assert(flood_reach(width, height, start, allowed, k, cardinal_neighbor(c, 3)));
                }
                assert(flood_reach(width, height, start, allowed, k + 1, c));
            }
        }
    }
}

/// Number of unset entries of `s`.
pub open spec fn count_unset(s: Seq<bool>) -> nat
    decreases s.len(),
{
    if s.len() == 0 {
        0
    } else {
        count_unset(s.drop_last()) + if s.last() {
            0nat
        } else {
            1nat
        }
    }
}

proof fn lemma_count_unset_update(s: Seq<bool>, i: int)
    requires
        0 <= i < s.len(),
    ensures
        !s[i] ==> count_unset(s.update(i, true)) + 1 == count_unset(s),
        s[i] ==> count_unset(s.update(i, true)) == count_unset(s),
    decreases s.len(),
{
    if i == s.len() - 1 {
        assert(s.update(i, true).drop_last() =~= s.drop_last());
    } else {
        assert(s.update(i, true).drop_last() =~= s.drop_last().update(i, true));
        lemma_count_unset_update(s.drop_last(), i);
    }
}

fn cardinal(j: usize) -> (d: (i32, i32))
    requires
        j < 4,
    ensures
        d.0 == cardinal_direction(j as int).0,
        d.1 == cardinal_direction(j as int).1,
{
    if j == 0 {
        (0, 1)
    } else if j == 1 {
        (1, 0)
    } else if j == 2 {
        (0, -1)
    } else {
        (-1, 0)
    }
}

/// The state of a flood after `k` steps: exactly the cells reached are marked visited, the
/// reached cells hold `mark` and the others `orig`, and `frontier` holds reached cells,
/// among them every cell first reached at step `k`.
pub open spec fn flood_state(
    width: int,
    height: int,
    start: Seq<GridCoords>,
    allowed: spec_fn(GridCoords) -> bool,
    mark: spec_fn(GridCoords) -> EnergySupplyCell,
    orig: spec_fn(GridCoords) -> EnergySupplyCell,
    k: nat,
    visited: crate::grids::visited::VisitedGrid,
    buffer: Seq<EnergySupplyCell>,
    frontier: Seq<GridCoords>,
) -> bool {
    &&& flood_start_ok(width, height, start)
    &&& visited.wf()
    &&& visited.width == width
    &&& visited.height == height
    &&& buffer.len() == width * height
    &&& forall|c: GridCoords|
        in_bounds(c, width, height) ==> (#[trigger] visited.cell(c) <==> flood_reach(
            width,
            height,
            start,
            allowed,
            k,
            c,
        ))
    &&& forall|c: GridCoords|
        in_bounds(c, width, height) ==> #[trigger] buffer[flat_index(c, width)] == if flood_reach(
            width,
            height,
            start,
            allowed,
            k,
            c,
        ) {
            mark(c)
        } else {
            orig(c)
        }
    &&& forall|i: int|
        0 <= i < frontier.len() ==> flood_reach(width, height, start, allowed, k, #[trigger] frontier[i])
    &&& forall|c: GridCoords|
        #[trigger] flood_reach(width, height, start, allowed, k, c) && (k == 0 || !flood_reach(
            width,
            height,
            start,
            allowed,
            (k - 1) as nat,
            c,
        )) ==> frontier.contains(c)
}

/// How the buffer changes when a cell is first reached: in the first pass (`powered` false) a
/// cell not yet drawn at full highlight becomes a highlighted supplied cell; in the second pass
/// the flood spreads over highlighted cells only and marks them as powered.
pub open spec fn flood_pass_ok(
    powered: bool,
    start: Seq<GridCoords>,
    allowed: spec_fn(GridCoords) -> bool,
    mark: spec_fn(GridCoords) -> EnergySupplyCell,
    orig: spec_fn(GridCoords) -> EnergySupplyCell,
) -> bool {
    &&& forall|c: GridCoords|
        #[trigger] start.contains(c) ==> mark(c) == spec_cell_with_supply(
            powered,
            HighlightLevel::Highlighted,
        )
    &&& !powered ==> forall|c: GridCoords| #[trigger] allowed(c)
    &&& !powered ==> forall|c: GridCoords|
        !start.contains(c) ==> #[trigger] mark(c) == if orig(c).highlight_level != 2 {
            spec_cell_with_supply(false, HighlightLevel::Highlighted)
        } else {
            orig(c)
        }
    &&& powered ==> forall|c: GridCoords| #[trigger] allowed(c) == (orig(c).highlight_level == 2)
    &&& powered ==> forall|c: GridCoords|
        #[trigger] mark(c) == spec_cell_with_supply(true, HighlightLevel::Highlighted)
}

/// Marks the start cells: they are visited, written with `mark`, and form the first frontier.
fn seed_flood(
    start_coords: &Vec<GridCoords>,
    powered: bool,
    visited: &mut crate::grids::visited::VisitedGrid,
    buffer: &mut Vec<EnergySupplyCell>,
    Ghost(allowed): Ghost<spec_fn(GridCoords) -> bool>,
    Ghost(mark): Ghost<spec_fn(GridCoords) -> EnergySupplyCell>,
    Ghost(orig): Ghost<spec_fn(GridCoords) -> EnergySupplyCell>,
) -> (frontier: Vec<GridCoords>)
    requires
        flood_start_ok(old(visited).width as int, old(visited).height as int, start_coords@),
        old(visited).wf(),
        old(visited).is_cleared(),
        old(buffer)@.len() == old(visited).width * old(visited).height,
        forall|c: GridCoords|
            in_bounds(c, old(visited).width as int, old(visited).height as int)
                ==> #[trigger] old(buffer)@[flat_index(c, old(visited).width as int)] == orig(c),
        flood_pass_ok(powered, start_coords@, allowed, mark, orig),
    ensures
        final(visited).width == old(visited).width,
        final(visited).height == old(visited).height,
        flood_state(
            old(visited).width as int,
            old(visited).height as int,
            start_coords@,
            allowed,
            mark,
            orig,
            0,
            *final(visited),
            final(buffer)@,
            frontier@,
        ),
        frontier@ == start_coords@,
        count_unset(final(visited).grid@) + frontier@.len() >= count_unset(old(visited).grid@),
{
    let ghost width = visited.width as int;
    let ghost height = visited.height as int;
    let ghost start = start_coords@;
    let ghost count0 = count_unset(visited.grid@);
    let mut frontier: Vec<GridCoords> = Vec::new();
    let mut i: usize = 0;
    proof {
        assert(start.subrange(0, 0) =~= Seq::<GridCoords>::empty());
        assert forall|c: GridCoords| in_bounds(c, width, height) implies !#[trigger] visited.cell(
            c,
        ) by {
            lemma_flat_index_in_range(c, width, height);
            assert(!visited.grid@[flat_index(c, width)].spec_is_default() == visited.cell(c));
        }
    }
    while i < start_coords.len()
        invariant
            flood_start_ok(width, height, start),
            start == start_coords@,
            visited.wf(),
            visited.width == width,
            visited.height == height,
            buffer@.len() == width * height,
            i <= start.len(),
            frontier@ == start.subrange(0, i as int),
            forall|c: GridCoords|
                in_bounds(c, width, height) ==> (#[trigger] visited.cell(c) <==> start.subrange(
                    0,
                    i as int,
                ).contains(c)),
            forall|c: GridCoords|
                in_bounds(c, width, height) ==> #[trigger] buffer@[flat_index(c, width)]
                    == if start.subrange(0, i as int).contains(c) {
                    mark(c)
                } else {
                    orig(c)
                },
            flood_pass_ok(powered, start, allowed, mark, orig),
            count_unset(visited.grid@) + i >= count0,
        decreases start.len() - i,
    {
        let s = start_coords[i];
        assert(in_bounds(s, width, height));
        let ghost visited0 = *visited;
        let ghost buffer0 = buffer@;
        let idx = visited.index(s);
        proof {
            lemma_count_unset_update(visited.grid@, idx as int);
        }
        visited.set(s, true);
        buffer.set(idx, EnergySupplyCell::with_supply(powered, HighlightLevel::Highlighted));
        frontier.push(s);
        proof {
            assert(start.contains(s)) by {
                assert(start[i as int] == s);
            }
            assert(start.subrange(0, i + 1) =~= start.subrange(0, i as int).push(s));
            assert forall|c: GridCoords| in_bounds(c, width, height) implies (
            #[trigger] visited.cell(c) <==> start.subrange(0, i + 1).contains(c)) by {
                if c != s {
                    assert(visited.cell(c) == visited0.cell(c));
                    if start.subrange(0, i + 1).contains(c) {
                        let sub1 = start.subrange(0, i + 1);
                        let t = choose|t: int| 0 <= t < sub1.len() && #[trigger] sub1[t] == c;
                        assert(start.subrange(0, i as int)[t] == c);
                    }
                } else {
                    assert(start.subrange(0, i + 1)[i as int] == s);
                }
            }
            assert forall|c: GridCoords| in_bounds(c, width, height) implies #[trigger] buffer@[flat_index(c, width)]
                == if start.subrange(0, i + 1).contains(c) {
                mark(c)
            } else {
                orig(c)
            } by {
                if c != s {
                    lemma_flat_index_in_range(c, width, height);
                    lemma_flat_index_in_range(s, width, height);
                    if flat_index(c, width) == flat_index(s, width) {
                        lemma_flat_index_injective(c, s, width, height);
                    }
                    assert(buffer@[flat_index(c, width)] == buffer0[flat_index(c, width)]);
                    if start.subrange(0, i + 1).contains(c) {
                        let sub1 = start.subrange(0, i + 1);
                        let t = choose|t: int| 0 <= t < sub1.len() && #[trigger] sub1[t] == c;
                        assert(start.subrange(0, i as int)[t] == c);
                    }
                } else {
                    assert(start.subrange(0, i + 1)[i as int] == s);
                }
            }
        }
        i = i + 1;
    }
    proof {
        assert(start.subrange(0, start.len() as int) =~= start);
        assert forall|k: int| 0 <= k < frontier@.len() implies flood_reach(
            width,
            height,
            start,
            allowed,
            0,
            #[trigger] frontier@[k],
        ) by {
            assert(start[k] == frontier@[k]);
        }
    }
    frontier
}

/// One step of a flood: every allowed, not yet visited cardinal neighbour of a frontier cell is
/// visited and written, and the cells so reached form the next frontier.
fn expand_flood(
    frontier: &Vec<GridCoords>,
    powered: bool,
    visited: &mut crate::grids::visited::VisitedGrid,
    buffer: &mut Vec<EnergySupplyCell>,
    Ghost(start): Ghost<Seq<GridCoords>>,
    Ghost(allowed): Ghost<spec_fn(GridCoords) -> bool>,
    Ghost(mark): Ghost<spec_fn(GridCoords) -> EnergySupplyCell>,
    Ghost(orig): Ghost<spec_fn(GridCoords) -> EnergySupplyCell>,
    Ghost(k): Ghost<nat>,
) -> (next: Vec<GridCoords>)
    requires
        flood_state(
            old(visited).width as int,
            old(visited).height as int,
            start,
            allowed,
            mark,
            orig,
            k,
            *old(visited),
            old(buffer)@,
            frontier@,
        ),
        flood_pass_ok(powered, start, allowed, mark, orig),
    ensures
        final(visited).width == old(visited).width,
        final(visited).height == old(visited).height,
        flood_state(
            old(visited).width as int,
            old(visited).height as int,
            start,
            allowed,
            mark,
            orig,
            k + 1,
            *final(visited),
            final(buffer)@,
            next@,
        ),
        count_unset(final(visited).grid@) + next@.len() == count_unset(old(visited).grid@),
{
    let ghost width = visited.width as int;
    let ghost height = visited.height as int;
    let ghost count0 = count_unset(visited.grid@);
    let ghost frontier_s = frontier@;
    let mut next: Vec<GridCoords> = Vec::new();
    let mut i: usize = 0;
    while i < frontier.len()
        invariant
            flood_start_ok(width, height, start),
            flood_pass_ok(powered, start, allowed, mark, orig),
            frontier_s == frontier@,
            visited.wf(),
            visited.width == width,
            visited.height == height,
            buffer@.len() == width * height,
            i <= frontier@.len(),
            forall|t: int|
                0 <= t < frontier@.len() ==> flood_reach(
                    width,
                    height,
                    start,
                    allowed,
                    k,
                    #[trigger] frontier@[t],
                ),
            forall|c: GridCoords|
                in_bounds(c, width, height) ==> (#[trigger] visited.cell(c) <==> (flood_reach(
                    width,
                    height,
                    start,
                    allowed,
                    k,
                    c,
                ) || next@.contains(c))),
            forall|c: GridCoords|
                in_bounds(c, width, height) ==> #[trigger] buffer@[flat_index(c, width)] == if (
                flood_reach(width, height, start, allowed, k, c) || next@.contains(c)) {
                    mark(c)
                } else {
                    orig(c)
                },
            forall|t: int|
                0 <= t < next@.len() ==> flood_reach(
                    width,
                    height,
                    start,
                    allowed,
                    k + 1,
                    #[trigger] next@[t],
                ) && !flood_reach(width, height, start, allowed, k, next@[t]),
            forall|ii: int, jj: int|
                #![trigger cardinal_neighbor(frontier@[ii], jj)]
                0 <= ii < i && 0 <= jj < 4 && in_bounds(
                    cardinal_neighbor(frontier@[ii], jj),
                    width,
                    height,
                ) && allowed(cardinal_neighbor(frontier@[ii], jj)) ==> visited.cell(
                    cardinal_neighbor(frontier@[ii], jj),
                ),
            count_unset(visited.grid@) + next@.len() == count0,
        decreases frontier@.len() - i,
    {
        let cur = frontier[i];
        proof {
            lemma_flood_in_bounds(width, height, start, allowed, k, cur);
        }
        let mut j: usize = 0;
        while j < 4
            invariant
                flood_start_ok(width, height, start),
                flood_pass_ok(powered, start, allowed, mark, orig),
                frontier_s == frontier@,
                visited.wf(),
                visited.width == width,
                visited.height == height,
                buffer@.len() == width * height,
                i < frontier@.len(),
                cur == frontier@[i as int],
                in_bounds(cur, width, height),
                flood_reach(width, height, start, allowed, k, cur),
                j <= 4,
                forall|t: int|
                    0 <= t < frontier@.len() ==> flood_reach(
                        width,
                        height,
                        start,
                        allowed,
                        k,
                        #[trigger] frontier@[t],
                    ),
                forall|c: GridCoords|
                    in_bounds(c, width, height) ==> (#[trigger] visited.cell(c) <==> (flood_reach(
                        width,
                        height,
                        start,
                        allowed,
                        k,
                        c,
                    ) || next@.contains(c))),
                forall|c: GridCoords|
                    in_bounds(c, width, height) ==> #[trigger] buffer@[flat_index(c, width)] == if (
                    flood_reach(width, height, start, allowed, k, c) || next@.contains(c)) {
                        mark(c)
                    } else {
                        orig(c)
                    },
                forall|t: int|
                    0 <= t < next@.len() ==> flood_reach(
                        width,
                        height,
                        start,
                        allowed,
                        k + 1,
                        #[trigger] next@[t],
                    ) && !flood_reach(width, height, start, allowed, k, next@[t]),
                forall|ii: int, jj: int|
                    #![trigger cardinal_neighbor(frontier@[ii], jj)]
                    0 <= ii < i && 0 <= jj < 4 && in_bounds(
                        cardinal_neighbor(frontier@[ii], jj),
                        width,
                        height,
                    ) && allowed(cardinal_neighbor(frontier@[ii], jj)) ==> visited.cell(
                        cardinal_neighbor(frontier@[ii], jj),
                    ),
                forall|jj: int|
                    0 <= jj < j && in_bounds(#[trigger] cardinal_neighbor(cur, jj), width, height)
                        && allowed(cardinal_neighbor(cur, jj)) ==> visited.cell(
                        cardinal_neighbor(cur, jj),
                    ),
                count_unset(visited.grid@) + next@.len() == count0,
            decreases 4 - j,
        {
            let (dx, dy) = cardinal(j);
            let nb = GridCoords { x: cur.x + dx, y: cur.y + dy };
            assert(nb == cardinal_neighbor(cur, j as int));
            if nb.is_in_bounds(visited.bounds()) && !visited.is_visited(nb) {
                let idx = visited.index(nb);
                let ghost visited0 = *visited;
                let ghost buffer0 = buffer@;
                let ghost next0 = next@;
                assert(!flood_reach(width, height, start, allowed, k, nb));
                assert(!next@.contains(nb));
                assert(buffer@[idx as int] == orig(nb));
                let visit = if powered {
                    buffer[idx].highlight_level == 2
                } else {
                    true
                };
                if visit {
                    proof {
                        lemma_count_unset_update(visited.grid@, idx as int);
                        lemma_flood_step(width, height, start, allowed, k, cur, j as int);
                        if start.contains(nb) {
                            lemma_flood_monotone(width, height, start, allowed, 0, k, nb);
                        }
                    }
                    visited.set(nb, true);
                    if powered {
                        buffer.set(idx, EnergySupplyCell::with_supply(true, HighlightLevel::Highlighted));
                    } else if buffer[idx].highlight_level != 2 {
                        buffer.set(idx, EnergySupplyCell::with_supply(false, HighlightLevel::Highlighted));
                    }
                    next.push(nb);
                    proof {
                        assert(next@ == next0.push(nb));
                        assert(buffer@[idx as int] == mark(nb));
                        assert forall|c: GridCoords| in_bounds(c, width, height) implies (
                        #[trigger] visited.cell(c) <==> (flood_reach(
                            width,
                            height,
                            start,
                            allowed,
                            k,
                            c,
                        ) || next@.contains(c))) by {
                            if c != nb {
                                assert(visited.cell(c) == visited0.cell(c));
                                if next@.contains(c) {
                                    let t = choose|t: int| 0 <= t < next@.len() && #[trigger] next@[t] == c;
                                    assert(next0[t] == c);
                                }
                                if next0.contains(c) {
                                    let t = choose|t: int| 0 <= t < next0.len() && #[trigger] next0[t] == c;
                                    assert(next@[t] == c);
                                }
                            } else {
                                assert(next@[next@.len() - 1] == nb);
                            }
                        }
                        assert forall|c: GridCoords| in_bounds(c, width, height) implies #[trigger] buffer@[flat_index(c, width)]
                            == if (flood_reach(width, height, start, allowed, k, c)
                            || next@.contains(c)) {
                            mark(c)
                        } else {
                            orig(c)
                        } by {
                            if c != nb {
                                lemma_flat_index_in_range(c, width, height);
                                if flat_index(c, width) == flat_index(nb, width) {
                                    lemma_flat_index_injective(c, nb, width, height);
                                }
                                assert(buffer@[flat_index(c, width)] == buffer0[flat_index(c, width)]);
                                if next@.contains(c) {
                                    let t = choose|t: int| 0 <= t < next@.len() && #[trigger] next@[t] == c;
                                    assert(next0[t] == c);
                                }
                                if next0.contains(c) {
                                    let t = choose|t: int| 0 <= t < next0.len() && #[trigger] next0[t] == c;
                                    assert(next@[t] == c);
                                }
                            } else {
                                assert(next@[next@.len() - 1] == nb);
                            }
                        }
                        assert forall|ii: int, jj: int|
                            #![trigger cardinal_neighbor(frontier@[ii], jj)]
                            0 <= ii < i && 0 <= jj < 4 && in_bounds(
                                cardinal_neighbor(frontier@[ii], jj),
                                width,
                                height,
                            ) && allowed(cardinal_neighbor(frontier@[ii], jj)) implies visited.cell(
                            cardinal_neighbor(frontier@[ii], jj),
                        ) by {
                            let c = cardinal_neighbor(frontier@[ii], jj);
                            if c != nb {
                                assert(visited.cell(c) == visited0.cell(c));
                            }
                        }
                        assert forall|jj: int|
                            0 <= jj < j + 1 && in_bounds(
                                #[trigger] cardinal_neighbor(cur, jj),
                                width,
                                height,
                            ) && allowed(cardinal_neighbor(cur, jj)) implies visited.cell(
                            cardinal_neighbor(cur, jj),
                        ) by {
                            let c = cardinal_neighbor(cur, jj);
                            if c != nb {
                                assert(visited.cell(c) == visited0.cell(c));
                            }
                        }
                    }
                } else {
                    assert(!allowed(nb));
                }
            }
            j = j + 1;
        }
        i = i + 1;
    }
    proof {
        assert forall|c: GridCoords| in_bounds(c, width, height) implies (flood_reach(
            width,
            height,
            start,
            allowed,
            k + 1,
            c,
        ) <==> (flood_reach(width, height, start, allowed, k, c) || next@.contains(c))) by {
            if flood_reach(width, height, start, allowed, k, c) {
                lemma_flood_monotone(width, height, start, allowed, k, k + 1, c);
            } else if next@.contains(c) {
                let t = choose|t: int| 0 <= t < next@.len() && #[trigger] next@[t] == c;
            } else if flood_reach(width, height, start, allowed, k + 1, c) {
                let j = lemma_flood_new_from_new(width, height, start, allowed, k, c);
                let d = cardinal_neighbor(c, j);
                assert(frontier@.contains(d));
                let ii = choose|ii: int| 0 <= ii < frontier@.len() && #[trigger] frontier@[ii] == d;
                lemma_cardinal_back(c, j, width, height);
                let back = (j + 2) % 4;
                assert(cardinal_neighbor(frontier@[ii], back) == c);
                assert(visited.cell(c));
            }
        }
        assert forall|c: GridCoords| in_bounds(c, width, height) implies (#[trigger] visited.cell(c)
            <==> flood_reach(width, height, start, allowed, k + 1, c)) by {
        }
        assert forall|c: GridCoords| in_bounds(c, width, height) implies #[trigger] buffer@[flat_index(c, width)]
            == if flood_reach(width, height, start, allowed, k + 1, c) {
            mark(c)
        } else {
            orig(c)
        } by {
        }
        assert forall|c: GridCoords| #[trigger]
            flood_reach(width, height, start, allowed, k + 1, c) && (k + 1 == 0 || !flood_reach(
                width,
                height,
                start,
                allowed,
                (k + 1 - 1) as nat,
                c,
            )) implies next@.contains(c) by {
            lemma_flood_in_bounds(width, height, start, allowed, k + 1, c);
            assert((k + 1 - 1) as nat == k);
        }
    }
    next
}

/// A flood whose frontier ran empty reaches nothing new in the next step.
proof fn lemma_flood_stalled(
    width: int,
    height: int,
    start: Seq<GridCoords>,
    allowed: spec_fn(GridCoords) -> bool,
    mark: spec_fn(GridCoords) -> EnergySupplyCell,
    orig: spec_fn(GridCoords) -> EnergySupplyCell,
    k: nat,
    visited: crate::grids::visited::VisitedGrid,
    buffer: Seq<EnergySupplyCell>,
    frontier: Seq<GridCoords>,
)
    requires
        flood_state(width, height, start, allowed, mark, orig, k, visited, buffer, frontier),
        frontier.len() == 0,
    ensures
        forall|c: GridCoords|
            #[trigger] flood_reach(width, height, start, allowed, k + 1, c) ==> flood_reach(
                width,
                height,
                start,
                allowed,
                k,
                c,
            ),
{
    assert forall|c: GridCoords| #[trigger]
        flood_reach(width, height, start, allowed, k + 1, c) implies flood_reach(
        width,
        height,
        start,
        allowed,
        k,
        c,
    ) by {
        if !flood_reach(width, height, start, allowed, k, c) {
            let j = lemma_flood_new_from_new(width, height, start, allowed, k, c);
            let d = cardinal_neighbor(c, j);
            assert(frontier.contains(d));
        }
    }
}

/// The flood used while placing a supplier spreads to every cell.
pub open spec fn spread_anywhere() -> spec_fn(GridCoords) -> bool {
    |c: GridCoords| true
}

/// Cell `c` lies within `n` steps of the cells of `start`.
pub open spec fn within_range(grid: EnergySupplyGrid, start: Seq<GridCoords>, n: nat, c: GridCoords) -> bool {
    flood_reach(grid.width as int, grid.height as int, start, spread_anywhere(), n, c)
}

/// The overlay cell of `c` once the supply of a supplier placed on `start` with `range` is
/// drawn: the placed cells and the unhighlighted cells within range become highlighted
/// supplied cells without power.
pub open spec fn placed_cell(
    grid: EnergySupplyGrid,
    power_grid: Seq<bool>,
    start: Seq<GridCoords>,
    range: nat,
    c: GridCoords,
) -> EnergySupplyCell {
    let b = base_cell(grid, power_grid, None, c);
    if within_range(grid, start, range, c) && (start.contains(c) || b.highlight_level != 2) {
        spec_cell_with_supply(false, HighlightLevel::Highlighted)
    } else {
        b
    }
}

/// Some cell just beyond the range of the placed supplier is connected to the power network.
pub open spec fn power_at_range_boundary(
    grid: EnergySupplyGrid,
    power_grid: Seq<bool>,
    start: Seq<GridCoords>,
    range: nat,
) -> bool {
    exists|c: GridCoords|
        in_bounds(c, grid.width as int, grid.height as int) && #[trigger] within_range(
            grid,
            start,
            range + 1,
            c,
        ) && !within_range(grid, start, range, c) && power_grid[flat_index(c, grid.width as int)]
}

/// The flood that spreads power goes over highlighted cells only.
pub open spec fn spread_over_highlight(
    grid: EnergySupplyGrid,
    power_grid: Seq<bool>,
    start: Seq<GridCoords>,
    range: nat,
) -> spec_fn(GridCoords) -> bool {
    |c: GridCoords| placed_cell(grid, power_grid, start, range, c).highlight_level == 2
}

/// Cell `c` is joined to the placed supplier through highlighted cells.
pub open spec fn connected_to_placement(
    grid: EnergySupplyGrid,
    power_grid: Seq<bool>,
    start: Seq<GridCoords>,
    range: nat,
    c: GridCoords,
) -> bool {
    exists|n: nat|
        #[trigger] flood_reach(
            grid.width as int,
            grid.height as int,
            start,
            spread_over_highlight(grid, power_grid, start, range),
            n,
            c,
        )
}

/// The overlay cell of `c` while a supplier is being placed on `start` with `range`: when its
/// supply would reach the power network, every cell joined to it through highlighted cells is
/// shown as powered.
pub open spec fn placing_overlay_cell(
    grid: EnergySupplyGrid,
    power_grid: Seq<bool>,
    start: Seq<GridCoords>,
    range: nat,
    c: GridCoords,
) -> EnergySupplyCell {
    if power_at_range_boundary(grid, power_grid, start, range) && connected_to_placement(
        grid,
        power_grid,
        start,
        range,
        c,
    ) {
        spec_cell_with_supply(true, HighlightLevel::Highlighted)
    } else {
        placed_cell(grid, power_grid, start, range, c)
    }
}

/// `b` is one cell up, right, down or left of `a`.
pub open spec fn cardinally_adjacent(a: GridCoords, b: GridCoords) -> bool {
    ||| a.x == b.x && (b.y == a.y + 1 || b.y == a.y - 1)
    ||| a.y == b.y && (b.x == a.x + 1 || b.x == a.x - 1)
}

/// `path` starts on a cell of `start` and goes by cardinal steps, every cell of it lying inside
/// the `width` x `height` grid and shown highlighted in `cells` (stored row by row).
pub open spec fn highlighted_walk(
    cells: Seq<EnergySupplyCell>,
    width: int,
    height: int,
    start: Seq<GridCoords>,
    path: Seq<GridCoords>,
) -> bool {
    &&& path.len() > 0
    &&& start.contains(path[0])
    &&& forall|i: int|
        0 <= i < path.len() ==> in_bounds(#[trigger] path[i], width, height)
            && cells[flat_index(path[i], width)].highlight_level == 2
    &&& forall|i: int| #![trigger path[i]] 0 < i < path.len() ==> cardinally_adjacent(path[i - 1], path[i])
}

/// The cells of a walk that starts on the placed supplier and only steps onto highlighted
/// cells are all joined to the placement, however long the walk.
proof fn lemma_walk_joined(
    grid: EnergySupplyGrid,
    power_grid: Seq<bool>,
    start: Seq<GridCoords>,
    range: nat,
    cells: Seq<EnergySupplyCell>,
    path: Seq<GridCoords>,
    k: int,
)
    requires
        flood_start_ok(grid.width as int, grid.height as int, start),
        forall|c: GridCoords|
            #[trigger] in_bounds(c, grid.width as int, grid.height as int) ==> cells[flat_index(
                c,
                grid.width as int,
            )] == placing_overlay_cell(grid, power_grid, start, range, c),
        power_at_range_boundary(grid, power_grid, start, range),
        highlighted_walk(cells, grid.width as int, grid.height as int, start, path),
        0 <= k < path.len(),
    ensures
        connected_to_placement(grid, power_grid, start, range, path[k]),
    decreases k,
{
    let width = grid.width as int;
    let height = grid.height as int;
    let allowed = spread_over_highlight(grid, power_grid, start, range);
    if k == 0 {
        assert(flood_reach(width, height, start, allowed, 0, path[0]));
    } else {
        lemma_walk_joined(grid, power_grid, start, range, cells, path, k - 1);
        let a = path[k - 1];
        let b = path[k];
        assert(cardinally_adjacent(a, b));
        assert(in_bounds(a, width, height) && in_bounds(b, width, height));
        if !connected_to_placement(grid, power_grid, start, range, b) {
            assert(cells[flat_index(b, width)] == placed_cell(grid, power_grid, start, range, b));
            assert(allowed(b));
            let n = choose|n: nat| #[trigger] flood_reach(width, height, start, allowed, n, a);
            let j: int = if b.y == a.y + 1 && b.x == a.x {
                0
            } else if b.x == a.x + 1 && b.y == a.y {
                1
            } else if b.y == a.y - 1 && b.x == a.x {
                2
            } else {
                3
            };
            assert(cardinal_neighbor(a, j) == b);
            lemma_flood_step(width, height, start, allowed, n, a, j);
            assert(flood_reach(width, height, start, allowed, n + 1, b));
        }
    }
}

/// While a supplier is being placed and its supply reaches the power network, power spreads
/// from it along highlighted cells without limit of distance: in the overlay drawn for the
/// placement, the end of every walk from a placed cell by cardinal steps over cells shown
/// highlighted is shown powered, however far it leads beyond the supplier's range.
pub proof fn lemma_power_spreads_along_highlighted_walks(
    grid: EnergySupplyGrid,
    power_grid: Seq<bool>,
    start: Seq<GridCoords>,
    range: nat,
    cells: Seq<EnergySupplyCell>,
    path: Seq<GridCoords>,
)
    requires
        flood_start_ok(grid.width as int, grid.height as int, start),
        forall|c: GridCoords|
            #[trigger] in_bounds(c, grid.width as int, grid.height as int) ==> cells[flat_index(
                c,
                grid.width as int,
            )] == placing_overlay_cell(grid, power_grid, start, range, c),
        power_at_range_boundary(grid, power_grid, start, range),
        highlighted_walk(cells, grid.width as int, grid.height as int, start, path),
    ensures
        cells[flat_index(path.last(), grid.width as int)].has_power == 1,
        cells[flat_index(path.last(), grid.width as int)].has_supply == 1,
{
    lemma_walk_joined(grid, power_grid, start, range, cells, path, path.len() - 1);
    assert(in_bounds(path.last(), grid.width as int, grid.height as int));
}

/// Builds the heatmap buffer of the energy supply overlay from an energy supply grid and the
/// cells, in storage order, that are connected to the power network.
pub struct OverlayBufferCreator<'a> {
    pub energy_supply_grid: &'a EnergySupplyGrid,
    pub power_grid: &'a Vec<bool>,
}

impl<'a> OverlayBufferCreator<'a> {
    pub open spec fn wf(&self) -> bool {
        &&& self.energy_supply_grid.wf()
        &&& self.power_grid@.len() == self.energy_supply_grid.grid@.len()
    }

    pub fn new(energy_supply_grid: &'a EnergySupplyGrid, power_grid: &'a Vec<bool>) -> (r: Self)
        ensures
            r.energy_supply_grid == energy_supply_grid,
            r.power_grid == power_grid,
    {
        OverlayBufferCreator { energy_supply_grid, power_grid }
    }

    /// The overlay cell of the grid cell stored at `idx`.
    pub fn create_cell_for_grid_field(&self, idx: usize, highlight_supplier: Option<Entity>) -> (r:
        EnergySupplyCell)
        requires
            self.wf(),
            idx < self.energy_supply_grid.grid@.len(),
        ensures
            r == overlay_cell(
                self.energy_supply_grid.grid@[idx as int].suppliers(),
                self.power_grid@[idx as int],
                highlight_supplier,
            ),
    {
        let grid_field = &self.energy_supply_grid.grid[idx];
        if !grid_field.has_supply() {
            return EnergySupplyCell::none();
        }
        let highlight_level = match highlight_supplier {
            Some(supplier) => if grid_field.has_supplier(supplier) {
                HighlightLevel::Highlighted
            } else {
                HighlightLevel::Dimmed
            },
            None => HighlightLevel::Highlighted,
        };
        EnergySupplyCell::with_supply(self.power_grid[idx], highlight_level)
    }

    /// The overlay cell of every grid cell, in storage order.
    pub fn generate_buffer_data(&self, highlight_supplier: Option<Entity>) -> (r: Vec<
        EnergySupplyCell,
    >)
        requires
            self.wf(),
        ensures
            r@.len() == self.energy_supply_grid.grid@.len(),
            forall|i: int|
                0 <= i < r@.len() ==> #[trigger] r@[i] == overlay_cell(
                    self.energy_supply_grid.grid@[i].suppliers(),
                    self.power_grid@[i],
                    highlight_supplier,
                ),
    {
        let buffer_size = self.energy_supply_grid.grid.len();
        let mut buffer_data: Vec<EnergySupplyCell> = Vec::new();
        let mut idx: usize = 0;
        while idx < buffer_size
            invariant
                self.wf(),
                buffer_size == self.energy_supply_grid.grid@.len(),
                idx <= buffer_size,
                buffer_data@.len() == idx,
                forall|i: int|
                    0 <= i < idx ==> #[trigger] buffer_data@[i] == overlay_cell(
                        self.energy_supply_grid.grid@[i].suppliers(),
                        self.power_grid@[i],
                        highlight_supplier,
                    ),
            decreases buffer_size - idx,
        {
            buffer_data.push(self.create_cell_for_grid_field(idx, highlight_supplier));
            idx = idx + 1;
        }
        buffer_data
    }

    /// Whether an unreached cell next to the frontier of a flood that went `range` steps is
    /// connected to the power network.
    fn frontier_touches_power(
        &self,
        frontier: &Vec<GridCoords>,
        visited: &crate::grids::visited::VisitedGrid,
        Ghost(start): Ghost<Seq<GridCoords>>,
        Ghost(mark): Ghost<spec_fn(GridCoords) -> EnergySupplyCell>,
        Ghost(orig): Ghost<spec_fn(GridCoords) -> EnergySupplyCell>,
        Ghost(buffer): Ghost<Seq<EnergySupplyCell>>,
        Ghost(range): Ghost<nat>,
    ) -> (r: bool)
        requires
            self.wf(),
            flood_state(
                self.energy_supply_grid.width as int,
                self.energy_supply_grid.height as int,
                start,
                spread_anywhere(),
                mark,
                orig,
                range,
                *visited,
                buffer,
                frontier@,
            ),
        ensures
            r == power_at_range_boundary(*self.energy_supply_grid, self.power_grid@, start, range),
    {
        let ghost grid = *self.energy_supply_grid;
        let ghost width = grid.width as int;
        let ghost height = grid.height as int;
        let ghost anywhere = spread_anywhere();
        let mut i: usize = 0;
        while i < frontier.len()
            invariant
                self.wf(),
                grid == *self.energy_supply_grid,
                width == grid.width,
                height == grid.height,
                anywhere == spread_anywhere(),
                flood_state(width, height, start, anywhere, mark, orig, range, *visited, buffer, frontier@),
                i <= frontier@.len(),
                forall|ii: int, jj: int|
                    #![trigger cardinal_neighbor(frontier@[ii], jj)]
                    0 <= ii < i && 0 <= jj < 4 && in_bounds(cardinal_neighbor(frontier@[ii], jj), width, height)
                        && !visited.cell(cardinal_neighbor(frontier@[ii], jj)) ==> !self.power_grid@[flat_index(
                        cardinal_neighbor(frontier@[ii], jj),
                        width,
                    )],
            decreases frontier@.len() - i,
        {
            let cur = frontier[i];
            proof {
                lemma_flood_in_bounds(width, height, start, anywhere, range, cur);
            }
            let mut j: usize = 0;
            while j < 4
                invariant
                    self.wf(),
                    grid == *self.energy_supply_grid,
                    width == grid.width,
                    height == grid.height,
                    anywhere == spread_anywhere(),
                    flood_state(width, height, start, anywhere, mark, orig, range, *visited, buffer, frontier@),
                    i < frontier@.len(),
                    cur == frontier@[i as int],
                    in_bounds(cur, width, height),
                    j <= 4,
                    forall|ii: int, jj: int|
                        #![trigger cardinal_neighbor(frontier@[ii], jj)]
                        0 <= ii < i && 0 <= jj < 4 && in_bounds(cardinal_neighbor(frontier@[ii], jj), width, height)
                            && !visited.cell(cardinal_neighbor(frontier@[ii], jj)) ==> !self.power_grid@[flat_index(
                            cardinal_neighbor(frontier@[ii], jj),
                            width,
                        )],
                    forall|jj: int|
                        0 <= jj < j && in_bounds(#[trigger] cardinal_neighbor(cur, jj), width, height)
                            && !visited.cell(cardinal_neighbor(cur, jj)) ==> !self.power_grid@[flat_index(
                            cardinal_neighbor(cur, jj),
                            width,
                        )],
                decreases 4 - j,
            {
                let (dx, dy) = cardinal(j);
                let nb = GridCoords { x: cur.x + dx, y: cur.y + dy };
                assert(nb == cardinal_neighbor(cur, j as int));
                if nb.is_in_bounds(visited.bounds()) && !visited.is_visited(nb) {
                    let idx = visited.index(nb);
                    if self.power_grid[idx] {
                        proof {
                            assert(anywhere(nb));
                            lemma_flood_step(width, height, start, anywhere, range, cur, j as int);
                            assert(within_range(grid, start, range + 1, nb));
                        }
                        return true;
                    }
                }
                j = j + 1;
            }
            i = i + 1;
        }
        proof {
            assert forall|c: GridCoords|
                in_bounds(c, width, height) && #[trigger] within_range(grid, start, range + 1, c)
                    && !within_range(grid, start, range, c) implies !self.power_grid@[flat_index(
                c,
                width,
            )] by {
                let j = lemma_flood_new_from_new(width, height, start, anywhere, range, c);
                let d = cardinal_neighbor(c, j);
                assert(frontier@.contains(d));
                let ii = choose|ii: int| 0 <= ii < frontier@.len() && #[trigger] frontier@[ii] == d;
                lemma_cardinal_back(c, j, width, height);
                let back = (j + 2) % 4;
                assert(cardinal_neighbor(frontier@[ii], back) == c);
                assert(!visited.cell(c));
            }
        }
        false
    }

    /// The overlay buffer while a supplier with `range` is being placed on `start_coords`:
    /// every cell within `range` steps of the placed cells is drawn as supplied and
    /// highlighted, cells drawn so already keeping their power status. When a cell one step
    /// beyond the range is connected to the power network, every cell joined to the placed
    /// cells through highlighted cells is drawn as powered, as the new supplier may bridge
    /// stranded suppliers to the network. The grid itself is not changed.
    pub fn flood_potential_energy_supply_to_overlay_heatmap(
        &self,
        start_coords: &Vec<GridCoords>,
        range: usize,
    ) -> (r: Vec<EnergySupplyCell>)
        requires
            self.wf(),
            flood_start_ok(
                self.energy_supply_grid.width as int,
                self.energy_supply_grid.height as int,
                start_coords@,
            ),
        ensures
            r@.len() == self.energy_supply_grid.grid@.len(),
            forall|c: GridCoords|
                #[trigger] self.energy_supply_grid.contains(c) ==> r@[flat_index(
                    c,
                    self.energy_supply_grid.width as int,
                )] == placing_overlay_cell(
                    *self.energy_supply_grid,
                    self.power_grid@,
                    start_coords@,
                    range as nat,
                    c,
                ),
            power_at_range_boundary(
                *self.energy_supply_grid,
                self.power_grid@,
                start_coords@,
                range as nat,
            ) ==> forall|path: Seq<GridCoords>|
                #[trigger] highlighted_walk(
                    r@,
                    self.energy_supply_grid.width as int,
                    self.energy_supply_grid.height as int,
                    start_coords@,
                    path,
                ) ==> r@[flat_index(path.last(), self.energy_supply_grid.width as int)].has_power == 1,
    {
        let ghost grid = *self.energy_supply_grid;
        let ghost power = self.power_grid@;
        let ghost start = start_coords@;
        let ghost width = grid.width as int;
        let ghost height = grid.height as int;
        let ghost anywhere = spread_anywhere();
        let ghost orig1 = |c: GridCoords| base_cell(grid, power, None, c);
        let ghost mark1 = |c: GridCoords|
            if start.contains(c) || base_cell(grid, power, None, c).highlight_level != 2 {
                spec_cell_with_supply(false, HighlightLevel::Highlighted)
            } else {
                base_cell(grid, power, None, c)
            };
        let mut buffer = self.generate_buffer_data(None);
        let (w, h) = self.energy_supply_grid.bounds();
        let mut visited = crate::grids::visited::VisitedGrid::new_with_size(w, h);
        proof {
            assert forall|c: GridCoords| in_bounds(c, width, height) implies #[trigger] buffer@[flat_index(c, width)]
                == orig1(c) by {
                lemma_flat_index_in_range(c, width, height);
            }
        }
        let mut frontier = seed_flood(
            start_coords,
            false,
            &mut visited,
            &mut buffer,
            Ghost(anywhere),
            Ghost(mark1),
            Ghost(orig1),
        );
        let mut level: usize = 0;
        while level < range && frontier.len() > 0
            invariant
                self.wf(),
                grid == *self.energy_supply_grid,
                power == self.power_grid@,
                start == start_coords@,
                width == grid.width,
                height == grid.height,
                anywhere == spread_anywhere(),
                flood_pass_ok(false, start, anywhere, mark1, orig1),
                flood_state(width, height, start, anywhere, mark1, orig1, level as nat, visited, buffer@, frontier@),
                level <= range,
            decreases range - level,
        {
            frontier = expand_flood(
                &frontier,
                false,
                &mut visited,
                &mut buffer,
                Ghost(start),
                Ghost(anywhere),
                Ghost(mark1),
                Ghost(orig1),
                Ghost(level as nat),
            );
            level = level + 1;
        }
        proof {
            if frontier@.len() == 0 {
                lemma_flood_stalled(width, height, start, anywhere, mark1, orig1, level as nat, visited, buffer@, frontier@);
                lemma_flood_fixpoint(width, height, start, anywhere, level as nat, range as nat);
                lemma_flood_fixpoint(width, height, start, anywhere, level as nat, (range + 1) as nat);
            }
            assert forall|c: GridCoords| in_bounds(c, width, height) implies #[trigger] buffer@[flat_index(c, width)]
                == placed_cell(grid, power, start, range as nat, c) by {
                if within_range(grid, start, range as nat, c) {
                    if !flood_reach(width, height, start, anywhere, level as nat, c) {
                        assert(frontier@.len() == 0);
                    }
                } else if flood_reach(width, height, start, anywhere, level as nat, c) {
                    lemma_flood_monotone(width, height, start, anywhere, level as nat, range as nat, c);
                }
            }
        }
        let has_power = if frontier.len() > 0 {
            self.frontier_touches_power(
                &frontier,
                &visited,
                Ghost(start),
                Ghost(mark1),
                Ghost(orig1),
                Ghost(buffer@),
                Ghost(range as nat),
            )
        } else {
            proof {
                assert forall|c: GridCoords|
                    in_bounds(c, width, height) && #[trigger] within_range(grid, start, (range + 1) as nat, c)
                        implies within_range(grid, start, range as nat, c) by {
                    lemma_flood_monotone(width, height, start, anywhere, level as nat, range as nat, c);
                }
            }
            false
        };
        assert(has_power == power_at_range_boundary(grid, power, start, range as nat));
        if has_power {
            let ghost allowed2 = spread_over_highlight(grid, power, start, range as nat);
            let ghost orig2 = |c: GridCoords| placed_cell(grid, power, start, range as nat, c);
            let ghost mark2 = |c: GridCoords| spec_cell_with_supply(true, HighlightLevel::Highlighted);
            let mut visited2 = crate::grids::visited::VisitedGrid::new_with_size(w, h);
            let mut frontier2 = seed_flood(
                start_coords,
                true,
                &mut visited2,
                &mut buffer,
                Ghost(allowed2),
                Ghost(mark2),
                Ghost(orig2),
            );
            let ghost mut level2: nat = 0;
            while frontier2.len() > 0
                invariant
                    flood_pass_ok(true, start, allowed2, mark2, orig2),
                    flood_state(width, height, start, allowed2, mark2, orig2, level2, visited2, buffer@, frontier2@),
                decreases count_unset(visited2.grid@) + frontier2@.len(),
            {
                frontier2 = expand_flood(
                    &frontier2,
                    true,
                    &mut visited2,
                    &mut buffer,
                    Ghost(start),
                    Ghost(allowed2),
                    Ghost(mark2),
                    Ghost(orig2),
                    Ghost(level2),
                );
                proof {
                    level2 = level2 + 1;
                }
            }
            proof {
                lemma_flood_stalled(width, height, start, allowed2, mark2, orig2, level2, visited2, buffer@, frontier2@);
                assert forall|c: GridCoords| in_bounds(c, width, height) implies #[trigger] buffer@[flat_index(c, width)]
                    == placing_overlay_cell(grid, power, start, range as nat, c) by {
                    if connected_to_placement(grid, power, start, range as nat, c) {
                        let n = choose|n: nat| #[trigger] flood_reach(width, height, start, allowed2, n, c);
                        if n <= level2 {
                            lemma_flood_monotone(width, height, start, allowed2, n, level2, c);
                        } else {
                            lemma_flood_fixpoint(width, height, start, allowed2, level2, n);
                        }
                    } else {
                        if flood_reach(width, height, start, allowed2, level2, c) {
                            assert(connected_to_placement(grid, power, start, range as nat, c));
                        }
                    }
                }
            }
        }
        proof {
            assert forall|c: GridCoords| #[trigger] grid.contains(c) implies buffer@[flat_index(c, width)]
                == placing_overlay_cell(grid, power, start, range as nat, c) by {
                assert(in_bounds(c, width, height));
            }
            assert forall|c: GridCoords| #[trigger] in_bounds(c, width, height) implies buffer@[flat_index(c, width)]
                == placing_overlay_cell(grid, power, start, range as nat, c) by {
                assert(grid.contains(c));
            }
            if power_at_range_boundary(grid, power, start, range as nat) {
                assert forall|path: Seq<GridCoords>|
                    #[trigger] highlighted_walk(buffer@, width, height, start, path) implies buffer@[flat_index(
                    path.last(),
                    width,
                )].has_power == 1 by {
                    lemma_power_spreads_along_highlighted_walks(
                        grid,
                        power,
                        start,
                        range as nat,
                        buffer@,
                        path,
                    );
                }
            }
        }
        buffer
    }
}

/// What the overlay shows besides the supply of the whole grid.
#[derive(Clone, Copy, Debug, PartialEq, Eq, Structural)]
pub enum EnergySupplyOverlaySecondaryMode {
    /// Nothing more.
    Inactive,
    /// The supply of one building, the others dimmed.
    Highlight { building: Entity },
    /// The potential supply of a supplier being placed.
    Placing { grid_coords: GridCoords, grid_imprint: GridImprint, range: usize },
}

impl EnergySupplyOverlaySecondaryMode {
    pub fn is_none(&self) -> (r: bool)
        ensures
            r == (*self is Inactive),
    {
        match self {
            EnergySupplyOverlaySecondaryMode::Inactive => true,
            _ => false,
        }
    }
}

impl Default for EnergySupplyOverlaySecondaryMode {
    fn default() -> (r: Self)
        ensures
            r is Inactive,
    {
        EnergySupplyOverlaySecondaryMode::Inactive
    }
}

/// What the energy supply overlay is asked to show.
#[derive(Clone, Copy, Debug, PartialEq, Eq, Structural)]
pub struct EnergySupplyOverlayConfig {
    /// Whether the overlay is switched on by the player, independently of building placement
    /// or a focused building.
    pub is_overlay_globally_enabled: bool,
    /// The grid version the shown overlay was built for.
    pub grid_version: GridVersion,
    pub secondary_mode: EnergySupplyOverlaySecondaryMode,
}

impl Default for EnergySupplyOverlayConfig {
    fn default() -> (r: Self)
        ensures
            !r.is_overlay_globally_enabled,
            r.grid_version == 0,
            r.secondary_mode is Inactive,
    {
        EnergySupplyOverlayConfig {
            is_overlay_globally_enabled: false,
            grid_version: 0,
            secondary_mode: EnergySupplyOverlaySecondaryMode::Inactive,
        }
    }
}

impl EnergySupplyOverlayConfig {
    /// The overlay is shown when switched on or when it has something more to show.
    pub fn overlay_state(&self) -> (r: EnergySupplyOverlayState)
        ensures
            r == if self.is_overlay_globally_enabled || !(self.secondary_mode is Inactive) {
                EnergySupplyOverlayState::Show
            } else {
                EnergySupplyOverlayState::Hide
            },
    {
        if self.is_overlay_globally_enabled || !self.secondary_mode.is_none() {
            EnergySupplyOverlayState::Show
        } else {
            EnergySupplyOverlayState::Hide
        }
    }

    /// Switches the overlay on or off at the player's request.
    pub fn toggle_globally_enabled(&mut self)
        ensures
            final(self).is_overlay_globally_enabled == !old(self).is_overlay_globally_enabled,
            final(self).grid_version == old(self).grid_version,
            final(self).secondary_mode == old(self).secondary_mode,
    {
        self.is_overlay_globally_enabled = !self.is_overlay_globally_enabled;
    }

    /// A map object got the focus of the info panel: a building's supply is highlighted, any
    /// other object clears the secondary mode.
    pub fn on_building_ui_focused(&mut self, focused: Entity, is_building: bool)
        ensures
            final(self).is_overlay_globally_enabled == old(self).is_overlay_globally_enabled,
            final(self).grid_version == old(self).grid_version,
            final(self).secondary_mode == if is_building {
                EnergySupplyOverlaySecondaryMode::Highlight { building: focused }
            } else {
                EnergySupplyOverlaySecondaryMode::Inactive
            },
    {
        if is_building {
            self.secondary_mode = EnergySupplyOverlaySecondaryMode::Highlight { building: focused };
        } else {
            self.secondary_mode = EnergySupplyOverlaySecondaryMode::Inactive;
        }
    }

    /// The radius of the potential supply shown while a supplier is being placed.
    pub const PLACING_RANGE: usize = 15;

    /// The object being placed, or where it is placed, changed. Placing a building that
    /// supplies energy shows its potential supply around its imprint; placing anything else
    /// clears the secondary mode.
    pub fn on_grid_placer_changed(
        &mut self,
        placing_building: Option<BuildingType>,
        grid_coords: GridCoords,
        almanach: &Almanach,
    )
        requires
            almanach.wf(),
            placing_building is Some && placing_building->0.spec_is_energy_supplier()
                ==> almanach.describes(placing_building->0),
        ensures
            final(self).is_overlay_globally_enabled == old(self).is_overlay_globally_enabled,
            final(self).grid_version == old(self).grid_version,
            final(self).secondary_mode == match placing_building {
                Some(bt) => if bt.spec_is_energy_supplier() {
                    EnergySupplyOverlaySecondaryMode::Placing {
                        grid_coords,
                        grid_imprint: almanach.imprint_of(bt),
                        range: Self::PLACING_RANGE,
                    }
                } else {
                    EnergySupplyOverlaySecondaryMode::Inactive
                },
                None => EnergySupplyOverlaySecondaryMode::Inactive,
            },
    {
        match placing_building {
            Some(building_type) if building_type.is_energy_supplier() => {
                self.secondary_mode = EnergySupplyOverlaySecondaryMode::Placing {
                    grid_coords,
                    grid_imprint: almanach.get_building_info(building_type).grid_imprint,
                    range: Self::PLACING_RANGE,
                };
            },
            _ => {
                self.secondary_mode = EnergySupplyOverlaySecondaryMode::Inactive;
            },
        }
    }

    /// Whether the overlay must be built again: the supply grid changed since the overlay was
    /// built for it, or the secondary mode differs from the one of the last build. When it
    /// must, the grid version and the mode are recorded as those the overlay is built for.
    pub fn refresh_needed(
        &mut self,
        grid_version: GridVersion,
        last_secondary_mode: &mut EnergySupplyOverlaySecondaryMode,
    ) -> (r: bool)
        ensures
            r == (old(self).grid_version != grid_version || old(self).secondary_mode
                != *old(last_secondary_mode)),
            final(self).is_overlay_globally_enabled == old(self).is_overlay_globally_enabled,
            final(self).secondary_mode == old(self).secondary_mode,
            final(self).grid_version == if r {
                grid_version
            } else {
                old(self).grid_version
            },
            *final(last_secondary_mode) == if r {
                old(self).secondary_mode
            } else {
                *old(last_secondary_mode)
            },
    {
        if self.grid_version != grid_version || self.secondary_mode != *last_secondary_mode {
            *last_secondary_mode = self.secondary_mode;
            self.grid_version = grid_version;
            true
        } else {
            false
        }
    }

    /// The info panel lost its focus, or placing ended: the secondary mode is cleared.
    pub fn on_building_ui_unfocused(&mut self)
        ensures
            final(self).is_overlay_globally_enabled == old(self).is_overlay_globally_enabled,
            final(self).grid_version == old(self).grid_version,
            final(self).secondary_mode is Inactive,
    {
        self.secondary_mode = EnergySupplyOverlaySecondaryMode::Inactive;
    }
}

/// The cells of `coords` that lie inside a grid with `bounds`, in their order.
pub fn cells_in_bounds(coords: &Vec<GridCoords>, bounds: (i32, i32)) -> (r: Vec<GridCoords>)
    ensures
        r@ == coords@.filter(|c: GridCoords| in_bounds(c, bounds.0 as int, bounds.1 as int)),
{
    let ghost keep = |c: GridCoords| in_bounds(c, bounds.0 as int, bounds.1 as int);
    let mut r: Vec<GridCoords> = Vec::new();
    let mut i: usize = 0;
    while i < coords.len()
        invariant
            i <= coords@.len(),
            keep == (|c: GridCoords| in_bounds(c, bounds.0 as int, bounds.1 as int)),
            r@ == coords@.subrange(0, i as int).filter(keep),
        decreases coords@.len() - i,
    {
        let c = coords[i];
        proof {
            assert(coords@.subrange(0, i + 1) =~= coords@.subrange(0, i as int).push(c));
            coords@.subrange(0, i as int).lemma_filter_push(c, keep);
        }
        if c.is_in_bounds(bounds) {
            r.push(c);
        }
        i = i + 1;
    }
    proof {
        assert(coords@.subrange(0, coords@.len() as int) =~= coords@);
    }
    r
}

impl<'a> OverlayBufferCreator<'a> {
    /// The overlay buffer for a secondary mode: the whole supply, the supply of a highlighted
    /// building, or the potential supply of a supplier being placed over the cells of its
    /// imprint that lie inside the grid (the whole supply when its anchor lies outside).
    pub fn buffer_for_secondary_mode(&self, mode: &EnergySupplyOverlaySecondaryMode) -> (r: Vec<
        EnergySupplyCell,
    >)
        requires
            self.wf(),
            mode matches EnergySupplyOverlaySecondaryMode::Placing { grid_coords, grid_imprint, .. }
                ==> imprint_fits_i32(*grid_imprint, *grid_coords) && imprint_area(*grid_imprint)
                <= usize::MAX,
        ensures
            r@.len() == self.energy_supply_grid.grid@.len(),
            forall|c: GridCoords| #[trigger]
                self.energy_supply_grid.contains(c) ==> r@[flat_index(
                    c,
                    self.energy_supply_grid.width as int,
                )] == match *mode {
                    EnergySupplyOverlaySecondaryMode::Inactive => base_cell(
                        *self.energy_supply_grid,
                        self.power_grid@,
                        None,
                        c,
                    ),
                    EnergySupplyOverlaySecondaryMode::Highlight { building } => base_cell(
                        *self.energy_supply_grid,
                        self.power_grid@,
                        Some(building),
                        c,
                    ),
                    EnergySupplyOverlaySecondaryMode::Placing { grid_coords, grid_imprint, range } => {
                        if self.energy_supply_grid.contains(grid_coords) {
                            placing_overlay_cell(
                                *self.energy_supply_grid,
                                self.power_grid@,
                                covered_cells(grid_imprint, grid_coords).filter(
                                    |d: GridCoords|
                                        in_bounds(
                                            d,
                                            self.energy_supply_grid.width as int,
                                            self.energy_supply_grid.height as int,
                                        ),
                                ),
                                range as nat,
                                c,
                            )
                        } else {
                            base_cell(*self.energy_supply_grid, self.power_grid@, None, c)
                        }
                    },
                },
    {
        let ghost width = self.energy_supply_grid.width as int;
        let ghost height = self.energy_supply_grid.height as int;
        match mode {
            EnergySupplyOverlaySecondaryMode::Inactive => {
                let r = self.generate_buffer_data(None);
                proof {
                    assert forall|c: GridCoords| #[trigger]
                        self.energy_supply_grid.contains(c) implies r@[flat_index(c, width)]
                        == base_cell(*self.energy_supply_grid, self.power_grid@, None, c) by {
                        lemma_flat_index_in_range(c, width, height);
                    }
                }
                r
            },
            EnergySupplyOverlaySecondaryMode::Highlight { building } => {
                let r = self.generate_buffer_data(Some(*building));
                proof {
                    assert forall|c: GridCoords| #[trigger]
                        self.energy_supply_grid.contains(c) implies r@[flat_index(c, width)]
                        == base_cell(*self.energy_supply_grid, self.power_grid@, Some(*building), c) by {
                        lemma_flat_index_in_range(c, width, height);
                    }
                }
                r
            },
            EnergySupplyOverlaySecondaryMode::Placing { grid_coords, grid_imprint, range } => {
                let bounds = self.energy_supply_grid.bounds();
                if grid_coords.is_in_bounds(bounds) {
                    let all_covered = grid_imprint.covered_coords(*grid_coords);
                    let covered = cells_in_bounds(&all_covered, bounds);
                    proof {
                        assert forall|k: int| 0 <= k < covered@.len() implies in_bounds(
                            #[trigger] covered@[k],
                            width,
                            height,
                        ) by {
                            let keep = |d: GridCoords| in_bounds(d, bounds.0 as int, bounds.1 as int);
                            broadcast use vstd::seq_lib::group_filter_ensures;
                            assert(all_covered@.filter(keep).contains(covered@[k]));
                        }
                    }
                    self.flood_potential_energy_supply_to_overlay_heatmap(&covered, *range)
                } else {
                    let r = self.generate_buffer_data(None);
                    proof {
                        assert forall|c: GridCoords| #[trigger]
                            self.energy_supply_grid.contains(c) implies r@[flat_index(c, width)]
                            == base_cell(*self.energy_supply_grid, self.power_grid@, None, c) by {
                            lemma_flat_index_in_range(c, width, height);
                        }
                    }
                    r
                }
            },
        }
    }
}

/// The cells of a supplier being placed are always drawn as supplied and highlighted, and a
/// larger range reaches at least the cells a smaller one reaches.
pub proof fn lemma_placed_cells_highlighted(
    grid: EnergySupplyGrid,
    power_grid: Seq<bool>,
    start: Seq<GridCoords>,
    range: nat,
    larger_range: nat,
    c: GridCoords,
)
    requires
        start.contains(c),
        range <= larger_range,
    ensures
        placing_overlay_cell(grid, power_grid, start, range, c).highlight_level == 2,
        placing_overlay_cell(grid, power_grid, start, range, c).has_supply == 1,
        forall|d: GridCoords|
            #[trigger] within_range(grid, start, range, d) ==> within_range(
                grid,
                start,
                larger_range,
                d,
            ),
{
    lemma_flood_monotone(
        grid.width as int,
        grid.height as int,
        start,
        spread_anywhere(),
        0,
        range,
        c,
    );
    assert forall|d: GridCoords| #[trigger]
        within_range(grid, start, range, d) implies within_range(grid, start, larger_range, d) by {
        lemma_flood_monotone(
            grid.width as int,
            grid.height as int,
            start,
            spread_anywhere(),
            range,
            larger_range,
            d,
        );
    }
}

} // verus!
