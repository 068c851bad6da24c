use vstd::prelude::*;
use crate::common::Entity;
use crate::grids::base::{BaseGrid, FieldTrait, GridVersion};
use crate::grids::common::GridCoords;

verus! {

impl FieldTrait for Vec<Entity> {
    open spec fn spec_is_default(&self) -> bool {
        self@.len() == 0
    }

    fn default_field() -> (r: Vec<Entity>) {
        Vec::new()
    }
}

/// For every cell, the wisps currently standing on it.
pub type WispsGrid = BaseGrid<Vec<Entity>, GridVersion>;

/// Position of the first occurrence of `v` in `s`.
pub open spec fn first_index_of(s: Seq<Entity>, v: Entity) -> int {
    choose|p: int| 0 <= p < s.len() && s[p] == v && forall|q: int| 0 <= q < p ==> s[q] != v
}

/// `s` with its first `v` replaced by its last element, shortened by one.
pub open spec fn swap_removed(s: Seq<Entity>, v: Entity) -> Seq<Entity> {
    s.update(first_index_of(s, v), s.last()).drop_last()
}

impl BaseGrid<Vec<Entity>, GridVersion> {
    /// Adds `wisp` to the wisps of `coords` and bumps the version.
    pub fn wisp_add(&mut self, coords: GridCoords, wisp: Entity)
        requires
            old(self).wf(),
            old(self).contains(coords),
        ensures
            final(self).wf(),
            final(self).width == old(self).width,
            final(self).height == old(self).height,
            final(self).version == old(self).version.wrapping_add(1),
            final(self).cell(coords)@ == old(self).cell(coords)@.push(wisp),
            forall|c: GridCoords|
                old(self).contains(c) && c != coords ==> #[trigger] final(self).cell(c) == old(
                    self,
                ).cell(c),
    {
        let mut wisps = self.get(coords).clone();
        assert(wisps@ == old(self).cell(coords)@);
        wisps.push(wisp);
        self.set(coords, wisps);
        let ghost updated = *self;
        self.version = self.version.wrapping_add(1);
        assert forall|c: GridCoords| old(self).contains(c) && c != coords implies #[trigger] self.cell(c)
            == old(self).cell(c) by {
            assert(self.cell(c) == updated.cell(c));
        }
    }

    /// Removes the first occurrence of `wisp` from the wisps of `coords` (the last wisp of the
    /// cell takes its place) and bumps the version. The wisp must stand on the cell.
    pub fn wisp_remove(&mut self, coords: GridCoords, wisp: Entity)
        requires
            old(self).wf(),
            old(self).contains(coords),
            old(self).cell(coords)@.contains(wisp),
        ensures
            final(self).wf(),
            final(self).width == old(self).width,
            final(self).height == old(self).height,
            final(self).version == old(self).version.wrapping_add(1),
            final(self).cell(coords)@ == swap_removed(old(self).cell(coords)@, wisp),
            forall|c: GridCoords|
                old(self).contains(c) && c != coords ==> #[trigger] final(self).cell(c) == old(
                    self,
                ).cell(c),
    {
        let mut wisps = self.get(coords).clone();
        let ghost s = old(self).cell(coords)@;
        assert(wisps@ == s);
        let mut pos: usize = 0;
        let n = wisps.len();
        while wisps[pos] != wisp
            invariant
                wisps@ == s,
                n == s.len(),
                s.contains(wisp),
                0 <= pos < s.len(),
                forall|q: int| 0 <= q < pos ==> s[q] != wisp,
            decreases s.len() - pos,
        {
            pos = pos + 1;
            assert(pos < s.len()) by {
                let w = choose|w: int| 0 <= w < s.len() && s[w] == wisp;
                assert(w >= pos);
            }
        }
        proof {
            let p = first_index_of(s, wisp);
            assert(0 <= pos < s.len() && s[pos as int] == wisp && forall|q: int|
                0 <= q < pos ==> s[q] != wisp);
            if p != pos {
                if p < pos {
                    assert(s[p] != wisp);
                } else {
                    assert(s[pos as int] != wisp);
                }
            }
        }
        wisps.swap_remove(pos);
        self.set(coords, wisps);
        let ghost updated = *self;
        self.version = self.version.wrapping_add(1);
        assert forall|c: GridCoords| old(self).contains(c) && c != coords implies #[trigger] self.cell(c)
            == old(self).cell(c) by {
            assert(self.cell(c) == updated.cell(c));
        }
    }

    /// Moves `wisp` from `from_coords` to `to_coords`.
    pub fn wisp_move(&mut self, from_coords: GridCoords, to_coords: GridCoords, wisp: Entity)
        requires
            old(self).wf(),
            old(self).contains(from_coords),
            old(self).contains(to_coords),
            old(self).cell(from_coords)@.contains(wisp),
        ensures
            final(self).wf(),
            final(self).width == old(self).width,
            final(self).height == old(self).height,
            final(self).version == old(self).version.wrapping_add(1).wrapping_add(1),
            final(self).cell(to_coords)@ == (if from_coords == to_coords {
                swap_removed(old(self).cell(from_coords)@, wisp)
            } else {
                old(self).cell(to_coords)@
            }).push(wisp),
            from_coords != to_coords ==> final(self).cell(from_coords)@ == swap_removed(
                old(self).cell(from_coords)@,
                wisp,
            ),
            forall|c: GridCoords|
                old(self).contains(c) && c != from_coords && c != to_coords
                    ==> #[trigger] final(self).cell(c) == old(self).cell(c),
    {
        self.wisp_remove(from_coords, wisp);
        let ghost removed = *self;
        self.wisp_add(to_coords, wisp);
        assert forall|c: GridCoords|
            old(self).contains(c) && c != from_coords && c != to_coords implies #[trigger] self.cell(
            c,
        ) == old(self).cell(c) by {
            assert(removed.cell(c) == old(self).cell(c));
        }
        if from_coords != to_coords {
            assert(self.cell(from_coords) == removed.cell(from_coords));
        }
    }
}


/// Adding an entity a cell (or a scanner's range) does not hold yet and then removing it gives
/// back the entities held before, in their order.
pub proof fn lemma_add_then_remove_restores(s: Seq<Entity>, e: Entity)
    requires
        !s.contains(e),
    ensures
        swap_removed(s.push(e), e) == s,
{
    let t = s.push(e);
    let n = s.len() as int;
    assert(t[n] == e);
    assert(forall|q: int| 0 <= q < n ==> t[q] != e) by {
        assert forall|q: int| 0 <= q < n implies t[q] != e by {
            if t[q] == e {
                assert(s[q] == e);
            }
        }
    }
    let p = first_index_of(t, e);
    assert(0 <= p < t.len() && t[p] == e && forall|q: int| 0 <= q < p ==> t[q] != e);
    assert(p == n);
    assert(swap_removed(t, e) =~= s);
}

} // verus!
