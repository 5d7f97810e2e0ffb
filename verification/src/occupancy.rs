//! The occupancy map: one "a blocking actor stands here" flag per cell,
//! rebuilt from scratch every tick from the declared occupant positions and
//! then adjusted in place as actors move within the same tick.
//!
//! Moves are evaluated against the snapshot as it stands when an actor
//! acts: the rebuild gives the previous tick's positions, and each mover
//! flips its own bits immediately, so a later-acting actor in the same tick
//! sees cells already vacated or newly taken.

use vstd::prelude::*;

use crate::grid::GridPosition;
use crate::terrain::TerrainMap;

verus! {

#[derive(Debug, Default)]
pub struct OccupationMap(pub Vec<bool>);

impl OccupationMap {
    /// Flip the mover's own bits within the tick: the old cell is freed,
    /// the new cell taken. With equal indices the cell stays occupied.
    pub fn move_collider(&mut self, from: usize, to: usize)
        requires
            from < old(self).0.len(),
            to < old(self).0.len(),
        ensures
            final(self).0@ == old(self).0@.update(from as int, false).update(to as int, true),
    {
        self.0.set(from, false);
        self.0.set(to, true);
    }

    /// Discard the previous snapshot entirely: size to the map's cell count
    /// and set exactly the supplied occupant cells, all others false.
    pub fn rebuild(&mut self, map: &TerrainMap, occupants: &Vec<GridPosition>)
        requires
            map.well_formed(),
            forall|j: int|
                0 <= j < occupants@.len() ==> occupants@[j].in_bounds(
                    map.width as int,
                    map.height as int,
                ),
        ensures
            final(self).0@.len() == map.cell_count(),
            forall|i: int|
                0 <= i < map.cell_count() ==> (final(self).0@[i] <==> exists|j: int|
                    0 <= j < occupants@.len() && occupants@[j].flat(map.width as int) == i),
    {
        let cells = map.len();
        let mut fresh: Vec<bool> = Vec::new();
        let mut k: usize = 0;
        while k < cells
            invariant
                k <= cells,
                fresh@.len() == k,
                forall|i: int| 0 <= i < k ==> fresh@[i] == false,
            decreases cells - k,
        {
            fresh.push(false);
            k = k + 1;
        }

        let mut j: usize = 0;
        while j < occupants.len()
            invariant
                map.well_formed(),
                forall|q: int|
                    0 <= q < occupants@.len() ==> occupants@[q].in_bounds(
                        map.width as int,
                        map.height as int,
                    ),
                j <= occupants@.len(),
                fresh@.len() == map.cell_count(),
                forall|i: int|
                    0 <= i < map.cell_count() ==> (fresh@[i] <==> exists|q: int|
                        0 <= q < j && occupants@[q].flat(map.width as int) == i),
            decreases occupants@.len() - j,
        {
            let pos = occupants[j];
            proof {
                crate::grid::lemma_flat_index_bound(pos, map.width as int, map.height as int);
            }
            let idx = pos.unroll(map.width) as usize;
            fresh.set(idx, true);
            j = j + 1;
        }

        self.0 = fresh;
    }
}

} // verus!
