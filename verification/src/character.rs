//! The actor model: a character holds an immutable start cell, its live
//! position, the full recorded command history, a replay cursor and a
//! generation tag.
//!
//! History records intent, not outcome: the active actor appends every
//! attempted command before legality is checked, and a replaying ghost
//! applies the recorded commands the same way, so a replay reproduces the
//! original attempt sequence exactly, blocked moves included.

use vstd::prelude::*;

use crate::grid::CharacterCommand;
use crate::grid::GridPosition;
use crate::grid::Ordinate;
use crate::occupancy::OccupationMap;
use crate::terrain::TerrainMap;

verus! {

#[derive(Clone, Debug)]
pub struct Character {
    /// Where this lineage entered the level; every incarnation restarts here.
    pub start: GridPosition,
    /// The live (or replaying) position.
    pub current: GridPosition,
    /// Every command ever attempted this cycle, in order.
    pub command_list: Vec<CharacterCommand>,
    /// Replay cursor into `command_list`.
    pub cmd_list_pos: usize,
    /// Generation of this lineage; doubles as the actor's subturn number.
    pub my_turn: usize,
}

/// The command's destination is in bounds, passable from the current cell,
/// and free in the given occupancy snapshot.
pub open spec fn action_allowed(
    m: TerrainMap,
    occ: Seq<bool>,
    pos: GridPosition,
    action: CharacterCommand,
) -> bool {
    let dest = pos.destination_spec(action);
    m.terrain_allows(pos, dest) && !occ[dest.flat(m.width as int)]
}

/// Position after attempting `action`: the destination when allowed, else
/// unchanged.
pub open spec fn step_pos(
    m: TerrainMap,
    occ: Seq<bool>,
    pos: GridPosition,
    action: CharacterCommand,
) -> GridPosition {
    if action_allowed(m, occ, pos, action) {
        pos.destination_spec(action)
    } else {
        pos
    }
}

/// Occupancy after attempting `action`: on success the old cell is freed
/// and the destination taken, else unchanged.
pub open spec fn step_occ(
    m: TerrainMap,
    occ: Seq<bool>,
    pos: GridPosition,
    action: CharacterCommand,
) -> Seq<bool> {
    if action_allowed(m, occ, pos, action) {
        occ.update(pos.flat(m.width as int), false).update(
            pos.destination_spec(action).flat(m.width as int),
            true,
        )
    } else {
        occ
    }
}

impl Character {
    /// Positions consistent with the given map.
    pub open spec fn wf(self, m: TerrainMap) -> bool {
        &&& self.start.in_bounds(m.width as int, m.height as int)
        &&& self.current.in_bounds(m.width as int, m.height as int)
    }

    pub fn new(pos: GridPosition) -> (r: Self)
        ensures
            r.start == pos,
            r.current == pos,
            r.command_list@ == Seq::<CharacterCommand>::empty(),
            r.cmd_list_pos == 0,
            r.my_turn == 0,
    {
        Self { start: pos, current: pos, command_list: Vec::new(), cmd_list_pos: 0, my_turn: 0 }
    }

    pub fn new_split(x: Ordinate, y: Ordinate) -> (r: Self)
        ensures
            r.start == (GridPosition { x, y }),
            r.current == (GridPosition { x, y }),
            r.command_list@ == Seq::<CharacterCommand>::empty(),
            r.cmd_list_pos == 0,
            r.my_turn == 0,
    {
        Self::new(GridPosition { x, y })
    }

    /// Attempt a command against terrain and the current occupancy
    /// snapshot. On success the occupancy bits move with the character and
    /// the normalized destination is returned; on failure nothing changes
    /// and `None` reports the blocked move.
    pub fn do_action(
        &mut self,
        action: CharacterCommand,
        map: &TerrainMap,
        colliders: &mut OccupationMap,
    ) -> (r: Option<GridPosition>)
        requires
            map.well_formed(),
            old(self).wf(*map),
            old(colliders).0@.len() == map.cell_count(),
        ensures
            final(self).current == step_pos(*map, old(colliders).0@, old(self).current, action),
            final(colliders).0@ == step_occ(*map, old(colliders).0@, old(self).current, action),
            r == if action_allowed(*map, old(colliders).0@, old(self).current, action) {
                Some(old(self).current.destination_spec(action))
            } else {
                None::<GridPosition>
            },
            final(self).start == old(self).start,
            final(self).command_list@ == old(self).command_list@,
            final(self).cmd_list_pos == old(self).cmd_list_pos,
            final(self).my_turn == old(self).my_turn,
            final(self).wf(*map),
            final(colliders).0@.len() == map.cell_count(),
    {
        let w = map.width;
        let h = map.height;
        proof {
            assert(h <= w * h && w <= w * h) by (nonlinear_arith)
                requires
                    1 <= w,
                    1 <= h,
            ;
            crate::grid::lemma_flat_index_bound(self.current, w as int, h as int);
        }
        let supposed_dest = self.current.destination(action);
        let modif = supposed_dest.clamp(w, h);
        proof {
            crate::grid::lemma_flat_index_bound(modif, w as int, h as int);
        }
        let normalised = supposed_dest.clamp(w, h).unroll(w) as usize;

        if map.move_allowed_by_terrain(&self.current, &supposed_dest) && !colliders.0[normalised] {
            let form_norm = self.current.clamp(w, h).unroll(w) as usize;
            colliders.move_collider(form_norm, normalised);
            self.current = supposed_dest;
            Some(modif)
        } else {
            None
        }
    }

    /// Apply the recorded command under the cursor and advance the cursor,
    /// whether or not the move succeeded, mirroring the active actor's
    /// semantics. A cursor already past the recorded history is a defined
    /// no-op turn, never a fault.
    pub fn do_queued_action(&mut self, map: &TerrainMap, colliders: &mut OccupationMap)
        requires
            map.well_formed(),
            old(self).wf(*map),
            old(colliders).0@.len() == map.cell_count(),
        ensures
            final(self).start == old(self).start,
            final(self).command_list@ == old(self).command_list@,
            final(self).my_turn == old(self).my_turn,
            final(self).wf(*map),
            final(colliders).0@.len() == map.cell_count(),
            old(self).cmd_list_pos < old(self).command_list@.len() ==> {
                let cmd = old(self).command_list@[old(self).cmd_list_pos as int];
                &&& final(self).current == step_pos(
                    *map,
                    old(colliders).0@,
                    old(self).current,
                    cmd,
                )
                &&& final(colliders).0@ == step_occ(*map, old(colliders).0@, old(self).current, cmd)
                &&& final(self).cmd_list_pos == old(self).cmd_list_pos + 1
            },
            old(self).cmd_list_pos >= old(self).command_list@.len() ==> *final(self) == *old(self)
                && final(colliders).0@ == old(colliders).0@,
    {
        if self.cmd_list_pos < self.command_list.len() {
            let action = self.command_list[self.cmd_list_pos];
            self.do_action(action, map, colliders);
            self.cmd_list_pos = self.cmd_list_pos + 1;
        }
    }

    /// Back to the start cell with the replay cursor rewound; the recorded
    /// history is kept, so a ghost repeats its full sequence every round.
    pub fn reset(&mut self)
        ensures
            final(self).current == old(self).start,
            final(self).cmd_list_pos == 0,
            final(self).start == old(self).start,
            final(self).command_list@ == old(self).command_list@,
            final(self).my_turn == old(self).my_turn,
    {
        self.current = self.start;
        self.cmd_list_pos = 0;
    }

    /// The next incarnation of this lineage: same start, clean history,
    /// generation bumped. The ghost keeps the old history; the fresh actor
    /// starts over.
    pub fn new_me(&self) -> (r: Self)
        requires
            self.my_turn < usize::MAX,
        ensures
            r.start == self.start,
            r.current == self.start,
            r.command_list@ == Seq::<CharacterCommand>::empty(),
            r.cmd_list_pos == 0,
            r.my_turn == self.my_turn + 1,
    {
        Self {
            start: self.start,
            current: self.start,
            command_list: Vec::new(),
            cmd_list_pos: 0,
            my_turn: self.my_turn + 1,
        }
    }
}

/// The position after each of the recorded commands, attempted in order
/// from `start`, where `occs[i]` is the occupancy snapshot the `i`-th
/// attempt was evaluated against.
pub open spec fn run_positions(
    m: TerrainMap,
    start: GridPosition,
    cmds: Seq<CharacterCommand>,
    occs: Seq<Seq<bool>>,
) -> Seq<GridPosition>
    decreases cmds.len(),
{
    if cmds.len() == 0 {
        Seq::empty()
    } else {
        let prefix = run_positions(m, start, cmds.drop_last(), occs.drop_last());
        let prev = if cmds.len() == 1 {
            start
        } else {
            prefix.last()
        };
        prefix.push(step_pos(m, occs.last(), prev, cmds.last()))
    }
}

pub proof fn lemma_run_positions_len(
    m: TerrainMap,
    start: GridPosition,
    cmds: Seq<CharacterCommand>,
    occs: Seq<Seq<bool>>,
)
    ensures
        run_positions(m, start, cmds, occs).len() == cmds.len(),
    decreases cmds.len(),
{
    if cmds.len() > 0 {
        lemma_run_positions_len(m, start, cmds.drop_last(), occs.drop_last());
    }
}

/// Each entry of the run is one attempted step from the entry before it,
/// exactly as `do_action` computes it.
pub proof fn lemma_run_positions_index(
    m: TerrainMap,
    start: GridPosition,
    cmds: Seq<CharacterCommand>,
    occs: Seq<Seq<bool>>,
    j: int,
)
    requires
        occs.len() == cmds.len(),
        0 <= j < cmds.len(),
    ensures
        run_positions(m, start, cmds, occs)[j] == step_pos(
            m,
            occs[j],
            if j == 0 {
                start
            } else {
                run_positions(m, start, cmds, occs)[j - 1]
            },
            cmds[j],
        ),
    decreases cmds.len(),
{
    lemma_run_positions_len(m, start, cmds, occs);
    lemma_run_positions_len(m, start, cmds.drop_last(), occs.drop_last());
    if j < cmds.len() - 1 {
        lemma_run_positions_index(m, start, cmds.drop_last(), occs.drop_last(), j);
        if j > 0 {
            assert(run_positions(m, start, cmds, occs)[j - 1] == run_positions(
                m,
                start,
                cmds.drop_last(),
                occs.drop_last(),
            )[j - 1]);
        }
    }
}

/// Replay fidelity: a run is determined by the start cell, the recorded
/// commands and the occupancy snapshot each attempt saw. Two actors given
/// identical inputs — the original live run and its frozen ghost replayed
/// against an unchanged occupancy history — pass through identical
/// positions turn by turn.
pub proof fn lemma_replay_fidelity(
    m: TerrainMap,
    start: GridPosition,
    cmds: Seq<CharacterCommand>,
    occs1: Seq<Seq<bool>>,
    occs2: Seq<Seq<bool>>,
)
    requires
        occs1.len() == cmds.len(),
        occs2.len() == cmds.len(),
        forall|k: int| 0 <= k < cmds.len() ==> occs1[k] == occs2[k],
    ensures
        run_positions(m, start, cmds, occs1) == run_positions(m, start, cmds, occs2),
{
    assert(occs1 =~= occs2);
}

} // verus!
