//! The global discrete-turn state machine: whose turn it is among the live
//! actors, when a round completes, and when a replay-cycle rollover is due.
//!
//! Subturns count down: actor `active_ent_refresh` acts first each round and
//! actor `0` acts last, after which the round counter `turn` increments.
//! Every rollover adds one more actor (the new ghost) to the round-robin.

use vstd::prelude::*;

verus! {

/// Number of rounds in one replay cycle: reaching it signals rollover.
#[derive(Clone, Copy, Debug, Default, Eq, PartialEq, Structural)]
pub struct TurnLimit(pub usize);

/// Remaining replay-cycle rollovers; at zero a complete round is a loss.
#[derive(Clone, Copy, Debug, Default, Eq, PartialEq, Structural)]
pub struct GhostLimit(pub usize);

#[derive(Clone, Copy, Debug, Eq, PartialEq, Structural)]
pub struct ActiveTurn {
    /// Highest subturn in the round-robin: the number of actors minus one.
    pub active_ent_refresh: usize,
    /// Subturn whose actor may act now; counts down to zero.
    pub active_ent: usize,
    /// Rounds completed so far this replay cycle.
    pub turn: usize,
    /// Cooperative pacing flag: while set, no actor may act; cleared once
    /// per tick by the maintenance step.
    pub block_turn: bool,
}

impl ActiveTurn {
    /// One actor, always eligible, at round zero.
    pub open spec fn initial() -> ActiveTurn {
        ActiveTurn { active_ent_refresh: 0, active_ent: 0, turn: 0, block_turn: false }
    }

    pub open spec fn allow_turn_spec(self, limit: usize, my_subturn: usize) -> bool {
        !self.block_turn && self.turn != limit && my_subturn == self.active_ent
    }

    /// The only gate permitting an actor to act this tick.
    pub fn allow_turn(&self, limit: usize, my_subturn: usize) -> (r: bool)
        ensures
            r == self.allow_turn_spec(limit, my_subturn),
    {
        !self.block_turn && self.turn != limit && my_subturn == self.active_ent
    }

    pub open spec fn should_reset_spec(self, limit: usize) -> bool {
        self.turn == limit
    }

    /// Round complete: the caller decides rollover against terminal failure
    /// from the remaining ghost budget.
    pub fn should_reset(&self, limit: usize) -> (r: bool)
        ensures
            r == self.should_reset_spec(limit),
    {
        self.turn == limit
    }

    pub open spec fn march_spec(self) -> ActiveTurn {
        if self.active_ent == 0 {
            ActiveTurn {
                active_ent_refresh: self.active_ent_refresh,
                active_ent: self.active_ent_refresh,
                turn: (self.turn + 1) as usize,
                block_turn: false,
            }
        } else {
            ActiveTurn {
                active_ent_refresh: self.active_ent_refresh,
                active_ent: (self.active_ent - 1) as usize,
                turn: self.turn,
                block_turn: false,
            }
        }
    }

    /// Advance the round-robin after an actor acted, legally or not: at
    /// subturn zero wrap back to the highest subturn and count the round,
    /// else pass to the next lower subturn.
    pub fn march_turn(&mut self)
        requires
            old(self).turn < usize::MAX,
        ensures
            *final(self) == old(self).march_spec(),
    {
        if self.active_ent == 0 {
            self.active_ent = self.active_ent_refresh;
            self.turn = self.turn + 1;
        } else {
            self.active_ent = self.active_ent - 1;
        }

        self.block_turn = false;
    }

    /// Successful rollover: one more actor joins the round-robin and a new
    /// replay cycle begins at round zero.
    pub fn reset_and_add_ent(&mut self)
        requires
            old(self).active_ent_refresh < usize::MAX,
        ensures
            final(self).active_ent_refresh == old(self).active_ent_refresh + 1,
            final(self).active_ent == final(self).active_ent_refresh,
            final(self).turn == 0,
            final(self).block_turn == old(self).block_turn,
    {
        self.active_ent_refresh = self.active_ent_refresh + 1;
        self.active_ent = self.active_ent_refresh;
        self.turn = 0;
    }

    /// Back to the initial single-actor state, as on level (re)load.
    pub fn reinit(&mut self)
        ensures
            *final(self) == ActiveTurn::initial(),
    {
        *self = ActiveTurn { active_ent_refresh: 0, active_ent: 0, turn: 0, block_turn: false };
    }

    /// `march_spec` iterated `n` times.
    pub open spec fn march_iter(self, n: nat) -> ActiveTurn
        decreases n,
    {
        if n == 0 {
            self
        } else {
            self.march_iter((n - 1) as nat).march_spec()
        }
    }
}

impl Default for ActiveTurn {
    fn default() -> (r: Self)
        ensures
            r == ActiveTurn::initial(),
    {
        ActiveTurn { active_ent_refresh: 0, active_ent: 0, turn: 0, block_turn: false }
    }
}

/// With a single actor the scheduler walks the rounds one by one: from the
/// initial state, `allow_turn` holds exactly for subturn zero while rounds
/// remain, and after `limit` marches the round counter equals `limit`, so
/// `should_reset` signals the completed cycle.
pub proof fn lemma_scheduler_single_actor(limit: usize, my_subturn: usize)
    ensures
        ActiveTurn::initial().allow_turn_spec(limit, my_subturn) <==> (my_subturn == 0 && limit
            != 0),
        ActiveTurn::initial().march_iter(limit as nat).turn == limit,
        ActiveTurn::initial().march_iter(limit as nat).should_reset_spec(limit),
{
    lemma_single_actor_march(ActiveTurn::initial(), limit as nat);
}

/// Marching `n` times with a single registered actor keeps subturn zero and
/// advances the round counter by exactly `n`.
pub proof fn lemma_single_actor_march(s: ActiveTurn, n: nat)
    requires
        s.active_ent == 0,
        s.active_ent_refresh == 0,
        s.turn + n <= usize::MAX,
    ensures
        s.march_iter(n).turn == s.turn + n,
        s.march_iter(n).active_ent == 0,
        s.march_iter(n).active_ent_refresh == 0,
    decreases n,
{
    if n > 0 {
        lemma_single_actor_march(s, (n - 1) as nat);
    }
}

} // verus!
