//! Signal counters gating doors, and the trigger entities that feed them.
//!
//! Each channel holds a required count (`needed`, one per registered button)
//! and an observed count (`seen`, moved on the rising and falling edges of
//! "the trigger cell is occupied"). A channel is satisfied when `seen`
//! reaches `needed`; a channel never registered is reported unsatisfied.

use std::collections::HashMap;
use vstd::prelude::*;

use crate::grid::GridPosition;

verus! {

broadcast use vstd::std_specs::hash::group_hash_axioms;

/// Required and observed trigger counts for one channel.
#[derive(Clone, Copy, Debug, Eq, PartialEq, Structural)]
pub struct SignalCount {
    pub seen: usize,
    pub needed: usize,
}

/// Registry from channel id to its counts, reset to empty on level (re)load.
#[derive(Debug)]
pub struct SignalCounter(pub HashMap<usize, SignalCount>);

impl SignalCounter {
    pub open spec fn seen_of(self, signal: usize) -> nat {
        if self.0@.contains_key(signal) {
            self.0@[signal].seen as nat
        } else {
            0
        }
    }

    pub open spec fn needed_of(self, signal: usize) -> nat {
        if self.0@.contains_key(signal) {
            self.0@[signal].needed as nat
        } else {
            0
        }
    }

    /// Both registries agree on the channel's counts and satisfaction.
    pub open spec fn same_channel(a: SignalCounter, b: SignalCounter, s: usize) -> bool {
        &&& a.seen_of(s) == b.seen_of(s)
        &&& a.needed_of(s) == b.needed_of(s)
        &&& a.met_spec(s) == b.met_spec(s)
    }

    /// A channel is satisfied when it has an entry whose observed count has
    /// reached its required count. A channel never touched is unsatisfied:
    /// no source established it.
    pub open spec fn met_spec(self, signal: usize) -> bool {
        self.0@.contains_key(signal) && self.0@[signal].seen >= self.0@[signal].needed
    }

    pub fn new() -> (r: Self)
        ensures
            r.0@ == Map::<usize, SignalCount>::empty(),
    {
        SignalCounter(HashMap::new())
    }

    /// The channel's counts, zero for an absent entry.
    fn get_count(&self, signal: usize) -> (c: SignalCount)
        ensures
            c.seen == self.seen_of(signal),
            c.needed == self.needed_of(signal),
    {
        match self.0.get(&signal) {
            Some(c) => *c,
            None => SignalCount { seen: 0, needed: 0 },
        }
    }

    /// One more source (a button) requires this channel, as at level load.
    /// From a clean channel this leaves it unsatisfied until presses arrive.
    pub fn register_signal_source(&mut self, signal: usize)
        requires
            old(self).needed_of(signal) < usize::MAX,
        ensures
            final(self).0@.contains_key(signal),
            final(self).needed_of(signal) == old(self).needed_of(signal) + 1,
            final(self).seen_of(signal) == old(self).seen_of(signal),
            old(self).seen_of(signal) == 0 ==> !final(self).met_spec(signal),
            forall|s: usize|
                s != signal ==> SignalCounter::same_channel(*final(self), *old(self), s),
    {
        let c = self.get_count(signal);
        self.0.insert(signal, SignalCount { seen: c.seen, needed: c.needed + 1 });
    }

    /// Rising edge of the channel's trigger condition.
    pub fn increment_signal(&mut self, signal: usize)
        requires
            old(self).seen_of(signal) < usize::MAX,
        ensures
            final(self).0@.contains_key(signal),
            final(self).seen_of(signal) == old(self).seen_of(signal) + 1,
            final(self).needed_of(signal) == old(self).needed_of(signal),
            forall|s: usize|
                s != signal ==> SignalCounter::same_channel(*final(self), *old(self), s),
    {
        let c = self.get_count(signal);
        self.0.insert(signal, SignalCount { seen: c.seen + 1, needed: c.needed });
    }

    /// Falling edge of the channel's trigger condition; only a channel with
    /// at least one observed press can fall.
    pub fn decrement_signal(&mut self, signal: usize)
        requires
            old(self).seen_of(signal) >= 1,
        ensures
            final(self).0@.contains_key(signal),
            final(self).seen_of(signal) == old(self).seen_of(signal) - 1,
            final(self).needed_of(signal) == old(self).needed_of(signal),
            forall|s: usize|
                s != signal ==> SignalCounter::same_channel(*final(self), *old(self), s),
    {
        let c = self.get_count(signal);
        self.0.insert(signal, SignalCount { seen: c.seen - 1, needed: c.needed });
    }

    /// Whether the channel currently gates open.
    pub fn signal_met(&self, signal: usize) -> (r: bool)
        ensures
            r == self.met_spec(signal),
            r == (self.0@.contains_key(signal) && self.seen_of(signal) >= self.needed_of(signal)),
    {
        match self.0.get(&signal) {
            Some(c) => c.seen >= c.needed,
            None => false,
        }
    }

    /// Clear every entry, as at a level boundary.
    pub fn reinit(&mut self)
        ensures
            final(self).0@ == Map::<usize, SignalCount>::empty(),
            forall|s: usize| !final(self).met_spec(s),
            forall|s: usize| final(self).seen_of(s) == 0 && final(self).needed_of(s) == 0,
    {
        self.0 = HashMap::new();
    }
}

/// Marks a freshly placed button whose channel requirement is still to be
/// registered with the counter.
#[derive(Clone, Copy, Debug)]
pub struct RegisterSignal(pub usize);

/// A pressure plate: fires its channel on each edge of "my cell is
/// occupied". `last_collide` is the occupancy it saw at the previous check.
#[derive(Clone, Copy, Debug, Eq, PartialEq, Structural)]
pub struct FireSignalOnCollide {
    pub signal: usize,
    pub pos: GridPosition,
    pub last_collide: bool,
}

impl FireSignalOnCollide {
    pub fn new(signal: usize, pos: GridPosition) -> (r: Self)
        ensures
            r == (FireSignalOnCollide { signal, pos, last_collide: false }),
    {
        Self { signal, pos, last_collide: false }
    }
}

/// A door: occupies its cell until its channel is satisfied. `last_collide`
/// is the channel state it saw at the previous check.
#[derive(Clone, Copy, Debug, Eq, PartialEq, Structural)]
pub struct OccupySpaceUntilSignal {
    pub signal: usize,
    pub pos: GridPosition,
    pub last_collide: bool,
}

impl OccupySpaceUntilSignal {
    /// A fresh door starts with the channel remembered as satisfied, so
    /// its first check observes the real (usually unsatisfied) channel and
    /// settles the door shut.
    pub fn new(signal: usize, pos: GridPosition) -> (r: Self)
        ensures
            r == (OccupySpaceUntilSignal { signal, pos, last_collide: true }),
    {
        Self { signal, pos, last_collide: true }
    }
}

/// The satisfaction law: a channel gates open exactly when it exists and
/// its observed count has reached its required count; in particular a
/// freshly registered channel (a positive requirement, nothing observed
/// yet) is unsatisfied until increments close the gap.
pub proof fn lemma_satisfaction_threshold(sc: SignalCounter, c: usize)
    ensures
        sc.met_spec(c) <==> (sc.0@.contains_key(c) && sc.seen_of(c) >= sc.needed_of(c)),
        sc.seen_of(c) < sc.needed_of(c) ==> !sc.met_spec(c),
{
}

/// Contribution of one button to a channel's observed count.
pub open spec fn presses(b: FireSignalOnCollide, c: usize) -> nat {
    if b.signal == c && b.last_collide {
        1
    } else {
        0
    }
}

/// Number of buttons on channel `c` currently observed pressed.
pub open spec fn pressed_count(s: Seq<FireSignalOnCollide>, c: usize) -> nat
    decreases s.len(),
{
    if s.len() == 0 {
        0
    } else {
        pressed_count(s.drop_last(), c) + presses(s.last(), c)
    }
}

/// Appending a button adds exactly its contribution.
pub proof fn lemma_pressed_count_push(s: Seq<FireSignalOnCollide>, b: FireSignalOnCollide, c: usize)
    ensures
        pressed_count(s.push(b), c) == pressed_count(s, c) + presses(b, c),
{
    assert(s.push(b).drop_last() =~= s);
}

/// Number of buttons wired to channel `c`, pressed or not.
pub open spec fn channel_count(s: Seq<FireSignalOnCollide>, c: usize) -> nat
    decreases s.len(),
{
    if s.len() == 0 {
        0
    } else {
        channel_count(s.drop_last(), c) + if s.last().signal == c {
            1nat
        } else {
            0nat
        }
    }
}

pub proof fn lemma_channel_count_le(s: Seq<FireSignalOnCollide>, c: usize)
    ensures
        channel_count(s, c) <= s.len(),
    decreases s.len(),
{
    if s.len() > 0 {
        lemma_channel_count_le(s.drop_last(), c);
    }
}

/// Appending a button adds one to its own channel's source count and
/// leaves every other channel's count unchanged.
pub proof fn lemma_channel_count_push(s: Seq<FireSignalOnCollide>, b: FireSignalOnCollide, c: usize)
    ensures
        channel_count(s.push(b), c) == channel_count(s, c) + if b.signal == c {
            1nat
        } else {
            0nat
        },
{
    assert(s.push(b).drop_last() =~= s);
}

pub proof fn lemma_pressed_count_le(s: Seq<FireSignalOnCollide>, c: usize)
    ensures
        pressed_count(s, c) <= s.len(),
    decreases s.len(),
{
    if s.len() > 0 {
        lemma_pressed_count_le(s.drop_last(), c);
    }
}

/// Replacing one button changes a channel's pressed count by exactly the
/// difference of the two contributions.
pub proof fn lemma_pressed_count_update(
    s: Seq<FireSignalOnCollide>,
    i: int,
    b: FireSignalOnCollide,
    c: usize,
)
    requires
        0 <= i < s.len(),
    ensures
        pressed_count(s.update(i, b), c) + presses(s[i], c) == pressed_count(s, c) + presses(b, c),
    decreases s.len(),
{
    let t = s.update(i, b);
    if i == s.len() - 1 {
        assert(t.drop_last() =~= s.drop_last());
        assert(t.last() == b);
    } else {
        assert(t.drop_last() =~= s.drop_last().update(i, b));
        assert(t.last() == s.last());
        lemma_pressed_count_update(s.drop_last(), i, b, c);
    }
}

/// A channel with one of its buttons not contributing cannot have every
/// button counted: its pressed count stays under the button total.
pub proof fn lemma_pressed_count_slack(s: Seq<FireSignalOnCollide>, i: int, c: usize)
    requires
        0 <= i < s.len(),
        presses(s[i], c) == 0,
    ensures
        pressed_count(s, c) < s.len(),
    decreases s.len(),
{
    lemma_pressed_count_le(s.drop_last(), c);
    if i < s.len() - 1 {
        lemma_pressed_count_slack(s.drop_last(), i, c);
    }
}

/// A channel with a contributing button has a positive pressed count.
pub proof fn lemma_pressed_count_pos(s: Seq<FireSignalOnCollide>, i: int, c: usize)
    requires
        0 <= i < s.len(),
        presses(s[i], c) == 1,
    ensures
        pressed_count(s, c) >= 1,
    decreases s.len(),
{
    if i < s.len() - 1 {
        lemma_pressed_count_pos(s.drop_last(), i, c);
    }
}

} // verus!
