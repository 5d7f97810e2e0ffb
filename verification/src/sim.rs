//! The level lifecycle: all simulation state for one level instance and the
//! tick phases that drive it, in the fixed order the design demands —
//! occupancy settled first, then the scheduled actor's move, then signal
//! edges, then door gating, then the win and rollover decisions.

use vstd::prelude::*;

use crate::character::Character;
use crate::character::action_allowed;
use crate::character::step_occ;
use crate::character::step_pos;
use crate::grid::CharacterCommand;
use crate::grid::GridPosition;
use crate::occupancy::OccupationMap;
use crate::scheduler::ActiveTurn;
use crate::scheduler::GhostLimit;
use crate::signals::FireSignalOnCollide;
use crate::signals::OccupySpaceUntilSignal;
use crate::signals::SignalCounter;
use crate::signals::channel_count;
use crate::signals::pressed_count;
use crate::terrain::EntBlueprint;
use crate::terrain::EntData;
use crate::terrain::TerrainMap;

verus! {

/// Whether an actor is driven by live input or by its recorded history.
#[derive(Clone, Copy, Debug, Eq, PartialEq, Structural)]
pub enum ActorRole {
    /// Driven by live commands, which it appends to its history.
    Active,
    /// A ghost: driven by its recorded history through the replay cursor.
    Replaying,
}

/// One participant in the round-robin: a character and how it is driven.
#[derive(Clone, Debug)]
pub struct Actor {
    pub character: Character,
    pub role: ActorRole,
}

/// The goal entity: observes actor positions once per tick and fires at
/// most once per level instance.
#[derive(Clone, Copy, Debug, Eq, PartialEq, Structural)]
pub struct Ender {
    pub pos: GridPosition,
    pub fired: bool,
}

/// What one tick produced, for the collaborators around the core: whether
/// and where the live actor moved (a blocked attempt reports no cell), and
/// the level-state transitions.
#[derive(Clone, Copy, Debug, Eq, PartialEq, Structural)]
pub struct TickOutcome {
    /// The scheduled actor took its turn.
    pub acted: bool,
    /// The live actor's normalized destination when its move succeeded.
    pub moved: Option<GridPosition>,
    /// A goal fired this tick.
    pub won: bool,
    /// The round completed and a new replay cycle began.
    pub rolled_over: bool,
    /// The round completed with no ghost budget left: terminal failure.
    pub failed: bool,
}

/// All mutable simulation state of one level instance. Each tick phase
/// takes the whole state by reference, making the single-writer-per-phase
/// discipline a borrow-checked fact rather than a convention.
#[derive(Debug)]
pub struct World {
    /// The static level.
    pub map: TerrainMap,
    /// Per-cell blocking flags, rebuilt every tick.
    pub occupation: OccupationMap,
    /// Channel registry for buttons and doors.
    pub signals: SignalCounter,
    /// The round-robin scheduler.
    pub turn: ActiveTurn,
    /// Remaining replay-cycle rollovers.
    pub ghost_limit: GhostLimit,
    /// All characters, ghosts first; the actor at index `i` owns subturn
    /// `i`, and the last one is the live actor.
    pub actors: Vec<Actor>,
    /// Pressure plates.
    pub buttons: Vec<FireSignalOnCollide>,
    /// Signal-gated barriers.
    pub doors: Vec<OccupySpaceUntilSignal>,
    /// Goal cells.
    pub enders: Vec<Ender>,
}

impl World {
    pub open spec fn width(self) -> int {
        self.map.width as int
    }

    pub open spec fn height(self) -> int {
        self.map.height as int
    }

    pub open spec fn turn_limit(self) -> usize {
        self.map.turn_limit.0
    }

    /// The actor at index `i` is consistent: positions on the map, cursor
    /// within its history, subturn equal to its index, and the live role
    /// exactly at the end of the roster.
    pub open spec fn actor_ok(self, i: int) -> bool {
        &&& self.actors@[i].character.wf(self.map)
        &&& self.actors@[i].character.my_turn == i
        &&& self.actors@[i].character.cmd_list_pos <= self.actors@[i].character.command_list@.len()
        &&& self.actors@[i].role == (if i == self.actors@.len() - 1 {
            ActorRole::Active
        } else {
            ActorRole::Replaying
        })
    }

    /// Well-formedness of a running level, established by `load` and
    /// preserved by every tick phase.
    pub open spec fn wf(self) -> bool {
        &&& self.map.well_formed()
        &&& 1 <= self.map.width
        &&& 1 <= self.map.height
        &&& self.occupation.0@.len() == self.map.cell_count()
        &&& 1 <= self.actors@.len()
        &&& self.actors@.len() == self.turn.active_ent_refresh + 1
        &&& self.turn.active_ent <= self.turn.active_ent_refresh
        &&& self.turn.turn <= self.turn_limit()
        &&& forall|i: int| 0 <= i < self.actors@.len() ==> #[trigger] self.actor_ok(i)
        &&& forall|i: int|
            0 <= i < self.buttons@.len() ==> (#[trigger] self.buttons@[i]).pos.in_bounds(
                self.width(),
                self.height(),
            )
        &&& forall|i: int|
            0 <= i < self.doors@.len() ==> (#[trigger] self.doors@[i]).pos.in_bounds(
                self.width(),
                self.height(),
            )
        &&& forall|c: usize|
            #[trigger] self.signals.seen_of(c) == pressed_count(self.buttons@, c)
    }

    /// A cell is blocked at the top of a tick when a character stands on it
    /// or a closed door occupies it.
    pub open spec fn cell_blocked(self, i: int) -> bool {
        ||| exists|j: int|
            0 <= j < self.actors@.len() && (#[trigger] self.actors@[j]).character.current.flat(
                self.width(),
            ) == i
        ||| exists|j: int|
            0 <= j < self.doors@.len() && !(#[trigger] self.doors@[j]).last_collide
                && self.doors@[j].pos.flat(self.width()) == i
    }

    /// Build a running level from a freshly loaded map: the first character
    /// on the first start blueprint, buttons registered on their channels,
    /// doors and goals placed, the scheduler at its initial single-actor
    /// state, and the ghost budget taken from the map (one rollover where
    /// the map sets none). A malformed map is refused outright: the
    /// simulation never starts on data it could index out of bounds.
    pub fn load(map: TerrainMap) -> (r: Result<World, LoadError>)
        ensures
            map.width < 0 || map.height < 0 ==> r == Err::<World, LoadError>(
                LoadError::NegativeDimensions,
            ),
            map.width >= 0 && map.height >= 0 && map.width * map.height > isize::MAX ==> r == Err::<
                World,
                LoadError,
            >(LoadError::OversizedMap),
            map.width >= 0 && map.height >= 0 && map.width * map.height <= isize::MAX
                && !map.well_formed() ==> r == Err::<World, LoadError>(LoadError::MismatchedArrays),
            map.well_formed() && (exists|i: int|
                0 <= i < ents_of(map).len() && !(#[trigger] ents_of(map)[i]).pos.in_bounds(
                    map.width as int,
                    map.height as int,
                )) ==> r == Err::<World, LoadError>(LoadError::BlueprintOutOfBounds),
            map.well_formed() && (forall|i: int|
                0 <= i < ents_of(map).len() ==> (#[trigger] ents_of(map)[i]).pos.in_bounds(
                    map.width as int,
                    map.height as int,
                )) && (forall|i: int|
                0 <= i < ents_of(map).len() ==> (#[trigger] ents_of(map)[i]).data
                    != EntData::Start) ==> r == Err::<World, LoadError>(LoadError::MissingStart),
            (r is Ok) <==> (map.well_formed() && (forall|i: int|
                0 <= i < ents_of(map).len() ==> (#[trigger] ents_of(map)[i]).pos.in_bounds(
                    map.width as int,
                    map.height as int,
                )) && (exists|i: int|
                0 <= i < ents_of(map).len() && (#[trigger] ents_of(map)[i]).data
                    == EntData::Start)),
            r matches Ok(w) ==> {
                &&& w.wf()
                &&& w.map == map
                &&& w.turn == ActiveTurn::initial()
                &&& w.ghost_limit == (match map.ghost_limit {
                    Some(g) => g,
                    None => GhostLimit(1usize),
                })
                &&& w.actors@.len() == 1
                &&& w.actors@[0].role == ActorRole::Active
                &&& (exists|s: int|
                    0 <= s < ents_of(map).len() && (#[trigger] ents_of(map)[s]).data
                        == EntData::Start && w.actors@[0].character.start == ents_of(map)[s].pos
                        && (forall|t: int|
                        0 <= t < s ==> (#[trigger] ents_of(map)[t]).data != EntData::Start))
                &&& w.actors@[0].character.current == w.actors@[0].character.start
                &&& w.actors@[0].character.command_list@ == Seq::<CharacterCommand>::empty()
                &&& w.actors@[0].character.cmd_list_pos == 0
                &&& w.actors@[0].character.my_turn == 0
                &&& w.buttons@ == buttons_of(ents_of(map))
                &&& w.doors@ == doors_of(ents_of(map))
                &&& w.enders@ == enders_of(ents_of(map))
                &&& w.occupation.0@.len() == map.cell_count()
                &&& (forall|i: int| 0 <= i < map.cell_count() ==> !w.occupation.0@[i])
                &&& (forall|c: usize|
                    #[trigger] w.signals.needed_of(c) == channel_count(
                        buttons_of(ents_of(map)),
                        c,
                    ))
                &&& (forall|c: usize| #[trigger] w.signals.seen_of(c) == 0)
            },
    {
        if map.width < 0 || map.height < 0 {
            return Err(LoadError::NegativeDimensions);
        }
        if map.height > 0 && map.width > isize::MAX / map.height {
            proof {
                let w = map.width as int;
                let h = map.height as int;
                let q = (isize::MAX as int) / h;
                let rem = (isize::MAX as int) % h;
                vstd::arithmetic::div_mod::lemma_fundamental_div_mod(isize::MAX as int, h);
                vstd::arithmetic::div_mod::lemma_mod_bound(isize::MAX as int, h);
                assert(w * h > isize::MAX) by (nonlinear_arith)
                    requires
                        w >= q + 1,
                        h > 0,
                        isize::MAX as int == h * q + rem,
                        0 <= rem < h,
                ;
            }
            return Err(LoadError::OversizedMap);
        }
        proof {
            let w = map.width as int;
            let h = map.height as int;
            if h > 0 {
                let q = (isize::MAX as int) / h;
                let rem = (isize::MAX as int) % h;
                vstd::arithmetic::div_mod::lemma_fundamental_div_mod(isize::MAX as int, h);
                vstd::arithmetic::div_mod::lemma_mod_bound(isize::MAX as int, h);
                assert(w * h <= isize::MAX) by (nonlinear_arith)
                    requires
                        0 <= w <= q,
                        h > 0,
                        isize::MAX as int == h * q + rem,
                        0 <= rem < h,
                ;
            } else {
                assert(w * h == 0) by (nonlinear_arith)
                    requires
                        h == 0,
                ;
            }
            assert(0 <= w * h) by (nonlinear_arith)
                requires
                    0 <= w,
                    0 <= h,
            ;
        }
        let cells = (map.width * map.height) as usize;
        if map.tiles.len() != cells || map.tile_shapes.len() != cells || map.tile_rots.len()
            != cells || map.heights.len() != cells {
            return Err(LoadError::MismatchedArrays);
        }
        assert(map.well_formed());

        let ents_ref = match &map.ents {
            Some(v) => v,
            None => {
                return Err(LoadError::MissingStart);
            },
        };

        let mut i: usize = 0;
        while i < ents_ref.len()
            invariant
                ents_ref@ == ents_of(map),
                map.well_formed(),
                i <= ents_ref@.len(),
                forall|k: int|
                    0 <= k < i ==> (#[trigger] ents_ref@[k]).pos.in_bounds(
                        map.width as int,
                        map.height as int,
                    ),
            decreases ents_ref@.len() - i,
        {
            let p = ents_ref[i].pos;
            if !(p.x >= 0 && p.x < map.width && p.y >= 0 && p.y < map.height) {
                return Err(LoadError::BlueprintOutOfBounds);
            }
            i = i + 1;
        }

        let mut s: usize = 0;
        let mut start_found: Option<GridPosition> = None;
        let ghost mut start_at: int = 0;
        while s < ents_ref.len()
            invariant
                ents_ref@ == ents_of(map),
                s <= ents_ref@.len(),
                match start_found {
                    Some(p) => 0 <= start_at < ents_ref@.len() && ents_ref@[start_at].data
                        == EntData::Start && ents_ref@[start_at].pos == p && (forall|t: int|
                        0 <= t < start_at ==> (#[trigger] ents_ref@[t]).data != EntData::Start),
                    None => forall|t: int|
                        0 <= t < s ==> (#[trigger] ents_ref@[t]).data != EntData::Start,
                },
            decreases ents_ref@.len() - s,
        {
            if start_found.is_none() {
                match ents_ref[s].data {
                    EntData::Start => {
                        start_found = Some(ents_ref[s].pos);
                        proof {
                            start_at = s as int;
                        }
                    },
                    _ => {},
                }
            }
            s = s + 1;
        }
        let start_pos = match start_found {
            Some(p) => p,
            None => {
                return Err(LoadError::MissingStart);
            },
        };

        let mut signals = SignalCounter::new();
        let mut buttons: Vec<FireSignalOnCollide> = Vec::new();
        let mut doors: Vec<OccupySpaceUntilSignal> = Vec::new();
        let mut enders: Vec<Ender> = Vec::new();

        let mut b: usize = 0;
        while b < ents_ref.len()
            invariant
                ents_ref@ == ents_of(map),
                map.well_formed(),
                b <= ents_ref@.len(),
                forall|k: int|
                    0 <= k < ents_ref@.len() ==> (#[trigger] ents_ref@[k]).pos.in_bounds(
                        map.width as int,
                        map.height as int,
                    ),
                buttons@ == buttons_of(ents_ref@.take(b as int)),
                doors@ == doors_of(ents_ref@.take(b as int)),
                enders@ == enders_of(ents_ref@.take(b as int)),
                forall|k: int|
                    0 <= k < buttons@.len() ==> (#[trigger] buttons@[k]).pos.in_bounds(
                        map.width as int,
                        map.height as int,
                    ) && !buttons@[k].last_collide,
                forall|k: int|
                    0 <= k < doors@.len() ==> (#[trigger] doors@[k]).pos.in_bounds(
                        map.width as int,
                        map.height as int,
                    ),
                forall|c: usize| #[trigger] signals.needed_of(c) == channel_count(buttons@, c),
                forall|c: usize| #[trigger] signals.seen_of(c) == 0,
                forall|c: usize| #[trigger] pressed_count(buttons@, c) == 0,
            decreases ents_ref@.len() - b,
        {
            let ghost presignals = signals;
            let ghost prebuttons = buttons@;
            let ghost taken = ents_ref@.take(b as int);
            let ghost taken1 = ents_ref@.take(b as int + 1);
            proof {
                assert(taken1.drop_last() =~= taken);
                assert(taken1.last() == ents_ref@[b as int]);
            }
            let bp = ents_ref[b];
            match bp.data {
                EntData::Start => {},
                EntData::End => {
                    enders.push(Ender { pos: bp.pos, fired: false });
                },
                EntData::Button(ch) => {
                    let nb = FireSignalOnCollide::new(ch.0, bp.pos);
                    proof {
                        crate::signals::lemma_channel_count_le(prebuttons, ch.0);
                        lemma_buttons_of_len(taken);
                    }
                    buttons.push(nb);
                    signals.register_signal_source(ch.0);
                    proof {
                        assert forall|c: usize|
                            #[trigger] signals.needed_of(c) == channel_count(buttons@, c) by {
                            crate::signals::lemma_channel_count_push(prebuttons, nb, c);
                            if c != ch.0 {
                                assert(SignalCounter::same_channel(signals, presignals, c));
                            }
                        }
                        assert forall|c: usize| #[trigger] signals.seen_of(c) == 0 by {
                            if c != ch.0 {
                                assert(SignalCounter::same_channel(signals, presignals, c));
                            }
                        }
                        assert forall|c: usize| #[trigger] pressed_count(buttons@, c) == 0 by {
                            crate::signals::lemma_pressed_count_push(prebuttons, nb, c);
                        }
                    }
                },
                EntData::Door(ch) => {
                    doors.push(OccupySpaceUntilSignal::new(ch.0, bp.pos));
                },
            }
            b = b + 1;
        }
        proof {
            assert(ents_ref@.take(ents_ref@.len() as int) =~= ents_ref@);
        }

        let mut occupation = OccupationMap(Vec::new());
        let no_occupants: Vec<GridPosition> = Vec::new();
        occupation.rebuild(&map, &no_occupants);

        let mut actors: Vec<Actor> = Vec::new();
        actors.push(Actor { character: Character::new(start_pos), role: ActorRole::Active });

        let ghosts = match map.ghost_limit {
            Some(g) => g,
            None => GhostLimit(1),
        };

        let world = World {
            map,
            occupation,
            signals,
            turn: ActiveTurn { active_ent_refresh: 0, active_ent: 0, turn: 0, block_turn: false },
            ghost_limit: ghosts,
            actors,
            buttons,
            doors,
            enders,
        };
        proof {
            assert(world.actor_ok(0));
            assert forall|c: usize|
                #[trigger] world.signals.seen_of(c) == pressed_count(world.buttons@, c) by {
                assert(world.signals.seen_of(c) == 0);
                assert(pressed_count(world.buttons@, c) == 0);
            }
        }
        Ok(world)
    }

    /// Occupancy phase: discard the previous snapshot and mark exactly the
    /// cells under characters and closed doors.
    pub fn rebuild_occupancy(&mut self)
        requires
            old(self).wf(),
        ensures
            final(self).wf(),
            final(self).occupation.0@.len() == old(self).map.cell_count(),
            forall|i: int|
                0 <= i < old(self).map.cell_count() ==> (final(self).occupation.0@[i]
                    == old(self).cell_blocked(i)),
            final(self).map == old(self).map,
            final(self).signals == old(self).signals,
            final(self).turn == old(self).turn,
            final(self).ghost_limit == old(self).ghost_limit,
            final(self).actors@ == old(self).actors@,
            final(self).buttons@ == old(self).buttons@,
            final(self).doors@ == old(self).doors@,
            final(self).enders@ == old(self).enders@,
    {
        let mut occupants: Vec<GridPosition> = Vec::new();

        let mut j: usize = 0;
        while j < self.actors.len()
            invariant
                self.wf(),
                j <= self.actors@.len(),
                occupants@.len() == j,
                forall|k: int|
                    0 <= k < j ==> occupants@[k] == (#[trigger] self.actors@[k]).character.current,
            decreases self.actors@.len() - j,
        {
            proof {
                assert(self.actor_ok(j as int));
            }
            occupants.push(self.actors[j].character.current);
            j = j + 1;
        }

        let actor_total = occupants.len();
        let ghost n_actors: int = self.actors@.len() as int;

        let mut d: usize = 0;
        while d < self.doors.len()
            invariant
                self.wf(),
                d <= self.doors@.len(),
                actor_total == n_actors,
                n_actors == self.actors@.len(),
                occupants@.len() >= n_actors,
                forall|k: int|
                    0 <= k < n_actors ==> occupants@[k] == (
                    #[trigger] self.actors@[k]).character.current,
                occupants@ == occupants@.take(n_actors) + closed_door_positions(
                    self.doors@.take(d as int),
                ),
            decreases self.doors@.len() - d,
        {
            let ghost before = occupants@;
            let ghost base = occupants@.take(n_actors);
            let closed = !self.doors[d].last_collide;
            if closed {
                occupants.push(self.doors[d].pos);
            }
            proof {
                let taken = self.doors@.take(d as int);
                let taken1 = self.doors@.take(d + 1);
                assert(taken1.drop_last() =~= taken);
                assert(taken1.last() == self.doors@[d as int]);
                assert(closed_door_positions(taken1) == if closed {
                    closed_door_positions(taken).push(self.doors@[d as int].pos)
                } else {
                    closed_door_positions(taken)
                });
                if closed {
                    assert(occupants@ =~= base + closed_door_positions(taken1));
                }
                assert(occupants@.take(n_actors) =~= base);
            }
            d = d + 1;
        }

        proof {
            assert(self.doors@.take(self.doors@.len() as int) =~= self.doors@);
            lemma_closed_door_positions_len(self.doors@);
            assert(occupants@.take(n_actors).len() == n_actors);
            assert(occupants@ == occupants@.take(n_actors) + closed_door_positions(self.doors@));
            assert forall|k: int| 0 <= k < occupants@.len() implies occupants@[k].in_bounds(
                self.width(),
                self.height(),
            ) by {
                if k < n_actors {
                    assert(self.actor_ok(k));
                } else {
                    lemma_closed_door_positions_origin(self.doors@, k - n_actors);
                    let q = choose|q: int|
                        0 <= q < self.doors@.len() && !(#[trigger] self.doors@[q]).last_collide
                            && self.doors@[q].pos == closed_door_positions(self.doors@)[k
                            - n_actors];
                    assert(occupants@[k] == self.doors@[q].pos);
                }
            }
        }

        self.occupation.rebuild(&self.map, &occupants);

        proof {
            let w = self.width();
            let doors = self.doors@;
            assert forall|i: int| 0 <= i < self.map.cell_count() implies (self.occupation.0@[i]
                == old(self).cell_blocked(i)) by {
                if self.occupation.0@[i] {
                    let k = choose|k: int|
                        0 <= k < occupants@.len() && occupants@[k].flat(w) == i;
                    if k < n_actors {
                        assert(self.actors@[k].character.current.flat(w) == i);
                    } else {
                        lemma_closed_door_positions_origin(doors, k - n_actors);
                        let q = choose|q: int|
                            0 <= q < doors.len() && !(#[trigger] doors[q]).last_collide
                                && doors[q].pos == closed_door_positions(doors)[k - n_actors];
                        assert(self.doors@[q].pos.flat(w) == i);
                    }
                }
                if old(self).cell_blocked(i) {
                    if exists|j: int|
                        0 <= j < self.actors@.len() && (
                        #[trigger] self.actors@[j]).character.current.flat(w) == i {
                        let jj = choose|j: int|
                            0 <= j < self.actors@.len() && (
                            #[trigger] self.actors@[j]).character.current.flat(w) == i;
                        assert(occupants@[jj].flat(w) == i);
                    } else {
                        let q = choose|q: int|
                            0 <= q < doors.len() && !(#[trigger] doors[q]).last_collide
                                && doors[q].pos.flat(w) == i;
                        let k = lemma_closed_door_positions_contains(doors, q);
                        assert(occupants@[n_actors + k] == closed_door_positions(doors)[k]);
                        assert(occupants@[n_actors + k].flat(w) == i);
                    }
                }
            }
            assert forall|i: int| 0 <= i < self.actors@.len() implies #[trigger] self.actor_ok(
                i,
            ) by {
                assert(old(self).actor_ok(i));
            }
            assert forall|c: usize|
                #[trigger] self.signals.seen_of(c) == pressed_count(self.buttons@, c) by {
                assert(old(self).signals.seen_of(c) == pressed_count(old(self).buttons@, c));
            }
        }
    }

    /// Index of the actor owning the current subturn.
    pub open spec fn acting_index(self) -> int {
        self.turn.active_ent as int
    }

    /// The command the scheduled actor would attempt this tick: the live
    /// input for the active actor, the recorded command under the cursor
    /// for a ghost, and none for a ghost past its history.
    pub open spec fn acting_command(self, input: Option<CharacterCommand>) -> Option<
        CharacterCommand,
    > {
        let a = self.actors@[self.acting_index()];
        match a.role {
            ActorRole::Active => input,
            ActorRole::Replaying => if a.character.cmd_list_pos < a.character.command_list@.len() {
                Some(a.character.command_list@[a.character.cmd_list_pos as int])
            } else {
                None
            },
        }
    }

    /// The scheduled actor takes its turn this tick: the scheduler gate is
    /// open and, for the active actor, live input arrived.
    pub open spec fn tick_acts(self, input: Option<CharacterCommand>) -> bool {
        &&& self.turn.allow_turn_spec(self.turn_limit(), self.turn.active_ent)
        &&& (self.actors@[self.acting_index()].role == ActorRole::Replaying || input is Some)
    }

    /// Actor phase: exactly one eligible actor acts per tick. The active
    /// actor records the supplied command in its history before legality is
    /// checked, then attempts it; a ghost attempts the recorded command
    /// under its cursor. Either way the scheduler marches, legal move or
    /// not. `None`: nobody acted. `Some(m)`: the scheduled actor acted, and
    /// `m` is the active actor's normalized destination when its move
    /// succeeded (ghost turns report no movement event, as only live moves
    /// feed the footstep collaborator).
    pub fn take_turn(&mut self, input: Option<CharacterCommand>) -> (r: Option<
        Option<GridPosition>,
    >)
        requires
            old(self).wf(),
        ensures
            final(self).wf(),
            final(self).map == old(self).map,
            final(self).signals == old(self).signals,
            final(self).ghost_limit == old(self).ghost_limit,
            final(self).buttons@ == old(self).buttons@,
            final(self).doors@ == old(self).doors@,
            final(self).enders@ == old(self).enders@,
            final(self).actors@.len() == old(self).actors@.len(),
            (r is Some) == old(self).tick_acts(input),
            !old(self).tick_acts(input) ==> *final(self) == *old(self),
            old(self).tick_acts(input) ==> {
                let idx = old(self).acting_index();
                let a = old(self).actors@[idx];
                let cmd = old(self).acting_command(input);
                &&& final(self).turn == old(self).turn.march_spec()
                &&& forall|k: int|
                    0 <= k < old(self).actors@.len() && k != idx ==> final(self).actors@[k] == old(
                        self,
                    ).actors@[k]
                &&& final(self).actors@[idx].role == a.role
                &&& final(self).actors@[idx].character.start == a.character.start
                &&& final(self).actors@[idx].character.my_turn == a.character.my_turn
                &&& match cmd {
                    Some(c) => {
                        &&& final(self).actors@[idx].character.current == step_pos(
                            old(self).map,
                            old(self).occupation.0@,
                            a.character.current,
                            c,
                        )
                        &&& final(self).occupation.0@ == step_occ(
                            old(self).map,
                            old(self).occupation.0@,
                            a.character.current,
                            c,
                        )
                    },
                    None => {
                        &&& final(self).actors@[idx].character.current == a.character.current
                        &&& final(self).occupation.0@ == old(self).occupation.0@
                    },
                }
                &&& (a.role == ActorRole::Active ==> {
                    &&& final(self).actors@[idx].character.command_list@
                        == a.character.command_list@.push(input.unwrap())
                    &&& final(self).actors@[idx].character.cmd_list_pos == a.character.cmd_list_pos
                    &&& r == Some(
                        if action_allowed(
                            old(self).map,
                            old(self).occupation.0@,
                            a.character.current,
                            input.unwrap(),
                        ) {
                            Some(a.character.current.destination_spec(input.unwrap()))
                        } else {
                            None::<GridPosition>
                        },
                    )
                })
                &&& (a.role == ActorRole::Replaying ==> {
                    &&& final(self).actors@[idx].character.command_list@
                        == a.character.command_list@
                    &&& final(self).actors@[idx].character.cmd_list_pos == (
                    if a.character.cmd_list_pos < a.character.command_list@.len() {
                        a.character.cmd_list_pos + 1
                    } else {
                        a.character.cmd_list_pos as int
                    })
                    &&& r == Some(None::<GridPosition>)
                })
            },
    {
        let limit = self.map.turn_limit.0;
        let idx = self.turn.active_ent;
        proof {
            assert(self.actor_ok(idx as int));
        }
        if !self.turn.allow_turn(limit, idx) {
            return None;
        }
        let role = self.actors[idx].role;
        match role {
            ActorRole::Active => {
                match input {
                    Some(cmd) => {
                        let a = &mut self.actors[idx];
                        a.character.command_list.push(cmd);
                        let moved = a.character.do_action(cmd, &self.map, &mut self.occupation);
                        self.turn.march_turn();
                        proof {
                            self.lemma_reestablish_wf_after_turn(*old(self), idx as int);
                        }
                        Some(moved)
                    },
                    None => None,
                }
            },
            ActorRole::Replaying => {
                let a = &mut self.actors[idx];
                a.character.do_queued_action(&self.map, &mut self.occupation);
                self.turn.march_turn();
                proof {
                    self.lemma_reestablish_wf_after_turn(*old(self), idx as int);
                }
                Some(None)
            },
        }
    }

    /// The well-formedness quantifiers carry over a single-actor update
    /// followed by a scheduler march.
    proof fn lemma_reestablish_wf_after_turn(self, prev: World, idx: int)
        requires
            prev.wf(),
            0 <= idx < prev.actors@.len(),
            self.map == prev.map,
            self.signals == prev.signals,
            self.buttons@ == prev.buttons@,
            self.doors@ == prev.doors@,
            self.actors@.len() == prev.actors@.len(),
            forall|k: int|
                0 <= k < prev.actors@.len() && k != idx ==> self.actors@[k] == prev.actors@[k],
            self.actors@[idx].role == prev.actors@[idx].role,
            self.actors@[idx].character.my_turn == prev.actors@[idx].character.my_turn,
            self.actors@[idx].character.wf(self.map),
            self.actors@[idx].character.cmd_list_pos
                <= self.actors@[idx].character.command_list@.len(),
            self.occupation.0@.len() == self.map.cell_count(),
            prev.turn.turn < prev.turn_limit(),
            self.turn == prev.turn.march_spec(),
            self.ghost_limit == prev.ghost_limit,
        ensures
            self.wf(),
    {
        assert forall|i: int| 0 <= i < self.actors@.len() implies #[trigger] self.actor_ok(i) by {
            assert(prev.actor_ok(i));
        }
        assert forall|c: usize|
            #[trigger] self.signals.seen_of(c) == pressed_count(self.buttons@, c) by {
            assert(prev.signals.seen_of(c) == pressed_count(prev.buttons@, c));
        }
        assert forall|i: int|
            0 <= i < self.buttons@.len() implies (#[trigger] self.buttons@[i]).pos.in_bounds(
            self.width(),
            self.height(),
        ) by {
            assert(prev.buttons@[i].pos.in_bounds(prev.width(), prev.height()));
        }
        assert forall|i: int|
            0 <= i < self.doors@.len() implies (#[trigger] self.doors@[i]).pos.in_bounds(
            self.width(),
            self.height(),
        ) by {
            assert(prev.doors@[i].pos.in_bounds(prev.width(), prev.height()));
        }
    }

    /// Signal phase: every button compares its cell's occupancy with what
    /// it saw last tick and fires its channel on the edge — an increment on
    /// false-to-true, a decrement on true-to-false. Required counts are
    /// untouched; afterwards every button's memory matches the occupancy it
    /// just read.
    pub fn update_buttons(&mut self)
        requires
            old(self).wf(),
        ensures
            final(self).wf(),
            final(self).map == old(self).map,
            final(self).occupation.0@ == old(self).occupation.0@,
            final(self).turn == old(self).turn,
            final(self).ghost_limit == old(self).ghost_limit,
            final(self).actors@ == old(self).actors@,
            final(self).doors@ == old(self).doors@,
            final(self).enders@ == old(self).enders@,
            final(self).buttons@.len() == old(self).buttons@.len(),
            forall|i: int|
                0 <= i < old(self).buttons@.len() ==> {
                    let b = #[trigger] final(self).buttons@[i];
                    let ob = old(self).buttons@[i];
                    &&& b.signal == ob.signal
                    &&& b.pos == ob.pos
                    &&& b.last_collide == old(self).occupation.0@[ob.pos.flat(old(self).width())]
                },
            forall|c: usize|
                #[trigger] final(self).signals.needed_of(c) == old(self).signals.needed_of(c),
            forall|c: usize|
                #[trigger] final(self).signals.seen_of(c) == pressed_count(
                    final(self).buttons@,
                    c,
                ),
    {
        let mut i: usize = 0;
        while i < self.buttons.len()
            invariant
                self.wf(),
                i <= self.buttons@.len(),
                self.map == old(self).map,
                self.occupation.0@ == old(self).occupation.0@,
                self.turn == old(self).turn,
                self.ghost_limit == old(self).ghost_limit,
                self.actors@ == old(self).actors@,
                self.doors@ == old(self).doors@,
                self.enders@ == old(self).enders@,
                self.buttons@.len() == old(self).buttons@.len(),
                forall|k: int|
                    0 <= k < i ==> {
                        let b = #[trigger] self.buttons@[k];
                        let ob = old(self).buttons@[k];
                        &&& b.signal == ob.signal
                        &&& b.pos == ob.pos
                        &&& b.last_collide == old(self).occupation.0@[ob.pos.flat(
                            old(self).width(),
                        )]
                    },
                forall|k: int|
                    i <= k < self.buttons@.len() ==> #[trigger] self.buttons@[k] == old(
                        self,
                    ).buttons@[k],
                forall|c: usize|
                    #[trigger] self.signals.needed_of(c) == old(self).signals.needed_of(c),
            decreases self.buttons@.len() - i,
        {
            let b = self.buttons[i];
            proof {
                crate::grid::lemma_flat_index_bound(b.pos, self.width(), self.height());
            }
            let pos_idx = b.pos.unroll(self.map.width) as usize;
            let occupied = self.occupation.0[pos_idx];

            if occupied != b.last_collide {
                let ghost pre = *self;
                let ghost oldbtns = self.buttons@;
                let nb = FireSignalOnCollide {
                    signal: b.signal,
                    pos: b.pos,
                    last_collide: occupied,
                };
                if occupied {
                    proof {
                        crate::signals::lemma_pressed_count_slack(oldbtns, i as int, b.signal);
                    }
                    self.signals.increment_signal(b.signal);
                } else {
                    proof {
                        crate::signals::lemma_pressed_count_pos(oldbtns, i as int, b.signal);
                    }
                    self.signals.decrement_signal(b.signal);
                }
                self.buttons.set(i, nb);
                proof {
                    assert forall|c: usize|
                        #[trigger] self.signals.seen_of(c) == pressed_count(self.buttons@, c) by {
                        crate::signals::lemma_pressed_count_update(oldbtns, i as int, nb, c);
                        assert(pre.signals.seen_of(c) == pressed_count(oldbtns, c));
                        if c != b.signal {
                            assert(SignalCounter::same_channel(self.signals, pre.signals, c));
                        }
                    }
                    assert forall|c: usize|
                        #[trigger] self.signals.needed_of(c) == old(self).signals.needed_of(c) by {
                        assert(pre.signals.needed_of(c) == old(self).signals.needed_of(c));
                        if c != b.signal {
                            assert(SignalCounter::same_channel(self.signals, pre.signals, c));
                        }
                    }
                    self.lemma_reestablish_wf_frame(pre);
                }
            }
            i = i + 1;
        }
    }

    /// The well-formedness quantifiers carry over a phase that moves no
    /// actor, keeps the turn state, and changes buttons only in their
    /// memory flag.
    proof fn lemma_reestablish_wf_frame(self, prev: World)
        requires
            prev.wf(),
            self.map == prev.map,
            self.actors@ == prev.actors@,
            self.doors@.len() == prev.doors@.len(),
            forall|i: int|
                0 <= i < self.doors@.len() ==> (#[trigger] self.doors@[i]).pos
                    == prev.doors@[i].pos,
            self.turn.active_ent_refresh == prev.turn.active_ent_refresh,
            self.turn.active_ent == prev.turn.active_ent,
            self.turn.turn == prev.turn.turn,
            self.ghost_limit == prev.ghost_limit,
            self.occupation.0@.len() == prev.occupation.0@.len(),
            self.buttons@.len() == prev.buttons@.len(),
            forall|i: int|
                0 <= i < self.buttons@.len() ==> (#[trigger] self.buttons@[i]).pos
                    == prev.buttons@[i].pos,
            forall|c: usize|
                #[trigger] self.signals.seen_of(c) == pressed_count(self.buttons@, c),
        ensures
            self.wf(),
    {
        assert forall|i: int| 0 <= i < self.actors@.len() implies #[trigger] self.actor_ok(i) by {
            assert(prev.actor_ok(i));
        }
        assert forall|i: int|
            0 <= i < self.buttons@.len() implies (#[trigger] self.buttons@[i]).pos.in_bounds(
            self.width(),
            self.height(),
        ) by {
            assert(prev.buttons@[i].pos.in_bounds(prev.width(), prev.height()));
        }
        assert forall|i: int|
            0 <= i < self.doors@.len() implies (#[trigger] self.doors@[i]).pos.in_bounds(
            self.width(),
            self.height(),
        ) by {
            assert(prev.doors@[i].pos.in_bounds(prev.width(), prev.height()));
        }
    }

    /// Door phase: every door reads its channel and remembers the state,
    /// and its cell's occupancy is set to "blocked" exactly when the
    /// channel is unsatisfied — a closed door occupies its cell, an open
    /// one frees it. Where several doors share a cell, the later one in
    /// the roster decides.
    pub fn update_doors(&mut self)
        requires
            old(self).wf(),
        ensures
            final(self).wf(),
            final(self).map == old(self).map,
            final(self).signals == old(self).signals,
            final(self).turn == old(self).turn,
            final(self).ghost_limit == old(self).ghost_limit,
            final(self).actors@ == old(self).actors@,
            final(self).buttons@ == old(self).buttons@,
            final(self).enders@ == old(self).enders@,
            final(self).doors@.len() == old(self).doors@.len(),
            forall|i: int|
                0 <= i < old(self).doors@.len() ==> {
                    let d = #[trigger] final(self).doors@[i];
                    let od = old(self).doors@[i];
                    &&& d.signal == od.signal
                    &&& d.pos == od.pos
                    &&& d.last_collide == old(self).signals.met_spec(od.signal)
                },
            final(self).occupation.0@.len() == old(self).occupation.0@.len(),
            forall|i: int|
                0 <= i < old(self).occupation.0@.len() ==> final(self).occupation.0@[i] == {
                    let q = last_door_index(old(self).doors@, old(self).width(), i);
                    if q >= 0 {
                        !old(self).signals.met_spec(old(self).doors@[q].signal)
                    } else {
                        old(self).occupation.0@[i]
                    }
                },
    {
        let mut d: usize = 0;
        while d < self.doors.len()
            invariant
                self.wf(),
                d <= self.doors@.len(),
                self.map == old(self).map,
                self.signals == old(self).signals,
                self.turn == old(self).turn,
                self.ghost_limit == old(self).ghost_limit,
                self.actors@ == old(self).actors@,
                self.buttons@ == old(self).buttons@,
                self.enders@ == old(self).enders@,
                self.doors@.len() == old(self).doors@.len(),
                forall|k: int|
                    0 <= k < d ==> {
                        let nd = #[trigger] self.doors@[k];
                        let od = old(self).doors@[k];
                        &&& nd.signal == od.signal
                        &&& nd.pos == od.pos
                        &&& nd.last_collide == old(self).signals.met_spec(od.signal)
                    },
                forall|k: int|
                    d <= k < self.doors@.len() ==> #[trigger] self.doors@[k] == old(
                        self,
                    ).doors@[k],
                self.occupation.0@.len() == old(self).occupation.0@.len(),
                forall|i: int|
                    0 <= i < old(self).occupation.0@.len() ==> self.occupation.0@[i] == {
                        let q = last_door_index(old(self).doors@.take(d as int), old(self).width(), i);
                        if q >= 0 {
                            !old(self).signals.met_spec(old(self).doors@[q].signal)
                        } else {
                            old(self).occupation.0@[i]
                        }
                    },
            decreases self.doors@.len() - d,
        {
            let ghost pre = *self;
            let door = self.doors[d];
            proof {
                crate::grid::lemma_flat_index_bound(door.pos, self.width(), self.height());
            }
            let pos_idx = door.pos.unroll(self.map.width) as usize;
            let met = self.signals.signal_met(door.signal);
            self.doors.set(
                d,
                OccupySpaceUntilSignal { signal: door.signal, pos: door.pos, last_collide: met },
            );
            self.occupation.0.set(pos_idx, !met);
            proof {
                let w = old(self).width();
                let taken = old(self).doors@.take(d as int);
                let taken1 = old(self).doors@.take(d + 1);
                assert(taken1.drop_last() =~= taken);
                assert(taken1.last() == old(self).doors@[d as int]);
                assert forall|i: int|
                    0 <= i < old(self).occupation.0@.len() implies self.occupation.0@[i] == {
                    let q = last_door_index(taken1, w, i);
                    if q >= 0 {
                        !old(self).signals.met_spec(old(self).doors@[q].signal)
                    } else {
                        old(self).occupation.0@[i]
                    }
                } by {
                    if i == door.pos.flat(w) {
                        assert(last_door_index(taken1, w, i) == d);
                    } else {
                        assert(last_door_index(taken1, w, i) == last_door_index(taken, w, i));
                        assert(self.occupation.0@[i] == pre.occupation.0@[i]);
                    }
                }
                self.lemma_reestablish_wf_frame(pre);
            }
            d = d + 1;
        }
        proof {
            assert(old(self).doors@.take(self.doors@.len() as int) =~= old(self).doors@);
        }
    }

    /// Win phase: each goal cell that has not yet fired checks whether any
    /// character stands on it; on the first match it fires, once per level
    /// instance. Returns whether any goal fired this tick.
    pub fn check_win(&mut self) -> (r: bool)
        requires
            old(self).wf(),
        ensures
            final(self).wf(),
            final(self).map == old(self).map,
            final(self).signals == old(self).signals,
            final(self).turn == old(self).turn,
            final(self).ghost_limit == old(self).ghost_limit,
            final(self).actors@ == old(self).actors@,
            final(self).buttons@ == old(self).buttons@,
            final(self).doors@ == old(self).doors@,
            final(self).occupation.0@ == old(self).occupation.0@,
            final(self).enders@.len() == old(self).enders@.len(),
            forall|e: int|
                0 <= e < old(self).enders@.len() ==> #[trigger] final(self).enders@[e] == (Ender {
                    pos: old(self).enders@[e].pos,
                    fired: old(self).enders@[e].fired || old(self).someone_at(
                        old(self).enders@[e].pos,
                    ),
                }),
            r == exists|e: int|
                0 <= e < old(self).enders@.len() && !(#[trigger] old(self).enders@[e]).fired && old(
                    self,
                ).someone_at(old(self).enders@[e].pos),
    {
        let mut won = false;
        let mut e: usize = 0;
        while e < self.enders.len()
            invariant
                self.wf(),
                e <= self.enders@.len(),
                self.map == old(self).map,
                self.signals == old(self).signals,
                self.turn == old(self).turn,
                self.ghost_limit == old(self).ghost_limit,
                self.actors@ == old(self).actors@,
                self.buttons@ == old(self).buttons@,
                self.doors@ == old(self).doors@,
                self.occupation.0@ == old(self).occupation.0@,
                self.enders@.len() == old(self).enders@.len(),
                forall|k: int|
                    0 <= k < e ==> #[trigger] self.enders@[k] == (Ender {
                        pos: old(self).enders@[k].pos,
                        fired: old(self).enders@[k].fired || old(self).someone_at(
                            old(self).enders@[k].pos,
                        ),
                    }),
                forall|k: int|
                    e <= k < self.enders@.len() ==> #[trigger] self.enders@[k] == old(
                        self,
                    ).enders@[k],
                won == exists|k: int|
                    0 <= k < e && !(#[trigger] old(self).enders@[k]).fired && old(self).someone_at(
                        old(self).enders@[k].pos,
                    ),
            decreases self.enders@.len() - e,
        {
            let ghost pre = *self;
            let ender = self.enders[e];
            let hit = self.anyone_at(ender.pos);
            if !ender.fired && hit {
                self.enders.set(e, Ender { pos: ender.pos, fired: true });
                won = true;
                proof {
                    assert(!old(self).enders@[e as int].fired && old(self).someone_at(
                        old(self).enders@[e as int].pos,
                    ));
                }
            } else {
                if ender.fired && hit {
                    self.enders.set(e, Ender { pos: ender.pos, fired: true });
                }
            }
            proof {
                self.lemma_reestablish_wf_frame(pre);
            }
            e = e + 1;
        }
        won
    }

    /// Some character currently stands on the cell.
    pub open spec fn someone_at(self, p: GridPosition) -> bool {
        exists|j: int|
            0 <= j < self.actors@.len() && (#[trigger] self.actors@[j]).character.current == p
    }

    /// Whether any character currently stands on the cell.
    pub fn anyone_at(&self, p: GridPosition) -> (r: bool)
        ensures
            r == self.someone_at(p),
    {
        let mut j: usize = 0;
        while j < self.actors.len()
            invariant
                j <= self.actors@.len(),
                forall|k: int|
                    0 <= k < j ==> (#[trigger] self.actors@[k]).character.current != p,
            decreases self.actors@.len() - j,
        {
            if self.actors[j].character.current == p {
                return true;
            }
            j = j + 1;
        }
        false
    }

    /// The occupancy snapshot the tick's move is judged against, as
    /// `rebuild_occupancy` lays it down.
    pub open spec fn occ_rebuilt(self) -> Seq<bool> {
        Seq::new(self.map.cell_count() as nat, |i: int| self.cell_blocked(i))
    }

    /// Where actor `j` stands after the tick's actor phase.
    pub open spec fn pos_after_turn(self, input: Option<CharacterCommand>, j: int) -> GridPosition {
        let a = self.actors@[j];
        if self.tick_acts(input) && j == self.acting_index() && self.acting_command(input)
            is Some {
            step_pos(self.map, self.occ_rebuilt(), a.character.current, self.acting_command(input).unwrap())
        } else {
            a.character.current
        }
    }

    /// The scheduler after the tick's actor phase.
    pub open spec fn turn_after_act(self, input: Option<CharacterCommand>) -> ActiveTurn {
        if self.tick_acts(input) {
            self.turn.march_spec()
        } else {
            self.turn
        }
    }

    /// Some goal cell that has not fired holds a character once the tick's
    /// move is in.
    pub open spec fn win_after_turn(self, input: Option<CharacterCommand>) -> bool {
        exists|e: int|
            0 <= e < self.enders@.len() && !(#[trigger] self.enders@[e]).fired && (exists|j: int|
                0 <= j < self.actors@.len() && #[trigger] self.pos_after_turn(input, j)
                    == self.enders@[e].pos)
    }

    /// The round is complete and the ghost budget still allows a rollover.
    pub fn rollover_due(&self) -> (r: bool)
        ensures
            r == (self.turn.should_reset_spec(self.turn_limit()) && self.ghost_limit.0 != 0),
    {
        self.turn.should_reset(self.map.turn_limit.0) && self.ghost_limit.0 != 0
    }

    /// The round is complete with the ghost budget exhausted: the terminal
    /// failure state, recoverable only by an explicit restart.
    pub fn level_failed(&self) -> (r: bool)
        ensures
            r == (self.turn.should_reset_spec(self.turn_limit()) && self.ghost_limit.0 == 0),
    {
        self.turn.should_reset(self.map.turn_limit.0) && self.ghost_limit.0 == 0
    }

    /// Successful rollover: every existing character rewinds to its start
    /// with its history kept and is retagged a ghost, the previous live
    /// actor's clean next incarnation joins the roster as the new live
    /// actor, the scheduler restarts the cycle with one more participant,
    /// and one unit of ghost budget is spent.
    pub fn rollover(&mut self)
        requires
            old(self).wf(),
            old(self).turn.should_reset_spec(old(self).turn_limit()),
            old(self).ghost_limit.0 != 0,
            old(self).actors@.len() < usize::MAX,
        ensures
            final(self).wf(),
            final(self).actors@.len() == old(self).actors@.len() + 1,
            forall|i: int|
                0 <= i < old(self).actors@.len() ==> {
                    let a = #[trigger] final(self).actors@[i];
                    let b = old(self).actors@[i];
                    &&& a.character.start == b.character.start
                    &&& a.character.current == b.character.start
                    &&& a.character.command_list@ == b.character.command_list@
                    &&& a.character.cmd_list_pos == 0
                    &&& a.character.my_turn == b.character.my_turn
                    &&& a.role == ActorRole::Replaying
                },
            ({
                let a = final(self).actors@.last();
                let b = old(self).actors@.last();
                &&& a.character.start == b.character.start
                &&& a.character.current == b.character.start
                &&& a.character.command_list@ == Seq::<CharacterCommand>::empty()
                &&& a.character.cmd_list_pos == 0
                &&& a.character.my_turn == old(self).actors@.len()
                &&& a.role == ActorRole::Active
            }),
            final(self).turn.active_ent_refresh == old(self).turn.active_ent_refresh + 1,
            final(self).turn.active_ent == final(self).turn.active_ent_refresh,
            final(self).turn.turn == 0,
            final(self).turn.block_turn == old(self).turn.block_turn,
            final(self).ghost_limit.0 == old(self).ghost_limit.0 - 1,
            final(self).map == old(self).map,
            final(self).signals == old(self).signals,
            final(self).occupation.0@ == old(self).occupation.0@,
            final(self).buttons@ == old(self).buttons@,
            final(self).doors@ == old(self).doors@,
            final(self).enders@ == old(self).enders@,
    {
        let n = self.actors.len();
        proof {
            assert(self.actor_ok(n - 1));
        }
        let fresh = self.actors[n - 1].character.new_me();

        let mut i: usize = 0;
        while i < n
            invariant
                n == self.actors@.len(),
                i <= n,
                n < usize::MAX,
                self.map == old(self).map,
                self.signals == old(self).signals,
                self.turn == old(self).turn,
                self.ghost_limit == old(self).ghost_limit,
                self.occupation.0@ == old(self).occupation.0@,
                self.buttons@ == old(self).buttons@,
                self.doors@ == old(self).doors@,
                self.enders@ == old(self).enders@,
                old(self).wf(),
                fresh.start == old(self).actors@.last().character.start,
                fresh.current == fresh.start,
                fresh.command_list@ == Seq::<CharacterCommand>::empty(),
                fresh.cmd_list_pos == 0,
                fresh.my_turn == n,
                forall|k: int|
                    0 <= k < i ==> {
                        let a = #[trigger] self.actors@[k];
                        let b = old(self).actors@[k];
                        &&& a.character.start == b.character.start
                        &&& a.character.current == b.character.start
                        &&& a.character.command_list@ == b.character.command_list@
                        &&& a.character.cmd_list_pos == 0
                        &&& a.character.my_turn == b.character.my_turn
                        &&& a.role == ActorRole::Replaying
                    },
                forall|k: int| i <= k < n ==> self.actors@[k] == old(self).actors@[k],
            decreases n - i,
        {
            let a = &mut self.actors[i];
            a.character.reset();
            a.role = ActorRole::Replaying;
            i = i + 1;
        }

        self.actors.push(Actor { character: fresh, role: ActorRole::Active });
        self.turn.reset_and_add_ent();
        self.ghost_limit.0 = self.ghost_limit.0 - 1;

        proof {
            assert forall|k: int| 0 <= k < self.actors@.len() implies #[trigger] self.actor_ok(
                k,
            ) by {
                assert(old(self).actor_ok(if k < n as int {
                    k
                } else {
                    n - 1
                }));
            }
        }
    }

    /// One full tick in the fixed phase order: occupancy is rebuilt from
    /// characters and closed doors, the scheduled actor takes its turn,
    /// buttons fire their edges, doors gate their cells, the goal is
    /// checked, the pacing flag is cleared, and a completed round either
    /// rolls over into the next replay cycle or, with the ghost budget
    /// exhausted, reports the terminal failure. A win suppresses the
    /// rollover decision: the level is over.
    pub fn tick(&mut self, input: Option<CharacterCommand>) -> (out: TickOutcome)
        requires
            old(self).wf(),
            old(self).actors@.len() < usize::MAX,
        ensures
            final(self).wf(),
            final(self).map == old(self).map,
            out.acted == old(self).tick_acts(input),
            out.moved == (if old(self).tick_acts(input) && old(self).actors@[old(
                self,
            ).acting_index()].role == ActorRole::Active && action_allowed(
                old(self).map,
                old(self).occ_rebuilt(),
                old(self).actors@[old(self).acting_index()].character.current,
                input.unwrap(),
            ) {
                Some(
                    old(self).actors@[old(self).acting_index()].character.current.destination_spec(
                        input.unwrap(),
                    ),
                )
            } else {
                None::<GridPosition>
            }),
            out.won == old(self).win_after_turn(input),
            out.rolled_over == (!out.won && old(self).turn_after_act(input).should_reset_spec(
                old(self).turn_limit(),
            ) && old(self).ghost_limit.0 != 0),
            out.failed == (!out.won && old(self).turn_after_act(input).should_reset_spec(
                old(self).turn_limit(),
            ) && old(self).ghost_limit.0 == 0),
            final(self).ghost_limit.0 == old(self).ghost_limit.0 - (if out.rolled_over {
                1int
            } else {
                0int
            }),
            final(self).actors@.len() == old(self).actors@.len() + (if out.rolled_over {
                1int
            } else {
                0int
            }),
            !final(self).turn.block_turn,
            !out.rolled_over ==> final(self).turn.active_ent_refresh == old(
                self,
            ).turn_after_act(input).active_ent_refresh && final(self).turn.active_ent == old(
                self,
            ).turn_after_act(input).active_ent && final(self).turn.turn == old(
                self,
            ).turn_after_act(input).turn,
            !out.rolled_over ==> forall|j: int|
                0 <= j < old(self).actors@.len() ==> final(self).actors@[j].character.current
                    == #[trigger] old(self).pos_after_turn(input, j),
    {
        let ghost w0 = *old(self);
        self.rebuild_occupancy();
        proof {
            assert(self.occupation.0@ =~= w0.occ_rebuilt());
        }
        let ghost w1 = *self;
        let acted_r = self.take_turn(input);
        proof {
            assert(w1.tick_acts(input) == w0.tick_acts(input));
            assert(w1.acting_command(input) == w0.acting_command(input));
        }
        let ghost w2 = *self;
        self.update_buttons();
        self.update_doors();
        let ghost w3 = *self;
        let won = self.check_win();
        proof {
            assert forall|j: int|
                0 <= j < w0.actors@.len() implies self.actors@[j].character.current == #[trigger] w0.pos_after_turn(
                input,
                j,
            ) by {
                if w0.tick_acts(input) && j == w0.acting_index() {
                    assert(self.actors@[j] == w2.actors@[j]);
                } else {
                    assert(self.actors@[j] == w2.actors@[j]);
                    if w0.tick_acts(input) {
                        assert(w2.actors@[j] == w1.actors@[j]);
                    }
                }
            }
            assert(won == w0.win_after_turn(input)) by {
                if won {
                    let e = choose|e: int|
                        0 <= e < w3.enders@.len() && !(#[trigger] w3.enders@[e]).fired
                            && w3.someone_at(w3.enders@[e].pos);
                    let j = choose|j: int|
                        0 <= j < w3.actors@.len() && (#[trigger] w3.actors@[j]).character.current
                            == w3.enders@[e].pos;
                    assert(w0.pos_after_turn(input, j) == w3.enders@[e].pos);
                    assert(!w0.enders@[e].fired);
                }
                if w0.win_after_turn(input) {
                    let e = choose|e: int|
                        0 <= e < w0.enders@.len() && !(#[trigger] w0.enders@[e]).fired && (exists|
                            j: int,
                        |
                            0 <= j < w0.actors@.len() && #[trigger] w0.pos_after_turn(input, j)
                                == w0.enders@[e].pos);
                    let j = choose|j: int|
                        0 <= j < w0.actors@.len() && #[trigger] w0.pos_after_turn(input, j)
                            == w0.enders@[e].pos;
                    assert(w3.actors@[j].character.current == w3.enders@[e].pos);
                    assert(w3.someone_at(w3.enders@[e].pos));
                }
            }
        }
        let ghost w4 = *self;
        self.turn.block_turn = false;
        proof {
            self.lemma_reestablish_wf_frame(w4);
        }

        let mut out = TickOutcome {
            acted: acted_r.is_some(),
            moved: match acted_r {
                Some(m) => m,
                None => None,
            },
            won,
            rolled_over: false,
            failed: false,
        };
        if !won && self.turn.should_reset(self.map.turn_limit.0) {
            if self.ghost_limit.0 != 0 {
                self.rollover();
                out.rolled_over = true;
            } else {
                out.failed = true;
            }
        }
        out
    }
}

/// The cells of the closed doors among `doors`, in order.
pub open spec fn closed_door_positions(doors: Seq<OccupySpaceUntilSignal>) -> Seq<GridPosition>
    decreases doors.len(),
{
    if doors.len() == 0 {
        Seq::empty()
    } else {
        let rest = closed_door_positions(doors.drop_last());
        if !doors.last().last_collide {
            rest.push(doors.last().pos)
        } else {
            rest
        }
    }
}

pub proof fn lemma_closed_door_positions_len(doors: Seq<OccupySpaceUntilSignal>)
    ensures
        closed_door_positions(doors).len() <= doors.len(),
    decreases doors.len(),
{
    if doors.len() > 0 {
        lemma_closed_door_positions_len(doors.drop_last());
    }
}

/// Every listed cell comes from some closed door.
pub proof fn lemma_closed_door_positions_origin(doors: Seq<OccupySpaceUntilSignal>, k: int)
    requires
        0 <= k < closed_door_positions(doors).len(),
    ensures
        exists|q: int|
            0 <= q < doors.len() && !(#[trigger] doors[q]).last_collide && doors[q].pos
                == closed_door_positions(doors)[k],
    decreases doors.len(),
{
    let rest = closed_door_positions(doors.drop_last());
    if !doors.last().last_collide && k == rest.len() {
        let q = doors.len() - 1;
        assert(!doors[q].last_collide && doors[q].pos == closed_door_positions(doors)[k]);
    } else {
        lemma_closed_door_positions_origin(doors.drop_last(), k);
        let q0 = choose|q: int|
            0 <= q < doors.drop_last().len() && !(#[trigger] doors.drop_last()[q]).last_collide
                && doors.drop_last()[q].pos == rest[k];
        assert(!doors[q0].last_collide && doors[q0].pos == closed_door_positions(doors)[k]);
    }
}

/// Every closed door's cell is listed; returns its index in the listing.
pub proof fn lemma_closed_door_positions_contains(doors: Seq<OccupySpaceUntilSignal>, q: int) -> (k:
    int)
    requires
        0 <= q < doors.len(),
        !doors[q].last_collide,
    ensures
        0 <= k < closed_door_positions(doors).len(),
        closed_door_positions(doors)[k] == doors[q].pos,
    decreases doors.len(),
{
    let rest = closed_door_positions(doors.drop_last());
    if q == doors.len() - 1 {
        rest.len() as int
    } else {
        lemma_closed_door_positions_contains(doors.drop_last(), q)
    }
}

/// Why a map was refused at load time: the simulation never starts on
/// malformed level data.
#[derive(Clone, Copy, Debug, Eq, PartialEq, Structural)]
pub enum LoadError {
    /// A dimension is negative.
    NegativeDimensions,
    /// The cell count exceeds what an index can address.
    OversizedMap,
    /// A per-cell array does not match the cell count.
    MismatchedArrays,
    /// An authored entity lies off the grid.
    BlueprintOutOfBounds,
    /// No start blueprint: nowhere to create the first character.
    MissingStart,
}

/// The blueprint list, or empty where the map authored none.
pub open spec fn ents_of(map: TerrainMap) -> Seq<EntBlueprint> {
    match map.ents {
        Some(ents) => ents@,
        None => Seq::empty(),
    }
}

/// The buttons a blueprint list places, in order.
pub open spec fn buttons_of(ents: Seq<EntBlueprint>) -> Seq<FireSignalOnCollide>
    decreases ents.len(),
{
    if ents.len() == 0 {
        Seq::empty()
    } else {
        let rest = buttons_of(ents.drop_last());
        match ents.last().data {
            EntData::Button(ch) => rest.push(
                FireSignalOnCollide { signal: ch.0, pos: ents.last().pos, last_collide: false },
            ),
            _ => rest,
        }
    }
}

/// The doors a blueprint list places, in order.
pub open spec fn doors_of(ents: Seq<EntBlueprint>) -> Seq<OccupySpaceUntilSignal>
    decreases ents.len(),
{
    if ents.len() == 0 {
        Seq::empty()
    } else {
        let rest = doors_of(ents.drop_last());
        match ents.last().data {
            EntData::Door(ch) => rest.push(
                OccupySpaceUntilSignal { signal: ch.0, pos: ents.last().pos, last_collide: true },
            ),
            _ => rest,
        }
    }
}

/// The goal entities a blueprint list places, in order.
pub open spec fn enders_of(ents: Seq<EntBlueprint>) -> Seq<Ender>
    decreases ents.len(),
{
    if ents.len() == 0 {
        Seq::empty()
    } else {
        let rest = enders_of(ents.drop_last());
        match ents.last().data {
            EntData::End => rest.push(Ender { pos: ents.last().pos, fired: false }),
            _ => rest,
        }
    }
}

/// Index of the last door whose cell has flat index `i`, or a negative
/// value when no door stands there.
pub open spec fn last_door_index(doors: Seq<OccupySpaceUntilSignal>, w: int, i: int) -> int
    decreases doors.len(),
{
    if doors.len() == 0 {
        -1
    } else if doors.last().pos.flat(w) == i {
        doors.len() - 1
    } else {
        last_door_index(doors.drop_last(), w, i)
    }
}

/// A blueprint list places at most one button per entry.
pub proof fn lemma_buttons_of_len(ents: Seq<EntBlueprint>)
    ensures
        buttons_of(ents).len() <= ents.len(),
    decreases ents.len(),
{
    if ents.len() > 0 {
        lemma_buttons_of_len(ents.drop_last());
    }
}

} // verus!
