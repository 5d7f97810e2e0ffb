use stuck_in_a_loop::grid::CharacterCommand;
use stuck_in_a_loop::grid::Direction;
use stuck_in_a_loop::grid::GridPosition;
use stuck_in_a_loop::scheduler::GhostLimit;
use stuck_in_a_loop::scheduler::TurnLimit;
use stuck_in_a_loop::sim::ActorRole;
use stuck_in_a_loop::sim::LoadError;
use stuck_in_a_loop::sim::World;
use stuck_in_a_loop::terrain::ActionChannel;
use stuck_in_a_loop::terrain::EntBlueprint;
use stuck_in_a_loop::terrain::EntData;
use stuck_in_a_loop::terrain::TerrainMap;

fn pos(x: isize, y: isize) -> GridPosition {
    GridPosition { x, y }
}

fn bp(x: isize, y: isize, data: EntData) -> EntBlueprint {
    EntBlueprint {
        pos: pos(x, y),
        data,
        rot: None,
    }
}

fn map_with(
    width: isize,
    height: isize,
    heights: Vec<isize>,
    ents: Vec<EntBlueprint>,
    turn_limit: usize,
    ghost_limit: usize,
) -> TerrainMap {
    let cells = (width * height) as usize;
    assert_eq!(heights.len(), cells);
    TerrainMap {
        width,
        height,
        tiles: vec![0; cells],
        tile_shapes: vec![0; cells],
        tile_rots: vec![0; cells],
        heights,
        created: false,
        ents: Some(ents),
        turn_limit: TurnLimit(turn_limit),
        ghost_limit: Some(GhostLimit(ghost_limit)),
    }
}

const EAST: CharacterCommand = CharacterCommand::Move(Direction::East);
const WEST: CharacterCommand = CharacterCommand::Move(Direction::West);
const NORTH: CharacterCommand = CharacterCommand::Move(Direction::North);
const WAIT: CharacterCommand = CharacterCommand::Wait;

/// Four eastward moves on a 5-by-1 row with `turn_limit` 4 end the round
/// exactly as the actor reaches the far cell.
#[test]
fn walk_across_row_ends_round_at_goal_column() {
    let map = map_with(5, 1, vec![0; 5], vec![bp(0, 0, EntData::Start)], 4, 1);
    let mut w = World::load(map).unwrap();
    for step in 1..=4isize {
        assert!(!w.turn.should_reset(4));
        w.rebuild_occupancy();
        let r = w.take_turn(Some(EAST));
        assert_eq!(r, Some(Some(pos(step, 0))));
    }
    assert_eq!(w.actors[0].character.current, pos(4, 0));
    assert_eq!(w.turn.turn, 4);
    assert!(w.turn.should_reset(4));
    assert!(w.rollover_due());
}

/// A blocked attempt is still recorded, and the frozen ghost reproduces
/// the same blocked attempt from its history.
#[test]
fn blocked_move_is_recorded_and_replayed() {
    // North of the start cell (x 0, y 1) is impassable.
    let heights = vec![0, 0, -1, 0];
    let map = map_with(2, 2, heights, vec![bp(0, 0, EntData::Start)], 1, 1);
    let mut w = World::load(map).unwrap();

    w.rebuild_occupancy();
    let r = w.take_turn(Some(NORTH));
    assert_eq!(r, Some(None));
    assert_eq!(w.actors[0].character.current, pos(0, 0));
    assert_eq!(w.actors[0].character.command_list, vec![NORTH]);

    assert!(w.rollover_due());
    w.rollover();
    assert_eq!(w.actors.len(), 2);
    assert!(matches!(w.actors[0].role, ActorRole::Replaying));
    assert!(matches!(w.actors[1].role, ActorRole::Active));

    // New round: the fresh actor acts first, then the ghost replays the
    // blocked attempt without moving.
    w.rebuild_occupancy();
    assert_eq!(w.take_turn(Some(WAIT)), Some(None));
    let r = w.take_turn(None);
    assert_eq!(r, Some(None));
    assert_eq!(w.actors[0].character.current, pos(0, 0));
    assert_eq!(w.actors[0].character.cmd_list_pos, 1);
}

/// With a ghost budget of one, the first completed round rolls over and
/// the second reports the terminal failure instead.
#[test]
fn ghost_budget_exhaustion_fails_the_level() {
    let map = map_with(2, 1, vec![0, 0], vec![bp(0, 0, EntData::Start)], 1, 1);
    let mut w = World::load(map).unwrap();

    let out = w.tick(Some(WAIT));
    assert!(out.acted);
    assert!(out.rolled_over);
    assert!(!out.failed);
    assert_eq!(w.ghost_limit, GhostLimit(0));
    assert_eq!(w.actors.len(), 2);

    let out = w.tick(Some(WAIT));
    assert!(out.acted);
    assert!(!out.rolled_over);
    assert!(!out.failed);
    let out = w.tick(None);
    assert!(out.acted);
    assert!(!out.rolled_over);
    assert!(out.failed);
    assert!(w.level_failed());
    assert_eq!(w.actors.len(), 2);
}

/// A button's channel is satisfied exactly while its cell is occupied.
#[test]
fn button_follows_occupancy_edges() {
    let ents = vec![bp(0, 0, EntData::Start), bp(1, 0, EntData::Button(ActionChannel(3)))];
    let map = map_with(3, 1, vec![0, 0, 0], ents, 20, 1);
    let mut w = World::load(map).unwrap();
    assert!(!w.signals.signal_met(3));

    let out = w.tick(Some(EAST));
    assert_eq!(out.moved, Some(pos(1, 0)));
    assert!(w.signals.signal_met(3));

    let out = w.tick(Some(EAST));
    assert_eq!(out.moved, Some(pos(2, 0)));
    assert!(!w.signals.signal_met(3));

    let out = w.tick(Some(WEST));
    assert_eq!(out.moved, Some(pos(1, 0)));
    assert!(w.signals.signal_met(3));
}

/// A ghost walks the identical position sequence its live run produced,
/// blocked attempts included.
#[test]
fn replay_reproduces_the_original_run() {
    let map = map_with(5, 1, vec![0; 5], vec![bp(0, 0, EntData::Start)], 3, 1);
    let mut w = World::load(map).unwrap();

    let commands = [EAST, NORTH, EAST];
    let mut live_positions = Vec::new();
    for cmd in commands {
        w.rebuild_occupancy();
        w.take_turn(Some(cmd));
        live_positions.push(w.actors[0].character.current);
    }
    assert_eq!(live_positions, vec![pos(1, 0), pos(1, 0), pos(2, 0)]);

    assert!(w.rollover_due());
    w.rollover();

    // The fresh actor only waits in place, leaving the ghost the same
    // occupancy history its live run saw.
    let mut ghost_positions = Vec::new();
    for _ in 0..3 {
        w.rebuild_occupancy();
        assert_eq!(w.take_turn(Some(WAIT)), Some(None));
        assert_eq!(w.take_turn(None), Some(None));
        ghost_positions.push(w.actors[0].character.current);
    }
    assert_eq!(ghost_positions, live_positions);
}

/// A door blocks its cell while its channel is unsatisfied and frees it
/// while a button holds the channel.
#[test]
fn door_gates_on_its_channel() {
    let ents = vec![
        bp(0, 0, EntData::Start),
        bp(1, 0, EntData::Door(ActionChannel(5))),
    ];
    let map = map_with(3, 1, vec![0, 0, 0], ents, 20, 1);
    let mut w = World::load(map).unwrap();

    // First tick settles the door shut (no button holds channel 5).
    let out = w.tick(Some(WAIT));
    assert!(out.acted);
    assert!(!w.doors[0].last_collide);

    let out = w.tick(Some(EAST));
    assert_eq!(out.moved, None);
    assert_eq!(w.actors[0].character.current, pos(0, 0));
}

/// A held button opens the door on the same tick.
#[test]
fn held_button_opens_door() {
    let ents = vec![
        bp(0, 0, EntData::Start),
        bp(0, 0, EntData::Button(ActionChannel(5))),
        bp(1, 0, EntData::Door(ActionChannel(5))),
    ];
    let map = map_with(3, 1, vec![0, 0, 0], ents, 20, 1);
    let mut w = World::load(map).unwrap();

    // The actor starts on the button: the first tick presses it and the
    // door opens.
    let out = w.tick(Some(WAIT));
    assert!(out.acted);
    assert!(w.signals.signal_met(5));
    assert!(w.doors[0].last_collide);

    let out = w.tick(Some(EAST));
    assert_eq!(out.moved, Some(pos(1, 0)));
}

/// Reaching the goal cell fires the ender and reports the win.
#[test]
fn reaching_the_goal_wins() {
    let ents = vec![bp(0, 0, EntData::Start), bp(1, 0, EntData::End)];
    let map = map_with(2, 1, vec![0, 0], ents, 20, 1);
    let mut w = World::load(map).unwrap();

    let out = w.tick(Some(EAST));
    assert!(out.won);
    assert!(w.enders[0].fired);

    // The win fires at most once per level instance.
    let out = w.tick(Some(WAIT));
    assert!(!out.won);
}

/// The signature puzzle: the live run presses the button, and in the next
/// cycle its ghost repeats that run, holding the door open so the fresh
/// actor can walk through to the goal.
#[test]
fn ghost_holds_button_while_successor_passes_door() {
    let ents = vec![
        bp(0, 0, EntData::Start),
        bp(1, 1, EntData::Button(ActionChannel(1))),
        bp(2, 0, EntData::Door(ActionChannel(1))),
        bp(3, 0, EntData::End),
    ];
    let map = map_with(4, 2, vec![0; 8], ents, 6, 1);
    let mut w = World::load(map).unwrap();

    // First cycle: walk onto the button and stay there.
    let first_cycle = [NORTH, EAST, WAIT, WAIT, WAIT, WAIT];
    let mut last = w.tick(Some(first_cycle[0]));
    for cmd in &first_cycle[1..] {
        assert!(!last.rolled_over && !last.failed && !last.won);
        last = w.tick(Some(*cmd));
    }
    assert!(last.rolled_over);
    assert_eq!(w.actors.len(), 2);

    // Second cycle, one round at a time: the fresh actor moves, then the
    // ghost replays. The door is shut until the ghost reaches the button.
    let out = w.tick(Some(EAST));
    assert_eq!(out.moved, Some(pos(1, 0)));
    assert!(w.tick(None).acted);

    let out = w.tick(Some(EAST));
    assert_eq!(out.moved, None, "door must still be shut");
    assert!(w.tick(None).acted);
    assert!(w.signals.signal_met(1), "ghost now holds the button");

    let out = w.tick(Some(EAST));
    assert_eq!(out.moved, Some(pos(2, 0)), "door opened by the ghost");
    assert!(w.tick(None).acted);

    let out = w.tick(Some(EAST));
    assert_eq!(out.moved, Some(pos(3, 0)));
    assert!(out.won);
    assert!(w.enders[0].fired);
}

#[test]
fn load_rejects_negative_dimensions() {
    let mut map = map_with(2, 1, vec![0, 0], vec![bp(0, 0, EntData::Start)], 1, 1);
    map.width = -2;
    assert_eq!(World::load(map).unwrap_err(), LoadError::NegativeDimensions);
}

#[test]
fn load_rejects_oversized_map() {
    let mut map = map_with(2, 1, vec![0, 0], vec![bp(0, 0, EntData::Start)], 1, 1);
    map.width = isize::MAX;
    map.height = 2;
    assert_eq!(World::load(map).unwrap_err(), LoadError::OversizedMap);
}

#[test]
fn load_rejects_mismatched_arrays() {
    let mut map = map_with(2, 1, vec![0, 0], vec![bp(0, 0, EntData::Start)], 1, 1);
    map.heights = vec![0, 0, 0];
    assert_eq!(World::load(map).unwrap_err(), LoadError::MismatchedArrays);
}

#[test]
fn load_rejects_out_of_bounds_blueprint() {
    let ents = vec![bp(0, 0, EntData::Start), bp(5, 0, EntData::End)];
    let map = map_with(2, 1, vec![0, 0], ents, 1, 1);
    assert_eq!(World::load(map).unwrap_err(), LoadError::BlueprintOutOfBounds);
}

#[test]
fn load_rejects_missing_start() {
    let map = map_with(2, 1, vec![0, 0], vec![bp(1, 0, EntData::End)], 1, 1);
    assert_eq!(World::load(map).unwrap_err(), LoadError::MissingStart);
    let mut map2 = map_with(2, 1, vec![0, 0], vec![], 1, 1);
    map2.ents = None;
    assert_eq!(World::load(map2).unwrap_err(), LoadError::MissingStart);
}

#[test]
fn load_defaults_ghost_budget_to_one() {
    let mut map = map_with(2, 1, vec![0, 0], vec![bp(0, 0, EntData::Start)], 1, 1);
    map.ghost_limit = None;
    let w = World::load(map).unwrap();
    assert_eq!(w.ghost_limit, GhostLimit(1));
}

#[test]
fn rollover_resets_ghosts_to_start_and_spends_budget() {
    let map = map_with(3, 1, vec![0, 0, 0], vec![bp(0, 0, EntData::Start)], 1, 2);
    let mut w = World::load(map).unwrap();
    w.rebuild_occupancy();
    w.take_turn(Some(EAST));
    assert_eq!(w.actors[0].character.current, pos(1, 0));
    w.rollover();
    assert_eq!(w.ghost_limit, GhostLimit(1));
    assert_eq!(w.actors.len(), 2);
    assert_eq!(w.actors[0].character.current, pos(0, 0));
    assert_eq!(w.actors[0].character.command_list, vec![EAST]);
    assert_eq!(w.actors[0].character.cmd_list_pos, 0);
    assert_eq!(w.actors[1].character.current, pos(0, 0));
    assert!(w.actors[1].character.command_list.is_empty());
    assert_eq!(w.actors[1].character.my_turn, 1);
    assert_eq!(w.turn.turn, 0);
    assert_eq!(w.turn.active_ent, 1);
}

#[test]
fn blocked_scheduler_consumes_no_turn() {
    let map = map_with(2, 1, vec![0, 0], vec![bp(0, 0, EntData::Start)], 4, 1);
    let mut w = World::load(map).unwrap();
    w.turn.block_turn = true;
    let out = w.tick(Some(EAST));
    assert!(!out.acted);
    assert_eq!(out.moved, None);
    assert_eq!(w.actors[0].character.current, pos(0, 0));
    assert_eq!(w.turn.turn, 0);
    // The pacing flag is cleared once per tick by the maintenance step.
    assert!(!w.turn.block_turn);
    let out = w.tick(Some(EAST));
    assert!(out.acted);
}
