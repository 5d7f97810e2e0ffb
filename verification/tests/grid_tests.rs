use stuck_in_a_loop::grid::CharacterCommand;
use stuck_in_a_loop::grid::Direction;
use stuck_in_a_loop::grid::GridPosition;

fn pos(x: isize, y: isize) -> GridPosition {
    GridPosition { x, y }
}

#[test]
fn roll_splits_flat_index() {
    assert_eq!(GridPosition::roll(7, 5), pos(2, 1));
    assert_eq!(GridPosition::roll(0, 5), pos(0, 0));
    assert_eq!(GridPosition::roll(4, 5), pos(4, 0));
    assert_eq!(GridPosition::roll(5, 5), pos(0, 1));
}

#[test]
fn unroll_is_row_major() {
    assert_eq!(pos(2, 1).unroll(5), 7);
    assert_eq!(pos(0, 0).unroll(5), 0);
    assert_eq!(pos(4, 3).unroll(5), 19);
}

#[test]
fn roll_unroll_round_trip() {
    for w in 1..7isize {
        for i in 0..40isize {
            assert_eq!(GridPosition::roll(i, w).unroll(w), i);
        }
    }
}

#[test]
fn clamp_saturates_each_axis() {
    assert_eq!(pos(-3, 2).clamp(5, 5), pos(0, 2));
    assert_eq!(pos(7, -1).clamp(5, 5), pos(4, 0));
    assert_eq!(pos(2, 2).clamp(5, 5), pos(2, 2));
    assert_eq!(pos(4, 4).clamp(5, 5), pos(4, 4));
}

#[test]
fn neighbour_unit_offsets() {
    assert_eq!(pos(2, 2).neighbour(Direction::East), pos(3, 2));
    assert_eq!(pos(2, 2).neighbour(Direction::West), pos(1, 2));
    assert_eq!(pos(2, 2).neighbour(Direction::North), pos(2, 3));
    assert_eq!(pos(2, 2).neighbour(Direction::South), pos(2, 1));
}

#[test]
fn destination_of_wait_is_here() {
    assert_eq!(pos(3, 1).destination(CharacterCommand::Wait), pos(3, 1));
    assert_eq!(
        pos(3, 1).destination(CharacterCommand::Move(Direction::South)),
        pos(3, 0)
    );
}
