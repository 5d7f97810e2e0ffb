use stuck_in_a_loop::grid::GridPosition;
use stuck_in_a_loop::occupancy::OccupationMap;
use stuck_in_a_loop::scheduler::TurnLimit;
use stuck_in_a_loop::terrain::TerrainMap;

fn pos(x: isize, y: isize) -> GridPosition {
    GridPosition { x, y }
}

fn blank_map(width: isize, height: isize) -> TerrainMap {
    let cells = (width * height) as usize;
    TerrainMap {
        width,
        height,
        tiles: vec![0; cells],
        tile_shapes: vec![0; cells],
        tile_rots: vec![0; cells],
        heights: vec![0; cells],
        created: false,
        ents: None,
        turn_limit: TurnLimit(10),
        ghost_limit: None,
    }
}

#[test]
fn rebuild_sets_exactly_the_occupants() {
    let map = blank_map(2, 2);
    let mut occ = OccupationMap(vec![true, true, true]);
    occ.rebuild(&map, &vec![pos(1, 1), pos(0, 0)]);
    assert_eq!(occ.0, vec![true, false, false, true]);
}

#[test]
fn rebuild_clears_prior_state() {
    let map = blank_map(3, 1);
    let mut occ = OccupationMap(vec![true, true, true, true, true]);
    occ.rebuild(&map, &vec![]);
    assert_eq!(occ.0, vec![false, false, false]);
}

#[test]
fn rebuild_resizes_to_cell_count() {
    let map = blank_map(4, 2);
    let mut occ = OccupationMap(vec![]);
    occ.rebuild(&map, &vec![pos(3, 1)]);
    assert_eq!(occ.0.len(), 8);
    assert!(occ.0[7]);
    assert_eq!(occ.0.iter().filter(|b| **b).count(), 1);
}

#[test]
fn move_collider_flips_one_off_one_on() {
    let mut occ = OccupationMap(vec![false, true, false]);
    occ.move_collider(1, 2);
    assert_eq!(occ.0, vec![false, false, true]);
}
