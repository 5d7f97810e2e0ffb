use stuck_in_a_loop::grid::GridPosition;
use stuck_in_a_loop::scheduler::GhostLimit;
use stuck_in_a_loop::scheduler::TurnLimit;
use stuck_in_a_loop::terrain::EntBlueprint;
use stuck_in_a_loop::terrain::EntData;
use stuck_in_a_loop::terrain::TerrainMap;
use stuck_in_a_loop::terrain::TileHeight;
use stuck_in_a_loop::terrain::HEIGHT_JUMP_LIMIT;

fn pos(x: isize, y: isize) -> GridPosition {
    GridPosition { x, y }
}

fn flat_map(width: isize, height: isize, heights: Vec<isize>) -> TerrainMap {
    let cells = (width * height) as usize;
    assert_eq!(heights.len(), cells);
    TerrainMap {
        width,
        height,
        tiles: vec![0; cells],
        tile_shapes: vec![0; cells],
        tile_rots: vec![0; cells],
        heights,
        created: false,
        ents: Some(vec![EntBlueprint {
            pos: pos(0, 0),
            data: EntData::Start,
            rot: None,
        }]),
        turn_limit: TurnLimit(10),
        ghost_limit: Some(GhostLimit(1)),
    }
}

#[test]
fn tile_height_decodes_sign() {
    assert_eq!(TileHeight::from(2), TileHeight::Passable(2));
    assert_eq!(TileHeight::from(0), TileHeight::Passable(0));
    assert_eq!(TileHeight::from(-3), TileHeight::Impassable(3));
    assert_eq!(TileHeight::Passable(4).to_raw_height(), 4);
    assert_eq!(TileHeight::Impassable(5).to_raw_height(), 5);
    assert_eq!(TileHeight::default(), TileHeight::Passable(0));
}

#[test]
fn equal_passable_heights_always_allow() {
    let m = flat_map(3, 1, vec![0, 0, 0]);
    assert!(m.move_allowed_by_terrain(&pos(0, 0), &pos(1, 0)));
    assert!(m.move_allowed_by_terrain(&pos(1, 0), &pos(0, 0)));
}

#[test]
fn height_delta_under_limit_allows() {
    let m = flat_map(3, 1, vec![0, (HEIGHT_JUMP_LIMIT - 1) as isize, 0]);
    assert!(m.move_allowed_by_terrain(&pos(0, 0), &pos(1, 0)));
    assert!(m.move_allowed_by_terrain(&pos(1, 0), &pos(2, 0)));
}

#[test]
fn height_delta_at_limit_blocks() {
    let m = flat_map(3, 1, vec![0, HEIGHT_JUMP_LIMIT as isize, 0]);
    assert!(!m.move_allowed_by_terrain(&pos(0, 0), &pos(1, 0)));
    assert!(!m.move_allowed_by_terrain(&pos(1, 0), &pos(0, 0)));
}

#[test]
fn impassable_cell_blocks_either_endpoint() {
    let m = flat_map(3, 1, vec![0, -1, 0]);
    assert!(!m.move_allowed_by_terrain(&pos(0, 0), &pos(1, 0)));
    assert!(!m.move_allowed_by_terrain(&pos(1, 0), &pos(2, 0)));
}

#[test]
fn out_of_range_destination_blocks() {
    let m = flat_map(2, 2, vec![0, 0, 0, 0]);
    assert!(!m.move_allowed_by_terrain(&pos(0, 0), &pos(-1, 0)));
    assert!(!m.move_allowed_by_terrain(&pos(0, 0), &pos(0, 2)));
    assert!(!m.move_allowed_by_terrain(&pos(1, 1), &pos(2, 1)));
}

#[test]
fn empty_of_size_defaults() {
    let m = TerrainMap::empty_of_size(4, 3);
    assert_eq!(m.width, 4);
    assert_eq!(m.height, 3);
    assert_eq!(m.len(), 12);
    assert_eq!(m.heights, vec![0; 12]);
    assert_eq!(m.tiles.len(), 12);
    assert!(!m.created);
    let ents = m.ents.as_ref().unwrap();
    assert_eq!(ents.len(), 1);
    assert_eq!(ents[0].pos, pos(0, 0));
    assert!(matches!(ents[0].data, EntData::Start));
    assert_eq!(m.turn_limit, TurnLimit(7));
    assert_eq!(m.ghost_limit, Some(GhostLimit(1)));
}
