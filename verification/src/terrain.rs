//! Static per-cell terrain data and the move-legality predicate, plus the
//! authoring metadata a level carries: entity blueprints and the turn and
//! ghost limits.
//!
//! A cell's signed height encodes passability: non-negative means passable
//! at that magnitude, negative means impassable at that magnitude. A move
//! between two cells is allowed only when both are in bounds and passable
//! and the height difference stays under `HEIGHT_JUMP_LIMIT`.

use vstd::prelude::*;

use crate::grid::Direction;
use crate::grid::GridPosition;
use crate::grid::Ordinate;
use crate::scheduler::GhostLimit;
use crate::scheduler::TurnLimit;

verus! {

/// Largest height step an actor can climb or drop in one move, exclusive.
pub const HEIGHT_JUMP_LIMIT: usize = 2;

/// Decoded form of a cell's signed raw height.
#[derive(Clone, Copy, Debug, Eq, PartialEq, Structural)]
pub enum TileHeight {
    /// Appears at this height and allows pathing.
    Passable(usize),
    /// Appears at this height but prevents pathing.
    Impassable(usize),
}

impl TileHeight {
    /// Decoding of a raw signed height: the sign selects passability, the
    /// magnitude is the display height.
    pub open spec fn from_spec(input: isize) -> TileHeight {
        if input < 0 {
            TileHeight::Impassable((-(input as int)) as usize)
        } else {
            TileHeight::Passable(input as usize)
        }
    }

    pub open spec fn to_raw_height_spec(self) -> usize {
        match self {
            TileHeight::Impassable(a) => a,
            TileHeight::Passable(a) => a,
        }
    }

    /// The magnitude without the passability tag.
    pub fn to_raw_height(self) -> (r: usize)
        ensures
            r == self.to_raw_height_spec(),
    {
        match self {
            TileHeight::Impassable(a) => a,
            TileHeight::Passable(a) => a,
        }
    }
}

impl From<isize> for TileHeight {
    fn from(input: isize) -> (r: Self) {
        if input < 0 {
            // `-input` alone would overflow at the smallest value; step
            // through `input + 1` so every magnitude fits a usize.
            TileHeight::Impassable(((-(input + 1)) as usize) + 1)
        } else {
            TileHeight::Passable(input as usize)
        }
    }
}

impl vstd::std_specs::convert::FromSpecImpl<isize> for TileHeight {
    open spec fn obeys_from_spec() -> bool {
        true
    }

    open spec fn from_spec(input: isize) -> TileHeight {
        TileHeight::from_spec(input)
    }
}

impl Default for TileHeight {
    fn default() -> (r: Self)
        ensures
            r == TileHeight::Passable(0usize),
    {
        TileHeight::Passable(0)
    }
}

/// Abstract channel id linking trigger sources (buttons) to gated elements
/// (doors).
#[derive(Clone, Copy, Debug, Default, Eq, PartialEq, Structural)]
pub struct ActionChannel(pub usize);

/// Blueprint kind for a level entity, placed by the map author.
#[derive(Clone, Copy, Debug, Eq, PartialEq, Structural)]
pub enum EntData {
    /// Where the first character (and each later incarnation) appears.
    Start,
    /// The goal cell: any character reaching it wins the level.
    End,
    /// A pressure plate feeding the given signal channel.
    Button(ActionChannel),
    /// A barrier occupying its cell until the given channel is satisfied.
    Door(ActionChannel),
}

impl Default for EntData {
    fn default() -> (r: Self)
        ensures
            r == EntData::Start,
    {
        EntData::Start
    }
}

/// One authored entity placement.
#[derive(Clone, Copy, Debug, Eq, PartialEq, Structural)]
pub struct EntBlueprint {
    pub pos: GridPosition,
    pub data: EntData,
    pub rot: Option<Direction>,
}

/// The static level: dimensions, parallel per-cell arrays, blueprints and
/// limits. Created at level load and immutable through the level's life,
/// except the one-time `created` flag consumed by the presentation layer.
#[derive(Clone, Debug)]
pub struct TerrainMap {
    /// Map width.
    pub width: Ordinate,
    /// Map height.
    pub height: Ordinate,
    /// Tile texture/type data.
    pub tiles: Vec<u8>,
    /// Shape to apply to each tile.
    pub tile_shapes: Vec<u8>,
    /// Rotation to apply to each tile.
    pub tile_rots: Vec<u8>,
    /// Signed height (and passability) of each tile.
    pub heights: Vec<isize>,
    /// Whether the presentation layer has materialized the static geometry;
    /// not semantically relevant to the simulation.
    pub created: bool,
    /// Authored entity placements.
    pub ents: Option<Vec<EntBlueprint>>,
    /// Rounds per replay cycle.
    pub turn_limit: TurnLimit,
    /// Replay-cycle budget, where the level sets one.
    pub ghost_limit: Option<GhostLimit>,
}

impl TerrainMap {
    pub open spec fn cell_count(self) -> int {
        self.width * self.height
    }

    /// A simulatable map: non-negative dimensions whose product fits the
    /// index types, and all four per-cell arrays of exactly that length.
    pub open spec fn well_formed(self) -> bool {
        &&& 0 <= self.width
        &&& 0 <= self.height
        &&& self.width * self.height <= isize::MAX
        &&& self.tiles.len() == self.cell_count()
        &&& self.tile_shapes.len() == self.cell_count()
        &&& self.tile_rots.len() == self.cell_count()
        &&& self.heights.len() == self.cell_count()
    }

    /// Number of cells.
    pub fn len(&self) -> (r: usize)
        requires
            self.well_formed(),
        ensures
            r == self.cell_count(),
    {
        proof {
            assert(0 <= self.width * self.height) by (nonlinear_arith)
                requires
                    0 <= self.width,
                    0 <= self.height,
            ;
        }
        (self.width * self.height) as usize
    }

    /// A blank level of the given size: every cell passable at height zero,
    /// a lone start blueprint in the corner, and default limits.
    pub fn empty_of_size(width: Ordinate, height: Ordinate) -> (r: Self)
        requires
            width >= 0,
            height >= 0,
            width * height <= isize::MAX,
        ensures
            r.width == width,
            r.height == height,
            r.well_formed(),
            forall|i: int| 0 <= i < r.cell_count() ==> r.heights[i] == 0isize,
            forall|i: int| 0 <= i < r.cell_count() ==> r.tiles[i] == 0u8,
            forall|i: int| 0 <= i < r.cell_count() ==> r.tile_shapes[i] == 0u8,
            forall|i: int| 0 <= i < r.cell_count() ==> r.tile_rots[i] == 0u8,
            !r.created,
            r.ents matches Some(ents) && ents@.len() == 1 && ents@[0] == (EntBlueprint {
                pos: GridPosition { x: 0isize, y: 0isize },
                data: EntData::Start,
                rot: None::<Direction>,
            }),
            r.turn_limit == TurnLimit(7usize),
            r.ghost_limit == Some(GhostLimit(1usize)),
    {
        proof {
            assert(0 <= width * height) by (nonlinear_arith)
                requires
                    0 <= width,
                    0 <= height,
            ;
        }
        let els = (width * height) as usize;
        let mut ents: Vec<EntBlueprint> = Vec::new();
        ents.push(
            EntBlueprint { pos: GridPosition { x: 0, y: 0 }, data: EntData::Start, rot: None },
        );
        Self {
            width,
            height,
            tiles: filled_u8(els),
            tile_shapes: filled_u8(els),
            heights: filled_isize(els),
            tile_rots: filled_u8(els),
            created: false,
            ents: Some(ents),
            turn_limit: TurnLimit(7),
            ghost_limit: Some(GhostLimit(1)),
        }
    }

    /// The raw height of the cell under `pos`.
    pub open spec fn height_at(self, pos: GridPosition) -> int {
        self.heights[pos.flat(self.width as int)] as int
    }

    /// The cell under `pos` allows pathing.
    pub open spec fn passable_at(self, pos: GridPosition) -> bool {
        self.height_at(pos) >= 0
    }

    /// Move legality: both endpoints in bounds and passable, and the height
    /// difference strictly under `HEIGHT_JUMP_LIMIT`.
    pub open spec fn terrain_allows(self, from: GridPosition, to: GridPosition) -> bool {
        &&& to.in_bounds(self.width as int, self.height as int)
        &&& from.in_bounds(self.width as int, self.height as int)
        &&& self.passable_at(to)
        &&& self.passable_at(from)
        &&& height_delta(self.height_at(to), self.height_at(from)) < HEIGHT_JUMP_LIMIT
    }

    /// Whether terrain alone permits a move between the two cells. An
    /// endpoint out of range or impassable always blocks; occupancy is the
    /// caller's separate concern.
    pub fn move_allowed_by_terrain(&self, former_pos: &GridPosition, next_pos: &GridPosition) -> (r:
        bool)
        requires
            self.well_formed(),
        ensures
            r == self.terrain_allows(*former_pos, *next_pos),
    {
        if !(next_pos.x < self.width && next_pos.x >= 0 && next_pos.y < self.height && next_pos.y
            >= 0) {
            return false;
        }
        if !(former_pos.x < self.width && former_pos.x >= 0 && former_pos.y < self.height
            && former_pos.y >= 0) {
            return false;
        }
        proof {
            crate::grid::lemma_flat_index_bound(*next_pos, self.width as int, self.height as int);
            crate::grid::lemma_flat_index_bound(*former_pos, self.width as int, self.height as int);
        }
        let dest = next_pos.unroll(self.width) as usize;
        let src = former_pos.unroll(self.width) as usize;

        match TileHeight::from(self.heights[dest]) {
            TileHeight::Passable(h) => {
                match TileHeight::from(self.heights[src]) {
                    TileHeight::Passable(s) => {
                        let max = if h > s {
                            h
                        } else {
                            s
                        };
                        let min = if h > s {
                            s
                        } else {
                            h
                        };
                        max - min < HEIGHT_JUMP_LIMIT
                    },
                    _ => false,
                }
            },
            _ => false,
        }
    }
}

/// A vector of `n` zero bytes.
fn filled_u8(n: usize) -> (r: Vec<u8>)
    ensures
        r@.len() == n,
        forall|i: int| 0 <= i < n ==> r@[i] == 0u8,
{
    let mut v: Vec<u8> = Vec::new();
    let mut k: usize = 0;
    while k < n
        invariant
            k <= n,
            v@.len() == k,
            forall|i: int| 0 <= i < k ==> v@[i] == 0u8,
        decreases n - k,
    {
        v.push(0);
        k = k + 1;
    }
    v
}

/// A vector of `n` zero heights.
fn filled_isize(n: usize) -> (r: Vec<isize>)
    ensures
        r@.len() == n,
        forall|i: int| 0 <= i < n ==> r@[i] == 0isize,
{
    let mut v: Vec<isize> = Vec::new();
    let mut k: usize = 0;
    while k < n
        invariant
            k <= n,
            v@.len() == k,
            forall|i: int| 0 <= i < k ==> v@[i] == 0isize,
        decreases n - k,
    {
        v.push(0);
        k = k + 1;
    }
    v
}

/// Absolute difference of two cell heights.
pub open spec fn height_delta(a: int, b: int) -> int {
    if a >= b {
        a - b
    } else {
        b - a
    }
}

/// Characterisation of move legality over passable ground: for any two
/// in-bounds, passable cells, the move is allowed exactly when the height
/// difference is under `HEIGHT_JUMP_LIMIT`. With equal heights the
/// difference is zero, so such a move is always allowed.
pub proof fn lemma_terrain_allows_passable(m: TerrainMap, from: GridPosition, to: GridPosition)
    requires
        m.well_formed(),
        from.in_bounds(m.width as int, m.height as int),
        to.in_bounds(m.width as int, m.height as int),
        m.passable_at(from),
        m.passable_at(to),
    ensures
        m.terrain_allows(from, to) <==> height_delta(m.height_at(to), m.height_at(from))
            < HEIGHT_JUMP_LIMIT,
        m.height_at(to) == m.height_at(from) ==> m.terrain_allows(from, to),
{
}

} // verus!
