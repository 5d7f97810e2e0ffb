//! Grid and direction model: pure coordinate arithmetic with no state.
//!
//! A position is a cell address on a rectangular grid; valid positions have
//! `0 <= x < width` and `0 <= y < height`. A position converts to a flat
//! index by `x + y * width` (`unroll`); `roll` is the inverse for positive
//! widths.

use vstd::prelude::*;

verus! {

/// Signed coordinate: grid arithmetic may leave the map and is clamped
/// before any use as an index.
pub type Ordinate = isize;

#[derive(Clone, Copy, Debug, Eq, PartialEq, Structural)]
pub enum Direction {
    North,
    East,
    South,
    West,
}

/// A command an actor can attempt on its turn: step one cell, or stay put.
#[derive(Clone, Copy, Debug, Eq, PartialEq, Structural)]
pub enum CharacterCommand {
    Move(Direction),
    Wait,
}

#[derive(Clone, Copy, Debug, Default, Eq, PartialEq, Structural)]
pub struct GridPosition {
    pub x: Ordinate,
    pub y: Ordinate,
}

impl GridPosition {
    /// The position lies on a grid of the given dimensions.
    pub open spec fn in_bounds(self, w: int, h: int) -> bool {
        &&& 0 <= self.x < w
        &&& 0 <= self.y < h
    }

    /// Flat index of the position on a grid of width `w`.
    pub open spec fn flat(self, w: int) -> int {
        self.x + self.y * w
    }

    pub open spec fn clamp_ord(v: int, dim: int) -> int {
        let lo = if v > 0 {
            v
        } else {
            0
        };
        if lo < dim - 1 {
            lo
        } else {
            dim - 1
        }
    }

    pub open spec fn clamp_spec(self, w: int, h: int) -> GridPosition {
        GridPosition {
            x: Self::clamp_ord(self.x as int, w) as isize,
            y: Self::clamp_ord(self.y as int, h) as isize,
        }
    }

    /// Saturate each axis into `[0, dim - 1]`.
    pub fn clamp(self, w: Ordinate, h: Ordinate) -> (r: Self)
        requires
            w > isize::MIN,
            h > isize::MIN,
        ensures
            r == self.clamp_spec(w as int, h as int),
            w >= 1 && h >= 1 ==> r.in_bounds(w as int, h as int),
    {
        let x0: isize = if self.x > 0 {
            self.x
        } else {
            0
        };
        let y0: isize = if self.y > 0 {
            self.y
        } else {
            0
        };
        Self {
            x: if x0 < w - 1 {
                x0
            } else {
                w - 1
            },
            y: if y0 < h - 1 {
                y0
            } else {
                h - 1
            },
        }
    }

    pub open spec fn roll_spec(ordinate: int, map_w: int) -> GridPosition {
        GridPosition { x: (ordinate % map_w) as isize, y: (ordinate / map_w) as isize }
    }

    /// Inverse of `unroll`: recover the cell address from a flat index.
    pub fn roll(ordinate: Ordinate, map_w: Ordinate) -> (r: Self)
        requires
            map_w > 0,
            ordinate >= 0,
        ensures
            r == Self::roll_spec(ordinate as int, map_w as int),
            r.x == ordinate as int % map_w as int,
            r.y == ordinate as int / map_w as int,
    {
        proof {
            vstd::arithmetic::div_mod::lemma_mod_bound(ordinate as int, map_w as int);
            vstd::arithmetic::div_mod::lemma_div_nonincreasing(ordinate as int, map_w as int);
            vstd::arithmetic::div_mod::lemma_div_pos_is_pos(ordinate as int, map_w as int);
        }
        Self { x: ordinate % map_w, y: ordinate / map_w }
    }

    /// Flat index `x + y * width` of a valid position.
    pub fn unroll(self, map_w: Ordinate) -> (r: Ordinate)
        requires
            map_w > 0,
            0 <= self.x < map_w,
            0 <= self.y,
            self.y * map_w + self.x <= isize::MAX,
        ensures
            r == self.flat(map_w as int),
            r >= 0,
    {
        proof {
            assert(0 <= self.y * map_w <= self.y * map_w + self.x) by (nonlinear_arith)
                requires
                    0 <= self.y,
                    0 < map_w,
                    0 <= self.x,
            ;
        }
        self.x + (self.y * map_w)
    }

    pub open spec fn neighbour_spec(self, direction: Direction) -> GridPosition {
        match direction {
            Direction::East => GridPosition { x: (self.x + 1) as isize, y: self.y },
            Direction::West => GridPosition { x: (self.x - 1) as isize, y: self.y },
            Direction::North => GridPosition { x: self.x, y: (self.y + 1) as isize },
            Direction::South => GridPosition { x: self.x, y: (self.y - 1) as isize },
        }
    }

    /// The command may step off either end of an axis at the numeric limit;
    /// such inputs are excluded rather than wrapped.
    pub open spec fn neighbour_fits(self, direction: Direction) -> bool {
        match direction {
            Direction::East => self.x < isize::MAX,
            Direction::West => self.x > isize::MIN,
            Direction::North => self.y < isize::MAX,
            Direction::South => self.y > isize::MIN,
        }
    }

    /// The adjacent cell one step in `direction`.
    pub fn neighbour(self, direction: Direction) -> (r: Self)
        requires
            self.neighbour_fits(direction),
        ensures
            r == self.neighbour_spec(direction),
    {
        let mut out = self;
        match direction {
            Direction::East => {
                out.x = out.x + 1;
            },
            Direction::West => {
                out.x = out.x - 1;
            },
            Direction::North => {
                out.y = out.y + 1;
            },
            Direction::South => {
                out.y = out.y - 1;
            },
        }
        out
    }

    pub open spec fn destination_spec(self, action: CharacterCommand) -> GridPosition {
        match action {
            CharacterCommand::Move(d) => self.neighbour_spec(d),
            CharacterCommand::Wait => self,
        }
    }

    pub open spec fn destination_fits(self, action: CharacterCommand) -> bool {
        match action {
            CharacterCommand::Move(d) => self.neighbour_fits(d),
            CharacterCommand::Wait => true,
        }
    }

    /// Where the command asks to go: the neighbour for a move, the same cell
    /// for a wait.
    pub fn destination(self, action: CharacterCommand) -> (r: Self)
        requires
            self.destination_fits(action),
        ensures
            r == self.destination_spec(action),
    {
        match action {
            CharacterCommand::Move(d) => self.neighbour(d),
            CharacterCommand::Wait => self,
        }
    }
}

/// Round trip of the flat-index encoding: for every non-negative flat index
/// and positive width, unrolling the rolled position gives the index back.
pub proof fn lemma_roll_unroll(ordinate: isize, map_w: isize)
    requires
        map_w > 0,
        ordinate >= 0,
    ensures
        GridPosition::roll_spec(ordinate as int, map_w as int).flat(map_w as int)
            == ordinate as int,
{
    let i = ordinate as int;
    let w = map_w as int;
    vstd::arithmetic::div_mod::lemma_fundamental_div_mod(i, w);
    vstd::arithmetic::div_mod::lemma_mod_bound(i, w);
    vstd::arithmetic::div_mod::lemma_div_nonincreasing(i, w);
    vstd::arithmetic::div_mod::lemma_div_pos_is_pos(i, w);
    assert((i % w) as isize as int == i % w);
    assert((i / w) as isize as int == i / w);
    assert(i % w + (i / w) * w == i);
}

/// A valid position's flat index lies below the cell count `w * h`.
pub proof fn lemma_flat_index_bound(pos: GridPosition, w: int, h: int)
    requires
        pos.in_bounds(w, h),
    ensures
        0 <= pos.flat(w) < w * h,
{
    assert(0 <= pos.x + pos.y * w < w * h) by (nonlinear_arith)
        requires
            0 <= pos.x < w,
            0 <= pos.y < h,
    ;
}

} // verus!
