//! A single occupied cell of the board or of a falling piece, plus the
//! geometry constants shared by the whole crate.

use vstd::prelude::*;

verus! {

/// Height of one board row, in the same units as `Block::y_pos_top`.
pub const CELL_HEIGHT: i32 = 30;

/// Vertical positions saturate at this magnitude so that the fixed-width
/// arithmetic of gravity and rotation can never overflow.  The playfield
/// itself only spans vertical positions from -120 (spawn) to 480.
pub const Y_LIMIT: i32 = 1000000000;

/// Cap on the falling velocity.  Anything past the board height drops the
/// piece to the floor in a single tick either way; the cap only keeps the
/// velocity arithmetic inside `i32`.
pub const VELOCITY_CAP: i32 = 1000000;

/// Opaque display tag of a block; not behaviorally relevant to the core.
#[derive(Clone, Copy, PartialEq, Eq, Structural, Debug)]
pub struct Color {
    pub r: u8,
    pub g: u8,
    pub b: u8,
    pub a: u8,
}

/// One occupied cell: a color tag, a column in [0, 9] (once an update has
/// completed), and the vertical position of the block's top edge, measured so
/// that `y_pos_top + CELL_HEIGHT` is the bottom edge.
#[derive(Clone, Copy, PartialEq, Eq, Structural, Debug)]
pub struct Block {
    pub color: Color,
    pub col: i32,
    pub y_pos_top: i32,
}

impl Block {
    pub fn y_pos_bottom(&self) -> (r: i32)
        requires
            self.y_pos_top + CELL_HEIGHT <= i32::MAX,
        ensures
            r == self.y_pos_top + CELL_HEIGHT,
    {
        self.y_pos_top + CELL_HEIGHT
    }
}

/// The two classes of fatal invariant violation: a lock whose target cell is
/// off the board, and a rotation that finds a locked block exactly at the
/// center column of an odd-width piece.  Ordinary negative outcomes (a move
/// blocked by a wall or by terrain) are reported as `bool` results instead.
#[derive(Clone, Copy, PartialEq, Eq, Structural, Debug)]
pub enum GameError {
    LockOutOfRange,
    RotationCenterCollision,
}

/// `v` clamped into [-Y_LIMIT, Y_LIMIT].
pub open spec fn clamp_y(v: int) -> int {
    if v > Y_LIMIT as int {
        Y_LIMIT as int
    } else if v < -(Y_LIMIT as int) {
        -(Y_LIMIT as int)
    } else {
        v
    }
}

/// Adds a vertical delta to a vertical position, saturating at the limits.
pub fn add_y(a: i32, d: i32) -> (r: i32)
    requires
        -Y_LIMIT <= a <= Y_LIMIT,
        -VELOCITY_CAP <= d <= VELOCITY_CAP,
    ensures
        r == clamp_y(a + d),
{
    let s = a + d;
    if s > Y_LIMIT {
        Y_LIMIT
    } else if s < -Y_LIMIT {
        -Y_LIMIT
    } else {
        s
    }
}

} // verus!
