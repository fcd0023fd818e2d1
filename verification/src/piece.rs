//! The falling piece: one of seven four-block shapes with a rotation-state
//! counter.  Provides spawning, horizontal shifting with wall and terrain
//! checks, the rotation delta tables, boundary enforcement after rotation,
//! and the rotation-with-repositioning ("kick") algorithm.

use vstd::prelude::*;
use crate::block::{add_y, clamp_y, Block, Color, GameError, CELL_HEIGHT, Y_LIMIT};
use crate::board::{block_hits_row, board_view, lines_wf, Line};

verus! {

/// The seven shapes.
#[derive(Clone, Copy, PartialEq, Eq, Structural, Debug)]
pub enum ShapeKind {
    Square,
    Straight,
    T,
    RightL,
    LeftL,
    RightSkew,
    LeftSkew,
}

/// Direction of a horizontal shift.
#[derive(Clone, Copy, PartialEq, Eq, Structural, Debug)]
pub enum Direction {
    Left,
    Right,
}

/// A falling piece: a shape tag, exactly four blocks, and the current
/// rotation state (in degrees: 0/90/180/270, or 0/90 for the skew shapes).
#[derive(Clone, Debug)]
pub struct Piece {
    pub kind: ShapeKind,
    pub blocks: Vec<Block>,
    pub rotation: u32,
}

/// The rotation states a shape can be in: the square never leaves 0, the two
/// skew shapes alternate between 0 and 90, the rest cycle through all four.
pub open spec fn rotation_valid(kind: ShapeKind, rot: u32) -> bool {
    match kind {
        ShapeKind::Square => rot == 0,
        ShapeKind::RightSkew | ShapeKind::LeftSkew => rot == 0 || rot == 90,
        _ => rot == 0 || rot == 90 || rot == 180 || rot == 270,
    }
}

/// The rotation state reached by one successful rotation.
pub open spec fn next_rotation(kind: ShapeKind, rot: u32) -> u32 {
    match kind {
        ShapeKind::Square => rot,
        ShapeKind::RightSkew | ShapeKind::LeftSkew => if rot == 0 {
            90u32
        } else {
            0u32
        },
        _ => if rot == 270 {
            0u32
        } else {
            (rot + 90) as u32
        },
    }
}

/// A well-formed piece: four blocks, every column on the board, vertical
/// positions within the saturation limits, and a legal rotation state.
pub open spec fn piece_wf(p: Piece) -> bool {
    &&& p.blocks@.len() == 4
    &&& rotation_valid(p.kind, p.rotation)
    &&& forall|i: int|
        0 <= i < 4 ==> {
            let b = #[trigger] p.blocks@[i];
            0 <= b.col <= 9 && -Y_LIMIT <= b.y_pos_top <= Y_LIMIT
        }
}

/// Loose machine-range bounds that also admit the transient out-of-board
/// columns a shadow piece can hold during rotation.
pub open spec fn blocks_bounded(blocks: Seq<Block>) -> bool {
    forall|i: int|
        0 <= i < blocks.len() ==> {
            let b = #[trigger] blocks[i];
            -100 <= b.col <= 100 && -Y_LIMIT <= b.y_pos_top <= Y_LIMIT
        }
}

/// Column delta applied to block `i` by a rotation out of state `rot`.
pub open spec fn col_delta(kind: ShapeKind, rot: u32, i: int) -> int {
    match kind {
        ShapeKind::Square => 0,
        ShapeKind::Straight => if rot == 0 || rot == 270 {
            if i == 0 { -1 } else if i == 2 { 1 } else if i == 3 { 2 } else { 0 }
        } else {
            if i == 0 { 1 } else if i == 2 { -1 } else if i == 3 { -2 } else { 0 }
        },
        ShapeKind::T => if rot == 0 {
            if i == 0 { 1 } else if i == 2 { -1 } else if i == 3 { 1 } else { 0 }
        } else if rot == 90 {
            if i == 0 { 1 } else if i == 2 { -1 } else if i == 3 { -1 } else { 0 }
        } else if rot == 180 {
            if i == 0 { -1 } else if i == 2 { 1 } else if i == 3 { -1 } else { 0 }
        } else {
            if i == 0 { -1 } else if i == 2 { 1 } else if i == 3 { 1 } else { 0 }
        },
        ShapeKind::RightL => if rot == 0 {
            if i == 1 { -1 } else if i == 2 { 1 } else if i == 3 { 2 } else { 0 }
        } else if rot == 90 {
            if i == 1 { -1 } else if i == 2 { -1 } else if i == 3 { -2 } else { 0 }
        } else if rot == 180 {
            if i == 1 { 1 } else if i == 2 { -1 } else if i == 3 { -2 } else { 0 }
        } else {
            if i == 1 { 1 } else if i == 2 { 1 } else if i == 3 { 2 } else { 0 }
        },
        ShapeKind::LeftL => if rot == 0 {
            if i == 0 { 1 } else if i == 2 { 1 } else if i == 3 { 2 } else { 0 }
        } else if rot == 90 {
            if i == 0 { 1 } else if i == 2 { -1 } else if i == 3 { -2 } else { 0 }
        } else if rot == 180 {
            if i == 0 { -1 } else if i == 2 { -1 } else if i == 3 { -2 } else { 0 }
        } else {
            if i == 0 { -1 } else if i == 2 { 1 } else if i == 3 { 2 } else { 0 }
        },
        ShapeKind::RightSkew => if rot == 0 {
            if i == 0 { 1 } else if i == 2 { 1 } else { 0 }
        } else {
            if i == 0 { -1 } else if i == 2 { -1 } else { 0 }
        },
        ShapeKind::LeftSkew => if rot == 0 {
            if i == 1 { -1 } else if i == 2 { 2 } else if i == 3 { 1 } else { 0 }
        } else {
            if i == 1 { 1 } else if i == 2 { -2 } else if i == 3 { -1 } else { 0 }
        },
    }
}

/// Vertical delta applied to block `i` by a rotation out of state `rot`, in
/// cell-height units times the cell height.
pub open spec fn y_delta(kind: ShapeKind, rot: u32, i: int) -> int {
    match kind {
        ShapeKind::Square => 0,
        ShapeKind::Straight => if rot == 0 || rot == 90 {
            if i == 0 { -30 } else if i == 2 { 30 } else if i == 3 { 60 } else { 0 }
        } else {
            if i == 0 { 30 } else if i == 2 { -30 } else if i == 3 { -60 } else { 0 }
        },
        ShapeKind::T => if rot == 0 {
            if i == 0 { -30 } else if i == 2 { 30 } else if i == 3 { 30 } else { 0 }
        } else if rot == 90 {
            if i == 0 { 30 } else if i == 2 { -30 } else if i == 3 { 30 } else { 0 }
        } else if rot == 180 {
            if i == 0 { 30 } else if i == 2 { -30 } else if i == 3 { -30 } else { 0 }
        } else {
            if i == 0 { -30 } else if i == 2 { 30 } else if i == 3 { -30 } else { 0 }
        },
        ShapeKind::RightL => if rot == 0 {
            if i == 1 { 30 } else if i == 2 { 30 } else if i == 3 { 60 } else { 0 }
        } else if rot == 90 {
            if i == 1 { -30 } else if i == 2 { 30 } else if i == 3 { 60 } else { 0 }
        } else if rot == 180 {
            if i == 1 { -30 } else if i == 2 { -30 } else if i == 3 { -60 } else { 0 }
        } else {
            if i == 1 { 30 } else if i == 2 { -30 } else if i == 3 { -60 } else { 0 }
        },
        ShapeKind::LeftL => if rot == 0 {
            if i == 0 { -30 } else if i == 2 { 30 } else if i == 3 { 60 } else { 0 }
        } else if rot == 90 {
            if i == 0 { 30 } else if i == 2 { 30 } else if i == 3 { 60 } else { 0 }
        } else if rot == 180 {
            if i == 0 { 30 } else if i == 2 { -30 } else if i == 3 { -60 } else { 0 }
        } else {
            if i == 0 { -30 } else if i == 2 { -30 } else if i == 3 { -60 } else { 0 }
        },
        ShapeKind::RightSkew => if rot == 0 {
            if i == 0 { -30 } else if i == 2 { 30 } else if i == 3 { 60 } else { 0 }
        } else {
            if i == 0 { 30 } else if i == 2 { -30 } else if i == 3 { -60 } else { 0 }
        },
        ShapeKind::LeftSkew => if rot == 0 {
            if i == 1 { 30 } else if i == 3 { 30 } else { 0 }
        } else {
            if i == 1 { -30 } else if i == 3 { -30 } else { 0 }
        },
    }
}

/// Block `i` after the delta table for (kind, rot) is applied to it.
pub open spec fn delta_block(b: Block, kind: ShapeKind, rot: u32, i: int) -> Block {
    Block {
        color: b.color,
        col: (b.col + col_delta(kind, rot, i)) as i32,
        y_pos_top: clamp_y(b.y_pos_top + y_delta(kind, rot, i)) as i32,
    }
}

pub open spec fn delta_blocks(blocks: Seq<Block>, kind: ShapeKind, rot: u32) -> Seq<Block> {
    Seq::new(blocks.len(), |i: int| delta_block(blocks[i], kind, rot, i))
}

/// All blocks moved `s` columns sideways.
pub open spec fn shift_cols(blocks: Seq<Block>, s: int) -> Seq<Block> {
    Seq::new(
        blocks.len(),
        |i: int| Block {
            color: blocks[i].color,
            col: (blocks[i].col + s) as i32,
            y_pos_top: blocks[i].y_pos_top,
        },
    )
}

/// The correction `enforce_boundaries_after_rotation` computes over the
/// first `n` blocks: positive to leave the left wall, negative to leave the
/// right wall.
pub open spec fn boundary_fix_fold(blocks: Seq<Block>, n: int) -> int
    decreases n,
{
    if n <= 0 {
        0
    } else {
        let prev = boundary_fix_fold(blocks, n - 1);
        let b = blocks[n - 1];
        let after_left = if b.col < 0 && -(b.col as int) > prev {
            -(b.col as int)
        } else {
            prev
        };
        if b.col > 9 && -((b.col - 9) as int) < after_left {
            -((b.col - 9) as int)
        } else {
            after_left
        }
    }
}

pub open spec fn boundary_fix(blocks: Seq<Block>) -> int {
    boundary_fix_fold(blocks, blocks.len() as int)
}

/// Whether a shape's rotation applies the pure board-edge clamp itself (all
/// shapes but the square, whose rotation is a no-op, and the straight piece,
/// whose edge correction is left to the kick replay).
pub open spec fn clamps_in_rotate(kind: ShapeKind) -> bool {
    !(kind is Square || kind is Straight)
}

/// A piece's blocks after its delta table and, for the clamping shapes, the
/// board-edge correction.
pub open spec fn do_rotate_blocks(blocks: Seq<Block>, kind: ShapeKind, rot: u32) -> Seq<Block> {
    let d = delta_blocks(blocks, kind, rot);
    if clamps_in_rotate(kind) {
        shift_cols(d, boundary_fix(d))
    } else {
        d
    }
}

/// Exact copy of a block vector.
fn copy_blocks(v: &Vec<Block>) -> (r: Vec<Block>)
    ensures
        r@ == v@,
{
    let mut r: Vec<Block> = Vec::new();
    let mut i: usize = 0;
    while i < v.len()
        invariant
            i <= v@.len(),
            r@ == v@.take(i as int),
        decreases v@.len() - i,
    {
        r.push(v[i]);
        proof {
            assert(r@ =~= v@.take(i as int + 1));
        }
        i += 1;
    }
    proof {
        assert(v@.take(v@.len() as int) =~= v@);
    }
    r
}

/// The initial blocks of each shape: a shape-specific column layout in the
/// two to four rows above the visible board.
pub open spec fn spawn_blocks(kind: ShapeKind) -> Seq<Block> {
    match kind {
        ShapeKind::Square => {
            let c = Color { r: 245, g: 40, b: 145, a: 204 };
            seq![
                Block { color: c, col: 4, y_pos_top: -30i32 },
                Block { color: c, col: 5, y_pos_top: -30i32 },
                Block { color: c, col: 4, y_pos_top: -60i32 },
                Block { color: c, col: 5, y_pos_top: -60i32 },
            ]
        },
        ShapeKind::Straight => {
            let c = Color { r: 61, g: 139, b: 232, a: 117 };
            seq![
                Block { color: c, col: 4, y_pos_top: -30i32 },
                Block { color: c, col: 4, y_pos_top: -60i32 },
                Block { color: c, col: 4, y_pos_top: -90i32 },
                Block { color: c, col: 4, y_pos_top: -120i32 },
            ]
        },
        ShapeKind::T => {
            let c = Color { r: 47, g: 94, b: 68, a: 196 };
            seq![
                Block { color: c, col: 3, y_pos_top: -30i32 },
                Block { color: c, col: 4, y_pos_top: -30i32 },
                Block { color: c, col: 5, y_pos_top: -30i32 },
                Block { color: c, col: 4, y_pos_top: -60i32 },
            ]
        },
        ShapeKind::RightL => {
            let c = Color { r: 249, g: 134, b: 36, a: 224 };
            seq![
                Block { color: c, col: 4, y_pos_top: -30i32 },
                Block { color: c, col: 5, y_pos_top: -30i32 },
                Block { color: c, col: 4, y_pos_top: -60i32 },
                Block { color: c, col: 4, y_pos_top: -90i32 },
            ]
        },
        ShapeKind::LeftL => {
            let c = Color { r: 176, g: 99, b: 246, a: 199 };
            seq![
                Block { color: c, col: 4, y_pos_top: -30i32 },
                Block { color: c, col: 5, y_pos_top: -30i32 },
                Block { color: c, col: 5, y_pos_top: -60i32 },
                Block { color: c, col: 5, y_pos_top: -90i32 },
            ]
        },
        ShapeKind::RightSkew => {
            let c = Color { r: 244, g: 127, b: 241, a: 166 };
            seq![
                Block { color: c, col: 3, y_pos_top: -30i32 },
                Block { color: c, col: 4, y_pos_top: -30i32 },
                Block { color: c, col: 4, y_pos_top: -60i32 },
                Block { color: c, col: 5, y_pos_top: -60i32 },
            ]
        },
        ShapeKind::LeftSkew => {
            let c = Color { r: 245, g: 96, b: 127, a: 225 };
            seq![
                Block { color: c, col: 4, y_pos_top: -30i32 },
                Block { color: c, col: 5, y_pos_top: -30i32 },
                Block { color: c, col: 3, y_pos_top: -60i32 },
                Block { color: c, col: 4, y_pos_top: -60i32 },
            ]
        },
    }
}

/// -1 for a leftward shift, +1 for a rightward one.
pub open spec fn dir_step(d: Direction) -> int {
    match d {
        Direction::Left => -1,
        Direction::Right => 1,
    }
}

/// Whether some block already touches the wall in the direction of travel
/// (at or beyond it, so the transient out-of-board columns of a shadow
/// piece count too).
pub open spec fn at_edge(blocks: Seq<Block>, d: Direction) -> bool {
    exists|i: int|
        0 <= i < blocks.len() && match d {
            Direction::Left => (#[trigger] blocks[i]).col <= 0,
            Direction::Right => (#[trigger] blocks[i]).col >= 9,
        }
}

/// The board row a falling block is currently counted in.
pub open spec fn row_of(y: int) -> int {
    if y < 0 {
        0
    } else {
        y / 30
    }
}

/// The row directly below, clamped to the bottom row.
pub open spec fn next_row_of(y: int) -> int {
    if row_of(y) + 1 <= 14 {
        row_of(y) + 1
    } else {
        14
    }
}

/// Whether the cell adjacent to `b` in the direction of travel is occupied,
/// in the block's current row or the row directly below.
pub open spec fn cell_blocks_move(bv: Seq<Seq<Option<Block>>>, b: Block, d: Direction) -> bool {
    let t = b.col + dir_step(d);
    let r = row_of(b.y_pos_top as int);
    0 <= t <= 9 && r <= 14 && (bv[r][t] is Some || bv[next_row_of(b.y_pos_top as int)][t] is Some)
}

pub open spec fn terrain_blocked(
    bv: Seq<Seq<Option<Block>>>,
    blocks: Seq<Block>,
    d: Direction,
) -> bool {
    exists|i: int| 0 <= i < blocks.len() && #[trigger] cell_blocks_move(bv, blocks[i], d)
}

/// The fold `calculate_boundary_shifts` computes over the first `n` blocks:
/// the magnitudes of the edge corrections needed to the right and to the
/// left.
pub open spec fn boundary_shifts_fold(blocks: Seq<Block>, n: int) -> (int, int)
    decreases n,
{
    if n <= 0 {
        (0int, 0int)
    } else {
        let prev = boundary_shifts_fold(blocks, n - 1);
        let b = blocks[n - 1];
        let r = if b.col < 0 && -(b.col as int) > prev.0 {
            -(b.col as int)
        } else {
            prev.0
        };
        let l = if b.col > 9 && (b.col - 9) as int > prev.1 {
            (b.col - 9) as int
        } else {
            prev.1
        };
        (r, l)
    }
}

pub open spec fn boundary_shifts(blocks: Seq<Block>) -> (int, int) {
    boundary_shifts_fold(blocks, blocks.len() as int)
}

/// The fold `calculate_edge_cols` computes over the first `n` blocks:
/// rightmost and leftmost occupied column, folded from the initial pair
/// (0, 9).
pub open spec fn edge_cols_fold(blocks: Seq<Block>, n: int) -> (int, int)
    decreases n,
{
    if n <= 0 {
        (0int, 9int)
    } else {
        let prev = edge_cols_fold(blocks, n - 1);
        let b = blocks[n - 1];
        (
            if b.col as int > prev.0 {
                b.col as int
            } else {
                prev.0
            },
            if (b.col as int) < prev.1 {
                b.col as int
            } else {
                prev.1
            },
        )
    }
}

pub open spec fn edge_cols(blocks: Seq<Block>) -> (int, int) {
    edge_cols_fold(blocks, blocks.len() as int)
}

/// The boundary shifts are non-negative, and every column lies within the
/// span they correct to.
pub proof fn lemma_boundary_shifts_cols(blocks: Seq<Block>, n: int)
    requires
        0 <= n <= blocks.len(),
    ensures
        boundary_shifts_fold(blocks, n).0 >= 0,
        boundary_shifts_fold(blocks, n).1 >= 0,
        forall|i: int|
            0 <= i < n ==> -boundary_shifts_fold(blocks, n).0 <= (#[trigger] blocks[i]).col as int
                <= 9 + boundary_shifts_fold(blocks, n).1,
    decreases n,
{
    if n > 0 {
        lemma_boundary_shifts_cols(blocks, n - 1);
    }
}

/// With every column in the range a rotation delta can reach from the
/// board, the boundary correction is at most two columns either way.
pub proof fn lemma_boundary_fix_small(blocks: Seq<Block>, n: int)
    requires
        0 <= n <= blocks.len(),
        forall|i: int| 0 <= i < blocks.len() ==> -2 <= (#[trigger] blocks[i]).col <= 11,
    ensures
        -2 <= boundary_fix_fold(blocks, n) <= 2,
    decreases n,
{
    if n > 0 {
        lemma_boundary_fix_small(blocks, n - 1);
    }
}

/// Whether the piece's width (rightmost minus leftmost column plus one) is
/// even.
pub open spec fn piece_width_even(blocks: Seq<Block>) -> bool {
    let e = edge_cols(blocks);
    (e.0 - e.1 + 1) % 2 == 0
}

/// The center column used by the kick rule: the exact center for an odd
/// width, the column immediately left of center for an even width.
pub open spec fn center_col(blocks: Seq<Block>) -> int {
    let e = edge_cols(blocks);
    let w = e.0 - e.1 + 1;
    if w % 2 == 0 {
        e.1 + w / 2 - 1
    } else {
        e.1 + w / 2
    }
}

/// The unrecoverable case: a locked block collides exactly at the center
/// column of an odd-width piece.
pub open spec fn center_fatal(bv: Seq<Seq<Option<Block>>>, blocks: Seq<Block>) -> bool {
    !piece_width_even(blocks) && exists|r: int, i: int|
        0 <= r < 15 && 0 <= i < blocks.len() && #[trigger] block_hits_row(bv, blocks[i], r)
            && blocks[i].col == center_col(blocks)
}

/// Number of colliding blocks at or left of the center among the first `n`,
/// for one row (the even-width count).
pub open spec fn row_hits_le(
    bv: Seq<Seq<Option<Block>>>,
    blocks: Seq<Block>,
    r: int,
    cen: int,
    n: int,
) -> int
    decreases n,
{
    if n <= 0 {
        0
    } else {
        row_hits_le(bv, blocks, r, cen, n - 1) + (if block_hits_row(bv, blocks[n - 1], r) && blocks[n
            - 1].col <= cen {
            1int
        } else {
            0int
        })
    }
}

/// Number of colliding blocks right of the center among the first `n`, for
/// one row (the even-width count).
pub open spec fn row_hits_gt(
    bv: Seq<Seq<Option<Block>>>,
    blocks: Seq<Block>,
    r: int,
    cen: int,
    n: int,
) -> int
    decreases n,
{
    if n <= 0 {
        0
    } else {
        row_hits_gt(bv, blocks, r, cen, n - 1) + (if block_hits_row(bv, blocks[n - 1], r) && blocks[n
            - 1].col > cen {
            1int
        } else {
            0int
        })
    }
}

/// Whether some block collides strictly left of the center in row `r` (the
/// odd-width flag).
pub open spec fn row_any_lt(
    bv: Seq<Seq<Option<Block>>>,
    blocks: Seq<Block>,
    r: int,
    cen: int,
) -> bool {
    exists|i: int|
        0 <= i < blocks.len() && #[trigger] block_hits_row(bv, blocks[i], r) && blocks[i].col < cen
}

/// Whether some block collides strictly right of the center in row `r`.
pub open spec fn row_any_gt(
    bv: Seq<Seq<Option<Block>>>,
    blocks: Seq<Block>,
    r: int,
    cen: int,
) -> bool {
    exists|i: int|
        0 <= i < blocks.len() && #[trigger] block_hits_row(bv, blocks[i], r) && blocks[i].col > cen
}

/// Row `r`'s demand to shift right: a count for even widths, a flag for odd
/// ones.
pub open spec fn row_shift_right(bv: Seq<Seq<Option<Block>>>, blocks: Seq<Block>, r: int) -> int {
    if piece_width_even(blocks) {
        row_hits_le(bv, blocks, r, center_col(blocks), blocks.len() as int)
    } else if row_any_lt(bv, blocks, r, center_col(blocks)) {
        1
    } else {
        0
    }
}

/// Row `r`'s demand to shift left.
pub open spec fn row_shift_left(bv: Seq<Seq<Option<Block>>>, blocks: Seq<Block>, r: int) -> int {
    if piece_width_even(blocks) {
        row_hits_gt(bv, blocks, r, center_col(blocks), blocks.len() as int)
    } else if row_any_gt(bv, blocks, r, center_col(blocks)) {
        1
    } else {
        0
    }
}

/// The terrain-driven shift magnitudes: the maxima of the row demands over
/// the first `n` rows.
pub open spec fn collision_shifts_upto(
    bv: Seq<Seq<Option<Block>>>,
    blocks: Seq<Block>,
    n: int,
) -> (int, int)
    decreases n,
{
    if n <= 0 {
        (0int, 0int)
    } else {
        let prev = collision_shifts_upto(bv, blocks, n - 1);
        let rr = row_shift_right(bv, blocks, n - 1);
        let ll = row_shift_left(bv, blocks, n - 1);
        (
            if rr > prev.0 {
                rr
            } else {
                prev.0
            },
            if ll > prev.1 {
                ll
            } else {
                prev.1
            },
        )
    }
}

pub open spec fn collision_shifts(bv: Seq<Seq<Option<Block>>>, blocks: Seq<Block>) -> (int, int) {
    collision_shifts_upto(bv, blocks, 15)
}

/// A non-empty piece spans at least one column.
pub proof fn lemma_edge_cols_span(blocks: Seq<Block>, n: int)
    requires
        1 <= n <= blocks.len(),
    ensures
        edge_cols_fold(blocks, n).0 >= edge_cols_fold(blocks, n).1,
{
}

/// The piece's blocks after the rotation delta table and the shapes' own
/// edge clamp; what the kick algorithm simulates on the shadow.
pub open spec fn rotate_shadow(p: Piece) -> Seq<Block> {
    do_rotate_blocks(p.blocks@, p.kind, p.rotation)
}

/// Whether a rotation of `p` runs into the fatal center-column collision.
pub open spec fn rotate_fatal(bv: Seq<Seq<Option<Block>>>, p: Piece) -> bool {
    center_fatal(bv, rotate_shadow(p))
}

/// The required shift of a rotation: the componentwise maxima of the edge
/// and terrain demands, as (right, left).
pub open spec fn rotate_total_shifts(bv: Seq<Seq<Option<Block>>>, p: Piece) -> (int, int) {
    let sb = rotate_shadow(p);
    let b = boundary_shifts(sb);
    let c = collision_shifts(bv, sb);
    (
        if b.0 > c.0 {
            b.0
        } else {
            c.0
        },
        if b.1 > c.1 {
            b.1
        } else {
            c.1
        },
    )
}

/// The blocks after `n` legality-checked one-column steps in direction `d`,
/// or nothing if some step is blocked.
pub open spec fn replay(
    bv: Seq<Seq<Option<Block>>>,
    blocks: Seq<Block>,
    d: Direction,
    n: int,
) -> Option<Seq<Block>>
    decreases n,
{
    if n <= 0 {
        Some(blocks)
    } else if at_edge(blocks, d) || terrain_blocked(bv, blocks, d) {
        None
    } else {
        replay(bv, shift_cols(blocks, dir_step(d)), d, n - 1)
    }
}

/// The final blocks of a rotation of `p`, or nothing if the rotation is
/// rejected: contradictory shift demands, or a blocked replay step.
pub open spec fn rotate_commit(bv: Seq<Seq<Option<Block>>>, p: Piece) -> Option<Seq<Block>> {
    let sb = rotate_shadow(p);
    let s = rotate_total_shifts(bv, p);
    if s.0 != 0 && s.1 != 0 {
        None
    } else if s.0 > 0 {
        replay(bv, sb, Direction::Right, s.0)
    } else {
        replay(bv, sb, Direction::Left, s.1)
    }
}

/// A successful replay moves every block by the full shift, leaves vertical
/// positions alone, and ends inside the wall it was shifting away from.
pub proof fn lemma_replay_props(
    bv: Seq<Seq<Option<Block>>>,
    blocks: Seq<Block>,
    d: Direction,
    n: int,
)
    requires
        0 <= n,
        replay(bv, blocks, d, n) is Some,
    ensures
        replay(bv, blocks, d, n).unwrap().len() == blocks.len(),
        forall|i: int|
            0 <= i < blocks.len() ==> (#[trigger] replay(bv, blocks, d, n).unwrap()[i]).col as int
                == blocks[i].col + n * dir_step(d) && replay(bv, blocks, d, n).unwrap()[i].y_pos_top
                == blocks[i].y_pos_top && replay(bv, blocks, d, n).unwrap()[i].color
                == blocks[i].color,
        n >= 1 && d is Right ==> forall|i: int|
            0 <= i < blocks.len() ==> (#[trigger] replay(bv, blocks, d, n).unwrap()[i]).col <= 9,
        n >= 1 && d is Left ==> forall|i: int|
            0 <= i < blocks.len() ==> (#[trigger] replay(bv, blocks, d, n).unwrap()[i]).col >= 0,
    decreases n,
{
    if n > 0 {
        assert(!at_edge(blocks, d));
        assert forall|i: int| 0 <= i < blocks.len() implies match d {
            Direction::Left => blocks[i].col >= 1,
            Direction::Right => blocks[i].col <= 8,
        } by {
            assert(!(match d {
                Direction::Left => (blocks[i]).col <= 0,
                Direction::Right => (blocks[i]).col >= 9,
            }));
        }
        let stepped = shift_cols(blocks, dir_step(d));
        lemma_replay_props(bv, stepped, d, n - 1);
        match d {
            Direction::Left => {
                assert(forall|i: int|
                    0 <= i < blocks.len() ==> (#[trigger] stepped[i]).col as int == blocks[i].col
                        - 1);
            },
            Direction::Right => {
                assert(forall|i: int|
                    0 <= i < blocks.len() ==> (#[trigger] stepped[i]).col as int == blocks[i].col
                        + 1);
            },
        }
    }
}

/// The shapes with four rotation states.
pub open spec fn four_state(kind: ShapeKind) -> bool {
    kind is Straight || kind is T || kind is RightL || kind is LeftL
}

/// `b` is `a` moved sideways by `s` columns, with vertical positions and
/// colors untouched.
pub open spec fn uniform_shift(a: Seq<Block>, b: Seq<Block>, s: int) -> bool {
    &&& a.len() == b.len()
    &&& forall|i: int|
        0 <= i < a.len() ==> (#[trigger] b[i]).col as int == a[i].col + s && b[i].y_pos_top
            == a[i].y_pos_top && b[i].color == a[i].color
}

/// One successful rotation: exactly what `rotate` guarantees of the piece
/// when it returns that the piece moved.
pub open spec fn rotate_step(bv: Seq<Seq<Option<Block>>>, p: Piece, q: Piece) -> bool {
    &&& piece_wf(p)
    &&& rotate_commit(bv, p) is Some
    &&& q.kind == p.kind
    &&& q.blocks@ == rotate_commit(bv, p).unwrap()
    &&& q.rotation == next_rotation(p.kind, p.rotation)
    &&& piece_wf(q)
}

/// The delta tables only ever move a block two columns and two cell heights
/// at most.
pub proof fn lemma_delta_bounds(kind: ShapeKind, rot: u32, i: int)
    ensures
        -2 <= col_delta(kind, rot, i) <= 2,
        -60 <= y_delta(kind, rot, i) <= 60,
{
    match kind {
        ShapeKind::Square => {},
        ShapeKind::Straight => {},
        ShapeKind::T => {},
        ShapeKind::RightL => {},
        ShapeKind::LeftL => {},
        ShapeKind::RightSkew => {},
        ShapeKind::LeftSkew => {},
    }
}

pub proof fn lemma_row_hits_nonneg(
    bv: Seq<Seq<Option<Block>>>,
    blocks: Seq<Block>,
    r: int,
    cen: int,
    n: int,
)
    ensures
        row_hits_le(bv, blocks, r, cen, n) >= 0,
        row_hits_gt(bv, blocks, r, cen, n) >= 0,
    decreases n,
{
    if n > 0 {
        lemma_row_hits_nonneg(bv, blocks, r, cen, n - 1);
    }
}

pub proof fn lemma_collision_shifts_nonneg(
    bv: Seq<Seq<Option<Block>>>,
    blocks: Seq<Block>,
    n: int,
)
    ensures
        collision_shifts_upto(bv, blocks, n).0 >= 0,
        collision_shifts_upto(bv, blocks, n).1 >= 0,
    decreases n,
{
    if n > 0 {
        lemma_collision_shifts_nonneg(bv, blocks, n - 1);
        lemma_row_hits_nonneg(bv, blocks, n - 1, center_col(blocks), blocks.len() as int);
    }
}

/// One successful rotation moves each block by its delta-table entry plus
/// one shift `s` common to all four blocks, and clamps its vertical
/// position only at the saturation limits.
pub proof fn lemma_rotate_step_shape(bv: Seq<Seq<Option<Block>>>, p: Piece, q: Piece) -> (s: int)
    requires
        rotate_step(bv, p, q),
    ensures
        q.blocks@.len() == 4,
        forall|i: int|
            0 <= i < 4 ==> (#[trigger] q.blocks@[i]).col as int == p.blocks@[i].col + col_delta(
                p.kind,
                p.rotation,
                i,
            ) + s && q.blocks@[i].y_pos_top as int == clamp_y(
                p.blocks@[i].y_pos_top + y_delta(p.kind, p.rotation, i),
            ) && q.blocks@[i].color == p.blocks@[i].color,
{
    let d = delta_blocks(p.blocks@, p.kind, p.rotation);
    let fix: int = if clamps_in_rotate(p.kind) {
        boundary_fix(d)
    } else {
        0
    };
    let sb = rotate_shadow(p);
    assert(sb.len() == 4);
    assert forall|i: int| 0 <= i < 4 implies -2 <= (#[trigger] d[i]).col <= 11 by {
        lemma_delta_bounds(p.kind, p.rotation, i);
        assert(0 <= p.blocks@[i].col <= 9);
    }
    if clamps_in_rotate(p.kind) {
        lemma_boundary_fix_small(d, d.len() as int);
    }
    assert forall|i: int| 0 <= i < 4 implies (#[trigger] sb[i]).col as int == p.blocks@[i].col
        + col_delta(p.kind, p.rotation, i) + fix && sb[i].y_pos_top as int == clamp_y(
        p.blocks@[i].y_pos_top + y_delta(p.kind, p.rotation, i),
    ) && sb[i].color == p.blocks@[i].color by {
        lemma_delta_bounds(p.kind, p.rotation, i);
    }
    let st = rotate_total_shifts(bv, p);
    lemma_boundary_shifts_cols(sb, 4);
    lemma_collision_shifts_nonneg(bv, sb, 15);
    if st.0 > 0 {
        lemma_replay_props(bv, sb, Direction::Right, st.0);
        fix + st.0
    } else {
        lemma_replay_props(bv, sb, Direction::Left, st.1);
        fix - st.1
    }
}

/// The delta tables of the four-state shapes cancel over a full cycle of
/// four rotations, and the rotation state returns to where it began.
pub proof fn lemma_delta_cycle(kind: ShapeKind, rot: u32, i: int)
    requires
        four_state(kind),
        rotation_valid(kind, rot),
        0 <= i < 4,
    ensures
        ({
            let r1 = next_rotation(kind, rot);
            let r2 = next_rotation(kind, r1);
            let r3 = next_rotation(kind, r2);
            &&& next_rotation(kind, r3) == rot
            &&& col_delta(kind, rot, i) + col_delta(kind, r1, i) + col_delta(kind, r2, i)
                + col_delta(kind, r3, i) == 0
            &&& y_delta(kind, rot, i) + y_delta(kind, r1, i) + y_delta(kind, r2, i) + y_delta(
                kind,
                r3,
                i,
            ) == 0
        }),
{
    match kind {
        ShapeKind::Straight => {},
        ShapeKind::T => {},
        ShapeKind::RightL => {},
        ShapeKind::LeftL => {},
        _ => {},
    }
}

/// Law: four successful rotations of a four-state piece return its rotation
/// state to where it began and restore its shape exactly, up to one uniform
/// horizontal shift accumulated from kicks; every block's vertical position
/// returns to its original value.
pub proof fn lemma_rotation_round_trip(
    bv: Seq<Seq<Option<Block>>>,
    p0: Piece,
    p1: Piece,
    p2: Piece,
    p3: Piece,
    p4: Piece,
)
    requires
        four_state(p0.kind),
        forall|i: int|
            0 <= i < 4 ==> -(Y_LIMIT - 240) <= (#[trigger] p0.blocks@[i]).y_pos_top <= Y_LIMIT
                - 240,
        rotate_step(bv, p0, p1),
        rotate_step(bv, p1, p2),
        rotate_step(bv, p2, p3),
        rotate_step(bv, p3, p4),
    ensures
        p4.kind == p0.kind,
        p4.rotation == p0.rotation,
        exists|s: int| #[trigger] uniform_shift(p0.blocks@, p4.blocks@, s),
{
    let k = p0.kind;
    let r0 = p0.rotation;
    let s1 = lemma_rotate_step_shape(bv, p0, p1);
    let s2 = lemma_rotate_step_shape(bv, p1, p2);
    let s3 = lemma_rotate_step_shape(bv, p2, p3);
    let s4 = lemma_rotate_step_shape(bv, p3, p4);
    let s = s1 + s2 + s3 + s4;
    assert forall|i: int| 0 <= i < 4 implies (#[trigger] p4.blocks@[i]).col as int
        == p0.blocks@[i].col + s && p4.blocks@[i].y_pos_top == p0.blocks@[i].y_pos_top
        && p4.blocks@[i].color == p0.blocks@[i].color by {
        lemma_delta_cycle(k, r0, i);
        lemma_delta_bounds(k, p0.rotation, i);
        lemma_delta_bounds(k, p1.rotation, i);
        lemma_delta_bounds(k, p2.rotation, i);
        lemma_delta_bounds(k, p3.rotation, i);
        assert(p1.blocks@[i].y_pos_top as int == p0.blocks@[i].y_pos_top + y_delta(
            k,
            p0.rotation,
            i,
        ));
        assert(p2.blocks@[i].y_pos_top as int == p1.blocks@[i].y_pos_top + y_delta(
            k,
            p1.rotation,
            i,
        ));
        assert(p3.blocks@[i].y_pos_top as int == p2.blocks@[i].y_pos_top + y_delta(
            k,
            p2.rotation,
            i,
        ));
        assert(p4.blocks@[i].y_pos_top as int == p3.blocks@[i].y_pos_top + y_delta(
            k,
            p3.rotation,
            i,
        ));
    }
    assert(uniform_shift(p0.blocks@, p4.blocks@, s));
}

/// Column delta table, exec mirror of `col_delta`.
fn rotation_col_delta(kind: ShapeKind, rot: u32, i: usize) -> (d: i32)
    ensures
        d as int == col_delta(kind, rot, i as int),
        -2 <= d <= 2,
{
    match kind {
        ShapeKind::Square => 0,
        ShapeKind::Straight => if rot == 0 || rot == 270 {
            if i == 0 { -1 } else if i == 2 { 1 } else if i == 3 { 2 } else { 0 }
        } else {
            if i == 0 { 1 } else if i == 2 { -1 } else if i == 3 { -2 } else { 0 }
        },
        ShapeKind::T => if rot == 0 {
            if i == 0 { 1 } else if i == 2 { -1 } else if i == 3 { 1 } else { 0 }
        } else if rot == 90 {
            if i == 0 { 1 } else if i == 2 { -1 } else if i == 3 { -1 } else { 0 }
        } else if rot == 180 {
            if i == 0 { -1 } else if i == 2 { 1 } else if i == 3 { -1 } else { 0 }
        } else {
            if i == 0 { -1 } else if i == 2 { 1 } else if i == 3 { 1 } else { 0 }
        },
        ShapeKind::RightL => if rot == 0 {
            if i == 1 { -1 } else if i == 2 { 1 } else if i == 3 { 2 } else { 0 }
        } else if rot == 90 {
            if i == 1 { -1 } else if i == 2 { -1 } else if i == 3 { -2 } else { 0 }
        } else if rot == 180 {
            if i == 1 { 1 } else if i == 2 { -1 } else if i == 3 { -2 } else { 0 }
        } else {
            if i == 1 { 1 } else if i == 2 { 1 } else if i == 3 { 2 } else { 0 }
        },
        ShapeKind::LeftL => if rot == 0 {
            if i == 0 { 1 } else if i == 2 { 1 } else if i == 3 { 2 } else { 0 }
        } else if rot == 90 {
            if i == 0 { 1 } else if i == 2 { -1 } else if i == 3 { -2 } else { 0 }
        } else if rot == 180 {
            if i == 0 { -1 } else if i == 2 { -1 } else if i == 3 { -2 } else { 0 }
        } else {
            if i == 0 { -1 } else if i == 2 { 1 } else if i == 3 { 2 } else { 0 }
        },
        ShapeKind::RightSkew => if rot == 0 {
            if i == 0 { 1 } else if i == 2 { 1 } else { 0 }
        } else {
            if i == 0 { -1 } else if i == 2 { -1 } else { 0 }
        },
        ShapeKind::LeftSkew => if rot == 0 {
            if i == 1 { -1 } else if i == 2 { 2 } else if i == 3 { 1 } else { 0 }
        } else {
            if i == 1 { 1 } else if i == 2 { -2 } else if i == 3 { -1 } else { 0 }
        },
    }
}

/// Vertical delta table, exec mirror of `y_delta`.
fn rotation_y_delta(kind: ShapeKind, rot: u32, i: usize) -> (d: i32)
    ensures
        d as int == y_delta(kind, rot, i as int),
        -60 <= d <= 60,
{
    match kind {
        ShapeKind::Square => 0,
        ShapeKind::Straight => if rot == 0 || rot == 90 {
            if i == 0 { -30 } else if i == 2 { 30 } else if i == 3 { 60 } else { 0 }
        } else {
            if i == 0 { 30 } else if i == 2 { -30 } else if i == 3 { -60 } else { 0 }
        },
        ShapeKind::T => if rot == 0 {
            if i == 0 { -30 } else if i == 2 { 30 } else if i == 3 { 30 } else { 0 }
        } else if rot == 90 {
            if i == 0 { 30 } else if i == 2 { -30 } else if i == 3 { 30 } else { 0 }
        } else if rot == 180 {
            if i == 0 { 30 } else if i == 2 { -30 } else if i == 3 { -30 } else { 0 }
        } else {
            if i == 0 { -30 } else if i == 2 { 30 } else if i == 3 { -30 } else { 0 }
        },
        ShapeKind::RightL => if rot == 0 {
            if i == 1 { 30 } else if i == 2 { 30 } else if i == 3 { 60 } else { 0 }
        } else if rot == 90 {
            if i == 1 { -30 } else if i == 2 { 30 } else if i == 3 { 60 } else { 0 }
        } else if rot == 180 {
            if i == 1 { -30 } else if i == 2 { -30 } else if i == 3 { -60 } else { 0 }
        } else {
            if i == 1 { 30 } else if i == 2 { -30 } else if i == 3 { -60 } else { 0 }
        },
        ShapeKind::LeftL => if rot == 0 {
            if i == 0 { -30 } else if i == 2 { 30 } else if i == 3 { 60 } else { 0 }
        } else if rot == 90 {
            if i == 0 { 30 } else if i == 2 { 30 } else if i == 3 { 60 } else { 0 }
        } else if rot == 180 {
            if i == 0 { 30 } else if i == 2 { -30 } else if i == 3 { -60 } else { 0 }
        } else {
            if i == 0 { -30 } else if i == 2 { -30 } else if i == 3 { -60 } else { 0 }
        },
        ShapeKind::RightSkew => if rot == 0 {
            if i == 0 { -30 } else if i == 2 { 30 } else if i == 3 { 60 } else { 0 }
        } else {
            if i == 0 { 30 } else if i == 2 { -30 } else if i == 3 { -60 } else { 0 }
        },
        ShapeKind::LeftSkew => if rot == 0 {
            if i == 1 { 30 } else if i == 3 { 30 } else { 0 }
        } else {
            if i == 1 { -30 } else if i == 3 { -30 } else { 0 }
        },
    }
}

impl Piece {
    /// Spawns a fresh piece of the given shape above the visible board.
    pub fn spawn(kind: ShapeKind) -> (p: Piece)
        ensures
            p.kind == kind,
            p.rotation == 0,
            p.blocks@ == spawn_blocks(kind),
            piece_wf(p),
    {
        let blocks: Vec<Block> = match kind {
            ShapeKind::Square => {
                let c = Color { r: 245, g: 40, b: 145, a: 204 };
                vec![
                    Block { color: c, col: 4, y_pos_top: -30i32 },
                    Block { color: c, col: 5, y_pos_top: -30i32 },
                    Block { color: c, col: 4, y_pos_top: -60i32 },
                    Block { color: c, col: 5, y_pos_top: -60i32 },
                ]
            },
            ShapeKind::Straight => {
                let c = Color { r: 61, g: 139, b: 232, a: 117 };
                vec![
                    Block { color: c, col: 4, y_pos_top: -30i32 },
                    Block { color: c, col: 4, y_pos_top: -60i32 },
                    Block { color: c, col: 4, y_pos_top: -90i32 },
                    Block { color: c, col: 4, y_pos_top: -120i32 },
                ]
            },
            ShapeKind::T => {
                let c = Color { r: 47, g: 94, b: 68, a: 196 };
                vec![
                    Block { color: c, col: 3, y_pos_top: -30i32 },
                    Block { color: c, col: 4, y_pos_top: -30i32 },
                    Block { color: c, col: 5, y_pos_top: -30i32 },
                    Block { color: c, col: 4, y_pos_top: -60i32 },
                ]
            },
            ShapeKind::RightL => {
                let c = Color { r: 249, g: 134, b: 36, a: 224 };
                vec![
                    Block { color: c, col: 4, y_pos_top: -30i32 },
                    Block { color: c, col: 5, y_pos_top: -30i32 },
                    Block { color: c, col: 4, y_pos_top: -60i32 },
                    Block { color: c, col: 4, y_pos_top: -90i32 },
                ]
            },
            ShapeKind::LeftL => {
                let c = Color { r: 176, g: 99, b: 246, a: 199 };
                vec![
                    Block { color: c, col: 4, y_pos_top: -30i32 },
                    Block { color: c, col: 5, y_pos_top: -30i32 },
                    Block { color: c, col: 5, y_pos_top: -60i32 },
                    Block { color: c, col: 5, y_pos_top: -90i32 },
                ]
            },
            ShapeKind::RightSkew => {
                let c = Color { r: 244, g: 127, b: 241, a: 166 };
                vec![
                    Block { color: c, col: 3, y_pos_top: -30i32 },
                    Block { color: c, col: 4, y_pos_top: -30i32 },
                    Block { color: c, col: 4, y_pos_top: -60i32 },
                    Block { color: c, col: 5, y_pos_top: -60i32 },
                ]
            },
            ShapeKind::LeftSkew => {
                let c = Color { r: 245, g: 96, b: 127, a: 225 };
                vec![
                    Block { color: c, col: 4, y_pos_top: -30i32 },
                    Block { color: c, col: 5, y_pos_top: -30i32 },
                    Block { color: c, col: 3, y_pos_top: -60i32 },
                    Block { color: c, col: 4, y_pos_top: -60i32 },
                ]
            },
        };
        proof {
            assert(blocks@ =~= spawn_blocks(kind));
        }
        Piece { kind, blocks, rotation: 0 }
    }

    /// Moves the piece one column sideways, unless a block is already at the
    /// wall or the adjacent cell is occupied in its row or the row below.
    /// Returns whether the piece moved; on failure nothing changes.
    pub fn shift(&mut self, lines: &Vec<Line>, dir: Direction) -> (moved: bool)
        requires
            lines_wf(lines@),
        ensures
            final(self).kind == old(self).kind,
            final(self).rotation == old(self).rotation,
            moved == (!at_edge(old(self).blocks@, dir) && !terrain_blocked(
                board_view(lines@),
                old(self).blocks@,
                dir,
            )),
            moved ==> final(self).blocks@ == shift_cols(old(self).blocks@, dir_step(dir)),
            !moved ==> *final(self) == *old(self),
            piece_wf(*old(self)) ==> piece_wf(*final(self)),
    {
        let n = self.blocks.len();
        let mut at_boundary = false;
        let mut i: usize = 0;
        while i < n
            invariant
                n == self.blocks@.len(),
                i <= n,
                at_boundary == exists|j: int|
                    0 <= j < i && match dir {
                        Direction::Left => (#[trigger] self.blocks@[j]).col <= 0,
                        Direction::Right => (#[trigger] self.blocks@[j]).col >= 9,
                    },
            decreases n - i,
        {
            let c = self.blocks[i].col;
            let hit = match dir {
                Direction::Left => c <= 0,
                Direction::Right => c >= 9,
            };
            if hit {
                at_boundary = true;
            }
            i += 1;
        }
        if at_boundary {
            return false;
        }
        let ghost bv = board_view(lines@);
        let mut blocked = false;
        let mut i: usize = 0;
        while i < n
            invariant
                lines_wf(lines@),
                bv == board_view(lines@),
                n == self.blocks@.len(),
                i <= n,
                !at_edge(self.blocks@, dir),
                blocked == exists|j: int|
                    0 <= j < i && #[trigger] cell_blocks_move(bv, self.blocks@[j], dir),
            decreases n - i,
        {
            let b = self.blocks[i];
            let mut hit = false;
            let cur_row: usize = if b.y_pos_top < 0 {
                0
            } else {
                (b.y_pos_top / CELL_HEIGHT) as usize
            };
            if cur_row <= 14 {
                let next_row: usize = if cur_row + 1 <= 14 {
                    cur_row + 1
                } else {
                    14
                };
                let t = match dir {
                    Direction::Left => b.col - 1,
                    Direction::Right => b.col + 1,
                };
                if 0 <= t && t <= 9 {
                    if lines[cur_row].blocks[t as usize].is_some() || lines[next_row].blocks[t
                        as usize].is_some() {
                        hit = true;
                    }
                }
            }
            proof {
                assert(bv[row_of(b.y_pos_top as int)] == lines@[row_of(b.y_pos_top as int)].blocks@
                    || row_of(b.y_pos_top as int) > 14);
                assert(hit == cell_blocks_move(bv, b, dir));
            }
            if hit {
                blocked = true;
            }
            i += 1;
        }
        if blocked {
            return false;
        }
        let ghost before = self.blocks@;
        proof {
            assert forall|j: int| 0 <= j < n implies match dir {
                Direction::Left => before[j].col >= 1,
                Direction::Right => before[j].col <= 8,
            } by {
                assert(!(match dir {
                    Direction::Left => (before[j]).col <= 0,
                    Direction::Right => (before[j]).col >= 9,
                }));
            }
        }
        let mut i: usize = 0;
        while i < n
            invariant
                n == before.len(),
                i <= n,
                self.blocks@.len() == n,
                self.kind == old(self).kind,
                self.rotation == old(self).rotation,
                forall|j: int|
                    0 <= j < n ==> match dir {
                        Direction::Left => (#[trigger] before[j]).col >= 1,
                        Direction::Right => (#[trigger] before[j]).col <= 8,
                    },
                forall|j: int| 0 <= j < i ==> self.blocks@[j] == shift_cols(before, dir_step(dir))[j],
                forall|j: int| i <= j < n ==> self.blocks@[j] == before[j],
            decreases n - i,
        {
            let c0 = self.blocks[i].col;
            proof {
                assert(self.blocks@[i as int] == before[i as int]);
                assert(match dir {
                    Direction::Left => before[i as int].col >= 1,
                    Direction::Right => before[i as int].col <= 8,
                });
            }
            match dir {
                Direction::Left => {
                    self.blocks[i].col = c0 - 1;
                },
                Direction::Right => {
                    self.blocks[i].col = c0 + 1;
                },
            }
            i += 1;
        }
        proof {
            assert(self.blocks@ =~= shift_cols(before, dir_step(dir)));
        }
        true
    }

    /// After a rotation, moves the whole piece sideways by the minimum
    /// amount that brings every column back onto the board.  A pure edge
    /// clamp, independent of terrain.
    pub fn enforce_boundaries_after_rotation(&mut self)
        requires
            forall|i: int|
                0 <= i < old(self).blocks@.len() ==> -100 <= (#[trigger] old(self).blocks@[i]).col <= 100,
        ensures
            final(self).kind == old(self).kind,
            final(self).rotation == old(self).rotation,
            final(self).blocks@ == shift_cols(old(self).blocks@, boundary_fix(old(self).blocks@)),
    {
        let ghost before = self.blocks@;
        let n = self.blocks.len();
        let mut piece_shift: i32 = 0;
        let mut i: usize = 0;
        while i < n
            invariant
                n == self.blocks@.len(),
                before == self.blocks@,
                i <= n,
                forall|j: int|
                    0 <= j < n ==> -100 <= (#[trigger] self.blocks@[j]).col <= 100,
                piece_shift as int == boundary_fix_fold(before, i as int),
                -109 <= piece_shift <= 100,
            decreases n - i,
        {
            let b = self.blocks[i];
            if b.col < 0 {
                let block_shift = -b.col;
                if block_shift > piece_shift {
                    piece_shift = block_shift;
                }
            }
            if b.col > 9 {
                let block_shift = -(b.col - 9);
                if block_shift < piece_shift {
                    piece_shift = block_shift;
                }
            }
            i += 1;
        }
        if piece_shift != 0 {
            let mut i: usize = 0;
            while i < n
                invariant
                    n == before.len(),
                    i <= n,
                    self.blocks@.len() == n,
                    self.kind == old(self).kind,
                    self.rotation == old(self).rotation,
                    -109 <= piece_shift <= 100,
                    piece_shift as int == boundary_fix(before),
                    forall|j: int|
                        0 <= j < n ==> -100 <= (#[trigger] before[j]).col <= 100,
                    forall|j: int|
                        0 <= j < i ==> self.blocks@[j] == shift_cols(
                            before,
                            piece_shift as int,
                        )[j],
                    forall|j: int| i <= j < n ==> self.blocks@[j] == before[j],
                decreases n - i,
            {
                let c0 = self.blocks[i].col;
                proof {
                    assert(self.blocks@[i as int] == before[i as int]);
                }
                self.blocks[i].col = c0 + piece_shift;
                i += 1;
            }
        }
        proof {
            assert(self.blocks@ =~= shift_cols(before, boundary_fix(before)));
        }
    }

    /// The magnitudes of the edge corrections a piece would need to the
    /// right and to the left, as the pair (right shift, left shift).
    pub fn calculate_boundary_shifts(&self) -> (r: (i32, i32))
        requires
            forall|i: int|
                0 <= i < self.blocks@.len() ==> -100 <= (#[trigger] self.blocks@[i]).col <= 100,
        ensures
            r.0 as int == boundary_shifts(self.blocks@).0,
            r.1 as int == boundary_shifts(self.blocks@).1,
            r.0 >= 0,
            r.1 >= 0,
    {
        let n = self.blocks.len();
        let mut right_shift: i32 = 0;
        let mut left_shift: i32 = 0;
        let mut i: usize = 0;
        while i < n
            invariant
                n == self.blocks@.len(),
                i <= n,
                forall|j: int|
                    0 <= j < n ==> -100 <= (#[trigger] self.blocks@[j]).col <= 100,
                right_shift as int == boundary_shifts_fold(self.blocks@, i as int).0,
                left_shift as int == boundary_shifts_fold(self.blocks@, i as int).1,
                0 <= right_shift <= 100,
                0 <= left_shift <= 100,
            decreases n - i,
        {
            let b = self.blocks[i];
            if b.col < 0 {
                let block_shift = -b.col;
                if block_shift > right_shift {
                    right_shift = block_shift;
                }
            }
            if b.col > 9 {
                let block_shift = b.col - 9;
                if block_shift > left_shift {
                    left_shift = block_shift;
                }
            }
            i += 1;
        }
        (right_shift, left_shift)
    }

    /// The rightmost and leftmost occupied columns, as the pair
    /// (rightmost, leftmost), folded from the initial pair (0, 9).
    pub fn calculate_edge_cols(&self) -> (r: (i32, i32))
        requires
            forall|i: int|
                0 <= i < self.blocks@.len() ==> -100 <= (#[trigger] self.blocks@[i]).col <= 100,
        ensures
            r.0 as int == edge_cols(self.blocks@).0,
            r.1 as int == edge_cols(self.blocks@).1,
            -100 <= r.1 <= 9,
            0 <= r.0 <= 100,
    {
        let n = self.blocks.len();
        let mut rightmost_col: i32 = 0;
        let mut leftmost_col: i32 = 9;
        let mut i: usize = 0;
        while i < n
            invariant
                n == self.blocks@.len(),
                i <= n,
                forall|j: int|
                    0 <= j < n ==> -100 <= (#[trigger] self.blocks@[j]).col <= 100,
                rightmost_col as int == edge_cols_fold(self.blocks@, i as int).0,
                leftmost_col as int == edge_cols_fold(self.blocks@, i as int).1,
                0 <= rightmost_col <= 100,
                -100 <= leftmost_col <= 9,
            decreases n - i,
        {
            let b = self.blocks[i];
            if b.col > rightmost_col {
                rightmost_col = b.col;
            }
            if b.col < leftmost_col {
                leftmost_col = b.col;
            }
            i += 1;
        }
        (rightmost_col, leftmost_col)
    }

    /// Applies the rotation delta table for the current state, then, for the
    /// shapes that clamp themselves, the board-edge correction, and advances
    /// the rotation state.
    pub fn do_rotate(&mut self)
        requires
            piece_wf(*old(self)),
        ensures
            final(self).kind == old(self).kind,
            final(self).rotation == next_rotation(old(self).kind, old(self).rotation),
            final(self).blocks@ == do_rotate_blocks(
                old(self).blocks@,
                old(self).kind,
                old(self).rotation,
            ),
            final(self).blocks@.len() == 4,
            forall|i: int|
                0 <= i < 4 ==> {
                    let b = #[trigger] final(self).blocks@[i];
                    -4 <= b.col <= 13 && -Y_LIMIT <= b.y_pos_top <= Y_LIMIT
                },
    {
        let ghost before = self.blocks@;
        let kind = self.kind;
        let rot = self.rotation;
        let mut i: usize = 0;
        while i < 4
            invariant
                piece_wf(*old(self)),
                before == old(self).blocks@,
                self.kind == old(self).kind,
                self.rotation == old(self).rotation,
                kind == self.kind,
                rot == self.rotation,
                self.blocks@.len() == 4,
                i <= 4,
                forall|j: int| 0 <= j < i ==> self.blocks@[j] == delta_block(before[j], kind, rot, j),
                forall|j: int| i <= j < 4 ==> self.blocks@[j] == before[j],
            decreases 4 - i,
        {
            let dc = rotation_col_delta(kind, rot, i);
            let dy = rotation_y_delta(kind, rot, i);
            let b = self.blocks[i];
            proof {
                assert(self.blocks@[i as int] == before[i as int]);
                assert(0 <= old(self).blocks@[i as int].col <= 9);
            }
            self.blocks[i] = Block { color: b.color, col: b.col + dc, y_pos_top: add_y(b.y_pos_top, dy) };
            i += 1;
        }
        let ghost deltaed = delta_blocks(before, kind, rot);
        proof {
            assert(self.blocks@ =~= deltaed);
            assert forall|j: int| 0 <= j < 4 implies -2 <= (#[trigger] deltaed[j]).col <= 11
                && -Y_LIMIT <= deltaed[j].y_pos_top <= Y_LIMIT by {
                assert(0 <= before[j].col <= 9);
                assert(deltaed[j] == delta_block(before[j], kind, rot, j));
            }
        }
        if kind != ShapeKind::Square && kind != ShapeKind::Straight {
            self.enforce_boundaries_after_rotation();
            proof {
                lemma_boundary_fix_small(deltaed, deltaed.len() as int);
            }
        }
        self.rotation = match kind {
            ShapeKind::Square => rot,
            ShapeKind::RightSkew | ShapeKind::LeftSkew => if rot == 0 {
                90
            } else {
                0
            },
            _ => if rot == 270 {
                0
            } else {
                rot + 90
            },
        };
    }

    /// The terrain-driven shift magnitudes of the kick rule, as (right,
    /// left): per row, collisions left of (or at, for even widths) the
    /// center demand a right shift and collisions right of it a left shift;
    /// the result takes the maxima over all rows.  Fails on a collision
    /// exactly at the center of an odd-width piece.
    pub fn calculate_collision_shifts(&self, lines: &Vec<Line>) -> (res: Result<
        (i32, i32),
        GameError,
    >)
        requires
            lines_wf(lines@),
            self.blocks@.len() == 4,
            forall|i: int|
                0 <= i < 4 ==> {
                    let b = #[trigger] self.blocks@[i];
                    -100 <= b.col <= 100 && -Y_LIMIT <= b.y_pos_top <= Y_LIMIT
                },
        ensures
            (res is Err) == center_fatal(board_view(lines@), self.blocks@),
            res is Err ==> res == Result::<(i32, i32), GameError>::Err(
                GameError::RotationCenterCollision,
            ),
            res matches Ok(s) ==> s.0 as int == collision_shifts(
                board_view(lines@),
                self.blocks@,
            ).0 && s.1 as int == collision_shifts(board_view(lines@), self.blocks@).1 && s.0 >= 0
                && s.1 >= 0,
    {
        let ghost bv = board_view(lines@);
        let ghost blocks = self.blocks@;
        let (rightmost_col, leftmost_col) = self.calculate_edge_cols();
        proof {
            lemma_edge_cols_span(blocks, 4);
        }
        let width = rightmost_col - leftmost_col + 1;
        let even = width % 2 == 0;
        let center = if !even {
            leftmost_col + width / 2
        } else {
            leftmost_col + width / 2 - 1
        };
        proof {
            assert(even == piece_width_even(blocks));
            assert(center as int == center_col(blocks));
        }
        let mut right_shift: i32 = 0;
        let mut left_shift: i32 = 0;
        let mut r: usize = 0;
        while r < 15
            invariant
                lines_wf(lines@),
                bv == board_view(lines@),
                blocks == self.blocks@,
                blocks.len() == 4,
                forall|i: int|
                    0 <= i < 4 ==> {
                        let b = #[trigger] blocks[i];
                        -100 <= b.col <= 100 && -Y_LIMIT <= b.y_pos_top <= Y_LIMIT
                    },
                even == piece_width_even(blocks),
                center as int == center_col(blocks),
                r <= 15,
                0 <= right_shift <= 4,
                0 <= left_shift <= 4,
                right_shift as int == collision_shifts_upto(bv, blocks, r as int).0,
                left_shift as int == collision_shifts_upto(bv, blocks, r as int).1,
                !even ==> forall|rr: int, j: int|
                    0 <= rr < r && 0 <= j < 4 ==> !(#[trigger] block_hits_row(bv, blocks[j], rr)
                        && blocks[j].col as int == center as int),
            decreases 15 - r,
        {
            let mut right_shift_row: i32 = 0;
            let mut left_shift_row: i32 = 0;
            let mut i: usize = 0;
            while i < 4
                invariant
                    lines_wf(lines@),
                    bv == board_view(lines@),
                    blocks == self.blocks@,
                    blocks.len() == 4,
                    forall|k: int|
                        0 <= k < 4 ==> {
                            let b = #[trigger] blocks[k];
                            -100 <= b.col <= 100 && -Y_LIMIT <= b.y_pos_top <= Y_LIMIT
                        },
                    even == piece_width_even(blocks),
                    center as int == center_col(blocks),
                    r < 15,
                    i <= 4,
                    0 <= right_shift_row <= i as i32,
                    0 <= left_shift_row <= i as i32,
                    even ==> right_shift_row as int == row_hits_le(
                        bv,
                        blocks,
                        r as int,
                        center as int,
                        i as int,
                    ),
                    even ==> left_shift_row as int == row_hits_gt(
                        bv,
                        blocks,
                        r as int,
                        center as int,
                        i as int,
                    ),
                    !even ==> right_shift_row as int == (if (exists|j: int|
                        0 <= j < i && #[trigger] block_hits_row(bv, blocks[j], r as int)
                            && (blocks[j].col as int) < (center as int)) {
                        1int
                    } else {
                        0int
                    }),
                    !even ==> left_shift_row as int == (if (exists|j: int|
                        0 <= j < i && #[trigger] block_hits_row(bv, blocks[j], r as int)
                            && (blocks[j].col as int) > (center as int)) {
                        1int
                    } else {
                        0int
                    }),
                    !even ==> forall|j: int|
                        0 <= j < i ==> !(#[trigger] block_hits_row(bv, blocks[j], r as int)
                            && blocks[j].col as int == center as int),
                decreases 4 - i,
            {
                let b = self.blocks[i];
                let mut hit = false;
                if b.y_pos_top + CELL_HEIGHT > (r as i32) * CELL_HEIGHT && b.y_pos_top < (r as i32)
                    * CELL_HEIGHT {
                    if 0 <= b.col && b.col <= 9 {
                        if lines[r].blocks[b.col as usize].is_some() {
                            hit = true;
                        }
                    }
                }
                proof {
                    assert(hit == block_hits_row(bv, b, r as int));
                }
                if hit {
                    if even {
                        if b.col <= center {
                            right_shift_row = right_shift_row + 1;
                        } else {
                            left_shift_row = left_shift_row + 1;
                        }
                    } else {
                        if b.col < center {
                            right_shift_row = 1;
                        } else if b.col > center {
                            left_shift_row = 1;
                        } else {
                            proof {
                                assert(center_fatal(bv, blocks));
                            }
                            return Err(GameError::RotationCenterCollision);
                        }
                    }
                }
                i += 1;
            }
            proof {
                assert(right_shift_row as int == row_shift_right(bv, blocks, r as int));
                assert(left_shift_row as int == row_shift_left(bv, blocks, r as int));
            }
            if right_shift_row > right_shift {
                right_shift = right_shift_row;
            }
            if left_shift_row > left_shift {
                left_shift = left_shift_row;
            }
            r += 1;
        }
        proof {
            if center_fatal(bv, blocks) {
                let (rr, j) = choose|rr: int, j: int|
                    0 <= rr < 15 && 0 <= j < blocks.len() && #[trigger] block_hits_row(
                        bv,
                        blocks[j],
                        rr,
                    ) && blocks[j].col == center_col(blocks);
                assert(false);
            }
        }
        Ok((right_shift, left_shift))
    }

    /// The two-phase rotation: simulate the delta table plus the required
    /// kick on a disposable shadow, then commit the shadow's proven state.
    /// Returns whether the piece rotated; a rejected rotation (contradictory
    /// shift demands, or a blocked replay step) leaves the piece unchanged.
    /// Fails on a locked block exactly at the center column of the odd-width
    /// shadow.
    pub fn rotate(&mut self, lines: &Vec<Line>) -> (res: Result<bool, GameError>)
        requires
            lines_wf(lines@),
            piece_wf(*old(self)),
        ensures
            final(self).kind == old(self).kind,
            (res is Err) == rotate_fatal(board_view(lines@), *old(self)),
            res is Err ==> *final(self) == *old(self) && res == Result::<bool, GameError>::Err(
                GameError::RotationCenterCollision,
            ),
            res matches Ok(moved) ==> moved == (rotate_commit(
                board_view(lines@),
                *old(self),
            ) is Some),
            res == Result::<bool, GameError>::Ok(false) ==> *final(self) == *old(self),
            res == Result::<bool, GameError>::Ok(true) ==> final(self).blocks@ == rotate_commit(
                board_view(lines@),
                *old(self),
            ).unwrap() && final(self).rotation == next_rotation(old(self).kind, old(self).rotation),
            piece_wf(*final(self)),
    {
        let ghost bv = board_view(lines@);
        let mut shadow = Piece {
            kind: self.kind,
            blocks: copy_blocks(&self.blocks),
            rotation: self.rotation,
        };
        shadow.do_rotate();
        let ghost sb = shadow.blocks@;
        proof {
            assert(sb == rotate_shadow(*old(self)));
        }
        let (boundary_right, boundary_left) = shadow.calculate_boundary_shifts();
        let (collision_right, collision_left) = match shadow.calculate_collision_shifts(lines) {
            Ok(s) => s,
            Err(e) => {
                return Err(e);
            },
        };
        let shift_right = if boundary_right > collision_right {
            boundary_right
        } else {
            collision_right
        };
        let shift_left = if boundary_left > collision_left {
            boundary_left
        } else {
            collision_left
        };
        proof {
            assert(shift_right as int == rotate_total_shifts(bv, *old(self)).0);
            assert(shift_left as int == rotate_total_shifts(bv, *old(self)).1);
        }
        if shift_right != 0 && shift_left != 0 {
            return Ok(false);
        }
        let dir = if shift_right > 0 {
            Direction::Right
        } else {
            Direction::Left
        };
        let total = if shift_right > 0 {
            shift_right
        } else {
            shift_left
        };
        proof {
            assert(rotate_commit(bv, *old(self)) == replay(bv, sb, dir, total as int));
        }
        let mut remaining = total;
        let mut ok = true;
        while ok && remaining > 0
            invariant
                lines_wf(lines@),
                bv == board_view(lines@),
                0 <= remaining <= total,
                shadow.kind == old(self).kind,
                shadow.rotation == next_rotation(old(self).kind, old(self).rotation),
                shadow.blocks@.len() == 4,
                ok ==> replay(bv, sb, dir, total as int) == replay(
                    bv,
                    shadow.blocks@,
                    dir,
                    remaining as int,
                ),
                ok ==> forall|i: int|
                    0 <= i < 4 ==> (#[trigger] shadow.blocks@[i]).y_pos_top == sb[i].y_pos_top,
                !ok ==> replay(bv, sb, dir, total as int) is None,
            decreases remaining, (if ok { 1int } else { 0int }),
        {
            let ghost prev = shadow.blocks@;
            if shadow.shift(lines, dir) {
                proof {
                    assert(replay(bv, prev, dir, remaining as int) == replay(
                        bv,
                        shadow.blocks@,
                        dir,
                        remaining as int - 1,
                    ));
                }
                remaining -= 1;
            } else {
                proof {
                    assert(replay(bv, prev, dir, remaining as int) is None);
                }
                ok = false;
            }
        }
        if !ok {
            return Ok(false);
        }
        proof {
            assert(replay(bv, sb, dir, total as int) == Some(shadow.blocks@));
            lemma_replay_props(bv, sb, dir, total as int);
            lemma_boundary_shifts_cols(sb, 4);
            assert forall|i: int| 0 <= i < 4 implies 0 <= (#[trigger] shadow.blocks@[i]).col <= 9 by {
                assert(shadow.blocks@[i].col as int == sb[i].col + total * dir_step(dir));
                assert(-boundary_shifts(sb).0 <= sb[i].col as int <= 9 + boundary_shifts(sb).1);
                if total == 0 {
                    assert(boundary_shifts(sb).0 == 0 && boundary_shifts(sb).1 == 0);
                } else if dir is Right {
                    assert(total as int >= boundary_shifts(sb).0);
                } else {
                    assert(total as int >= boundary_shifts(sb).1);
                    assert(boundary_shifts(sb).0 == 0);
                }
            }
            assert(rotation_valid(old(self).kind, next_rotation(old(self).kind, old(self).rotation)));
        }
        self.blocks = shadow.blocks;
        self.rotation = shadow.rotation;
        Ok(true)
    }
}

} // verus!
