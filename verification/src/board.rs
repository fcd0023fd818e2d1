//! The board: a fixed column of 15 rows, each holding up to 10 optional
//! locked blocks.  Provides row creation, collision detection against locked
//! cells, locking a piece's blocks into rows, and row clearing with
//! compaction.

use vstd::prelude::*;
use crate::block::{Block, GameError, CELL_HEIGHT};

verus! {

/// One horizontal slot of the board.  Slot `c` of `blocks` holds the locked
/// block (if any) occupying column `c`.
#[derive(Clone, Debug)]
pub struct Line {
    pub row: u32,
    pub blocks: Vec<Option<Block>>,
}

/// The board as a mathematical value: 15 rows of 10 optional blocks.
pub open spec fn board_view(lines: Seq<Line>) -> Seq<Seq<Option<Block>>> {
    lines.map_values(|l: Line| l.blocks@)
}

/// Well-formedness of the board: exactly 15 rows, each carrying its own
/// index, 10 cells wide, and every locked block sits in the cell of its own
/// column at its row's canonical vertical position.
pub open spec fn lines_wf(lines: Seq<Line>) -> bool {
    &&& lines.len() == 15
    &&& forall|r: int| 0 <= r < 15 ==> (#[trigger] lines[r]).row as int == r
    &&& forall|r: int| 0 <= r < 15 ==> (#[trigger] lines[r]).blocks@.len() == 10
    &&& forall|r: int, c: int|
        0 <= r < 15 && 0 <= c < 10 ==> match #[trigger] lines[r].blocks@[c] {
            Some(b) => b.col == c && b.y_pos_top as int == r * (CELL_HEIGHT as int),
            None => true,
        }
}

/// A falling block overlaps row `r` when its vertical span strictly
/// straddles the row's canonical top edge.
pub open spec fn overlaps_row(b: Block, r: int) -> bool {
    &&& b.y_pos_top + CELL_HEIGHT > r * (CELL_HEIGHT as int)
    &&& (b.y_pos_top as int) < r * (CELL_HEIGHT as int)
}

/// Whether falling block `b` both overlaps row `r` and shares its column
/// with a locked block of that row.
pub open spec fn block_hits_row(bv: Seq<Seq<Option<Block>>>, b: Block, r: int) -> bool {
    overlaps_row(b, r) && 0 <= b.col <= 9 && bv[r][b.col as int] is Some
}

/// Whether any of the given falling blocks shares a column with a locked
/// block of a row it overlaps.
pub open spec fn board_collides(bv: Seq<Seq<Option<Block>>>, blocks: Seq<Block>) -> bool {
    exists|r: int, i: int|
        0 <= r < 15 && 0 <= i < blocks.len() && #[trigger] block_hits_row(bv, blocks[i], r)
}

/// A row with all 10 cells occupied.
pub open spec fn row_full(row: Seq<Option<Block>>) -> bool {
    forall|c: int| 0 <= c < 10 ==> (#[trigger] row[c]) is Some
}

pub open spec fn empty_row() -> Seq<Option<Block>> {
    Seq::new(10, |c: int| None::<Block>)
}

/// Builds the 15 empty rows the engine starts from.
pub fn generate_lines() -> (r: Vec<Line>)
    ensures
        lines_wf(r@),
        forall|i: int, c: int| 0 <= i < 15 && 0 <= c < 10 ==> board_view(r@)[i][c] is None,
{
    let mut lines: Vec<Line> = Vec::new();
    let mut i: usize = 0;
    while i < 15
        invariant
            i <= 15,
            lines@.len() == i,
            forall|r: int| 0 <= r < i ==> (#[trigger] lines@[r]).row as int == r,
            forall|r: int| 0 <= r < i ==> (#[trigger] lines@[r]).blocks@.len() == 10,
            forall|r: int, c: int|
                0 <= r < i && 0 <= c < 10 ==> (#[trigger] lines@[r].blocks@[c]) is None,
        decreases 15 - i,
    {
        let mut cells: Vec<Option<Block>> = Vec::new();
        let mut c: usize = 0;
        while c < 10
            invariant
                c <= 10,
                cells@.len() == c,
                forall|k: int| 0 <= k < c ==> (#[trigger] cells@[k]) is None,
            decreases 10 - c,
        {
            cells.push(None);
            c += 1;
        }
        lines.push(Line { row: i as u32, blocks: cells });
        i += 1;
    }
    lines
}

/// One cell after a one-row downward move: its block's vertical position
/// advances by one cell-height unit.
pub open spec fn bump_cell(c: Option<Block>) -> Option<Block> {
    match c {
        Some(b) => Some(
            Block { color: b.color, col: b.col, y_pos_top: (b.y_pos_top + CELL_HEIGHT) as i32 },
        ),
        None => None,
    }
}

pub open spec fn bump_row(row: Seq<Option<Block>>) -> Seq<Option<Block>> {
    row.map_values(|c: Option<Block>| bump_cell(c))
}

/// The board after compacting away row `d`: every row at or below `d` takes
/// the contents of the row above it, moved down one unit, and a fresh empty
/// row appears at the top.
pub open spec fn dropped_view(bv: Seq<Seq<Option<Block>>>, d: int) -> Seq<Seq<Option<Block>>> {
    Seq::new(
        15,
        |r: int|
            if r == 0 {
                empty_row()
            } else if r <= d {
                bump_row(bv[r - 1])
            } else {
                bv[r]
            },
    )
}

/// Compacts away row `deleted_row`: rows above it fall one unit, row 0
/// becomes empty.
pub fn drop_line(lines: &mut Vec<Line>, deleted_row: usize)
    requires
        lines_wf(old(lines)@),
        deleted_row < 15,
    ensures
        lines_wf(final(lines)@),
        board_view(final(lines)@) == dropped_view(board_view(old(lines)@), deleted_row as int),
{
    let ghost orig = lines@;
    let mut r: usize = 14;
    while r >= 1
        invariant
            lines_wf(orig),
            deleted_row < 15,
            1 <= r + 1 <= 15,
            lines@.len() == 15,
            forall|j: int| 0 <= j <= r ==> #[trigger] lines@[j] == orig[j],
            forall|j: int|
                r < j < 15 ==> (#[trigger] lines@[j]).row as int == j
                    && lines@[j].blocks@ == (if j <= deleted_row {
                        bump_row(orig[j - 1].blocks@)
                    } else {
                        orig[j].blocks@
                    }),
        decreases r,
    {
        if r <= deleted_row {
            let mut cells: Vec<Option<Block>> = Vec::new();
            let mut c: usize = 0;
            while c < 10
                invariant
                    lines_wf(orig),
                    1 <= r < 15,
                    lines@.len() == 15,
                    lines@[r - 1] == orig[r - 1],
                    c <= 10,
                    cells@.len() == c,
                    forall|k: int|
                        0 <= k < c ==> #[trigger] cells@[k] == bump_cell(orig[r - 1].blocks@[k]),
                decreases 10 - c,
            {
                let cell = match lines[r - 1].blocks[c] {
                    Some(b) => Some(
                        Block {
                            color: b.color,
                            col: b.col,
                            y_pos_top: b.y_pos_top + CELL_HEIGHT,
                        },
                    ),
                    None => None,
                };
                cells.push(cell);
                c += 1;
            }
            proof {
                assert(cells@ =~= bump_row(orig[r - 1].blocks@));
            }
            lines[r] = Line { row: r as u32, blocks: cells };
        }
        r -= 1;
    }
    let mut top_cells: Vec<Option<Block>> = Vec::new();
    let mut c: usize = 0;
    while c < 10
        invariant
            c <= 10,
            top_cells@.len() == c,
            forall|k: int| 0 <= k < c ==> (#[trigger] top_cells@[k]) is None,
        decreases 10 - c,
    {
        top_cells.push(None);
        c += 1;
    }
    proof {
        assert(top_cells@ =~= empty_row());
    }
    lines[0] = Line { row: 0u32, blocks: top_cells };
    proof {
        assert(board_view(lines@) =~~= dropped_view(board_view(orig), deleted_row as int));
        assert forall|rr: int, cc: int| 0 <= rr < 15 && 0 <= cc < 10 implies match #[trigger] lines@[rr].blocks@[cc] {
            Some(b) => b.col == cc && b.y_pos_top as int == rr * (CELL_HEIGHT as int),
            None => true,
        } by {
            if 1 <= rr <= deleted_row as int {
                assert(lines@[rr].blocks@[cc] == bump_cell(orig[rr - 1].blocks@[cc]));
            }
        }
    }
}

/// The original indices of the full rows strictly below row `r`, in
/// ascending order.
pub open spec fn full_rows_below(bv: Seq<Seq<Option<Block>>>, r: int) -> Seq<int>
    decreases r,
{
    if r <= 0 {
        Seq::empty()
    } else {
        full_rows_below(bv, r - 1) + (if row_full(bv[r - 1]) {
            seq![r - 1]
        } else {
            Seq::<int>::empty()
        })
    }
}

/// All full rows of the board, ascending.
pub open spec fn full_rows(bv: Seq<Seq<Option<Block>>>) -> Seq<int> {
    full_rows_below(bv, 15)
}

/// The board after compacting away the listed rows, first to last.
pub open spec fn apply_drops(bv: Seq<Seq<Option<Block>>>, rows: Seq<int>) -> Seq<
    Seq<Option<Block>>,
>
    decreases rows.len(),
{
    if rows.len() == 0 {
        bv
    } else {
        dropped_view(apply_drops(bv, rows.drop_last()), rows.last())
    }
}

/// The board after a full scan-and-compact pass.
pub open spec fn cleared_view(bv: Seq<Seq<Option<Block>>>) -> Seq<Seq<Option<Block>>> {
    apply_drops(bv, full_rows(bv))
}

pub proof fn lemma_no_full_rows_below(bv: Seq<Seq<Option<Block>>>, r: int)
    requires
        forall|j: int| 0 <= j < 15 ==> !row_full(#[trigger] bv[j]),
        r <= 15,
    ensures
        full_rows_below(bv, r) == Seq::<int>::empty(),
    decreases r,
{
    if r > 0 {
        lemma_no_full_rows_below(bv, r - 1);
        assert(full_rows_below(bv, r) =~= Seq::<int>::empty());
    }
}

/// Scans all 15 rows, then compacts away each full one in ascending order.
/// When no row is full, this is a no-op.
pub fn clear_full_rows(lines: &mut Vec<Line>)
    requires
        lines_wf(old(lines)@),
    ensures
        lines_wf(final(lines)@),
        board_view(final(lines)@) == cleared_view(board_view(old(lines)@)),
        (forall|j: int| 0 <= j < 15 ==> !row_full(#[trigger] board_view(old(lines)@)[j]))
            ==> board_view(final(lines)@) == board_view(old(lines)@),
{
    let ghost bv0 = board_view(lines@);
    let mut deleted_rows: Vec<usize> = Vec::new();
    let mut r: usize = 0;
    while r < 15
        invariant
            lines_wf(lines@),
            bv0 == board_view(lines@),
            r <= 15,
            deleted_rows@.map_values(|u: usize| u as int) == full_rows_below(bv0, r as int),
            forall|k: int| 0 <= k < deleted_rows@.len() ==> #[trigger] deleted_rows@[k] < 15,
        decreases 15 - r,
    {
        let mut full = true;
        let mut c: usize = 0;
        while c < 10
            invariant
                lines_wf(lines@),
                r < 15,
                c <= 10,
                full == (forall|k: int| 0 <= k < c ==> (#[trigger] lines@[r as int].blocks@[k]) is Some),
            decreases 10 - c,
        {
            if lines[r].blocks[c].is_none() {
                full = false;
            }
            c += 1;
        }
        let ghost prev = deleted_rows@;
        if full {
            deleted_rows.push(r);
        }
        proof {
            assert(deleted_rows@.map_values(|u: usize| u as int) =~= full_rows_below(
                bv0,
                r as int + 1,
            ));
        }
        r += 1;
    }
    let ghost todo = deleted_rows@.map_values(|u: usize| u as int);
    proof {
        assert(todo == full_rows(bv0));
    }
    let mut k: usize = 0;
    while k < deleted_rows.len()
        invariant
            lines_wf(lines@),
            k <= deleted_rows@.len(),
            todo == deleted_rows@.map_values(|u: usize| u as int),
            forall|j: int| 0 <= j < deleted_rows@.len() ==> #[trigger] deleted_rows@[j] < 15,
            board_view(lines@) == apply_drops(bv0, todo.take(k as int)),
        decreases deleted_rows@.len() - k,
    {
        let d = deleted_rows[k];
        drop_line(lines, d);
        proof {
            assert(todo.take(k as int + 1).drop_last() =~= todo.take(k as int));
            assert(todo.take(k as int + 1).last() == d as int);
        }
        k += 1;
    }
    proof {
        assert(todo.take(todo.len() as int) =~= todo);
        if forall|j: int| 0 <= j < 15 ==> !row_full(#[trigger] bv0[j]) {
            lemma_no_full_rows_below(bv0, 15);
        }
    }
}

/// Whether every block can be locked: its target row, `floor(y / cell
/// height)`, and its column are both on the board.
pub open spec fn lock_in_range(blocks: Seq<Block>) -> bool {
    forall|i: int|
        0 <= i < blocks.len() ==> {
            let b = #[trigger] blocks[i];
            0 <= b.y_pos_top as int / (CELL_HEIGHT as int) <= 14 && 0 <= b.col <= 9
        }
}

/// The board after storing the first `n` blocks, each snapped to its target
/// row's canonical vertical position.
pub open spec fn lock_cells_upto(
    bv: Seq<Seq<Option<Block>>>,
    blocks: Seq<Block>,
    n: int,
) -> Seq<Seq<Option<Block>>>
    decreases n,
{
    if n <= 0 {
        bv
    } else {
        let prev = lock_cells_upto(bv, blocks, n - 1);
        let b = blocks[n - 1];
        let r = b.y_pos_top as int / (CELL_HEIGHT as int);
        let snapped = Block {
            color: b.color,
            col: b.col,
            y_pos_top: (r * (CELL_HEIGHT as int)) as i32,
        };
        prev.update(r, prev[r].update(b.col as int, Some(snapped)))
    }
}

pub open spec fn lock_cells(bv: Seq<Seq<Option<Block>>>, blocks: Seq<Block>) -> Seq<
    Seq<Option<Block>>,
> {
    lock_cells_upto(bv, blocks, blocks.len() as int)
}

/// Stores a copy of each falling block into the row it has reached, snapped
/// to that row's canonical vertical position.  Fails, mutating nothing, when
/// any block's target cell is off the board.
pub fn lock_piece(lines: &mut Vec<Line>, blocks: &Vec<Block>) -> (res: Result<(), GameError>)
    requires
        lines_wf(old(lines)@),
    ensures
        res is Ok <==> lock_in_range(blocks@),
        res is Ok ==> board_view(final(lines)@) == lock_cells(board_view(old(lines)@), blocks@),
        res is Ok ==> lines_wf(final(lines)@),
        res is Err ==> *final(lines) == *old(lines) && res == Result::<(), GameError>::Err(
            GameError::LockOutOfRange,
        ),
{
    let mut i: usize = 0;
    while i < blocks.len()
        invariant
            i <= blocks@.len(),
            forall|j: int|
                0 <= j < i ==> {
                    let b = #[trigger] blocks@[j];
                    0 <= b.y_pos_top as int / (CELL_HEIGHT as int) <= 14 && 0 <= b.col <= 9
                },
        decreases blocks@.len() - i,
    {
        let b = blocks[i];
        if b.y_pos_top < 0 || b.y_pos_top >= 15 * CELL_HEIGHT || b.col < 0 || b.col > 9 {
            return Err(GameError::LockOutOfRange);
        }
        i += 1;
    }
    let ghost bv0 = board_view(lines@);
    let mut i: usize = 0;
    while i < blocks.len()
        invariant
            lines_wf(lines@),
            lock_in_range(blocks@),
            i <= blocks@.len(),
            board_view(lines@) == lock_cells_upto(bv0, blocks@, i as int),
        decreases blocks@.len() - i,
    {
        let b = blocks[i];
        let r = (b.y_pos_top / CELL_HEIGHT) as usize;
        let c = b.col as usize;
        lines[r].blocks[c] = Some(
            Block { color: b.color, col: b.col, y_pos_top: (r as i32) * CELL_HEIGHT },
        );
        proof {
            assert(board_view(lines@) =~~= lock_cells_upto(bv0, blocks@, i as int + 1));
        }
        i += 1;
    }
    Ok(())
}

} // verus!
