use tetris_core::block::{Block, Color, GameError};
use tetris_core::board::{clear_full_rows, drop_line, generate_lines, lock_piece};
use tetris_core::filter_none::filter_none;

fn tag() -> Color {
    Color { r: 9, g: 8, b: 7, a: 6 }
}

fn block(col: i32, y_pos_top: i32) -> Block {
    Block { color: tag(), col, y_pos_top }
}

#[test]
fn generate_lines_builds_fifteen_empty_indexed_rows() {
    let lines = generate_lines();
    assert_eq!(lines.len(), 15);
    for (i, line) in lines.iter().enumerate() {
        assert_eq!(line.row, i as u32);
        assert_eq!(line.blocks.len(), 10);
        assert!(line.blocks.iter().all(|c| c.is_none()));
    }
}

#[test]
fn lock_snaps_to_canonical_row_position() {
    let mut lines = generate_lines();
    lock_piece(&mut lines, &vec![block(2, 95)]).unwrap();
    let stored = lines[3].blocks[2].unwrap();
    assert_eq!(stored.y_pos_top, 90);
    assert_eq!(stored.y_pos_top % 30, 0);
    assert_eq!(stored.col, 2);
}

#[test]
fn lock_rejects_targets_off_the_board() {
    let mut lines = generate_lines();
    assert_eq!(
        lock_piece(&mut lines, &vec![block(0, -10)]),
        Err(GameError::LockOutOfRange)
    );
    assert_eq!(
        lock_piece(&mut lines, &vec![block(0, 450)]),
        Err(GameError::LockOutOfRange)
    );
    assert_eq!(
        lock_piece(&mut lines, &vec![block(10, 0)]),
        Err(GameError::LockOutOfRange)
    );
    // Nothing was stored by the failed calls.
    assert!(lines.iter().all(|l| l.blocks.iter().all(|c| c.is_none())));
}

#[test]
fn clear_full_rows_is_a_no_op_without_a_full_row() {
    let mut lines = generate_lines();
    let mut nine: Vec<Block> = Vec::new();
    for c in 0..9 {
        nine.push(block(c, 425));
    }
    lock_piece(&mut lines, &nine).unwrap();
    clear_full_rows(&mut lines);
    for c in 0..9 {
        assert!(lines[14].blocks[c].is_some());
    }
    assert!(lines[14].blocks[9].is_none());
}

#[test]
fn filling_the_tenth_cell_clears_the_row_and_drops_the_stack() {
    let mut lines = generate_lines();
    let mut nine: Vec<Block> = Vec::new();
    for c in 0..9 {
        nine.push(block(c, 425));
    }
    lock_piece(&mut lines, &nine).unwrap();
    // A marker one row above, to watch it fall.
    lock_piece(&mut lines, &vec![block(0, 395)]).unwrap();
    // Lock a block into the row's last free column.
    lock_piece(&mut lines, &vec![block(9, 421)]).unwrap();
    clear_full_rows(&mut lines);
    // The full bottom row is gone; the marker moved down one row, its
    // vertical position advanced by one cell-height unit.
    let marker = lines[14].blocks[0].unwrap();
    assert_eq!(marker.y_pos_top, 420);
    for c in 1..10 {
        assert!(lines[14].blocks[c].is_none());
    }
    for c in 0..10 {
        assert!(lines[13].blocks[c].is_none());
        assert!(lines[0].blocks[c].is_none());
    }
    assert_eq!(lines[0].row, 0);
    assert_eq!(lines[14].row, 14);
}

#[test]
fn drop_line_reindexes_and_advances_rows() {
    let mut lines = generate_lines();
    lock_piece(&mut lines, &vec![block(5, 65)]).unwrap();
    // Compact away row 10: everything above it falls one row.
    drop_line(&mut lines, 10);
    assert!(lines[2].blocks[5].is_none());
    let moved = lines[3].blocks[5].unwrap();
    assert_eq!(moved.y_pos_top, 90);
    assert_eq!(moved.col, 5);
    for (i, line) in lines.iter().enumerate() {
        assert_eq!(line.row, i as u32);
    }
}

#[test]
fn filter_none_keeps_present_values_in_order() {
    let v: Vec<Option<i32>> = vec![None, Some(3), None, Some(5), Some(7), None];
    assert_eq!(filter_none(&v), vec![3, 5, 7]);
    let empty: Vec<Option<i32>> = vec![None, None];
    assert_eq!(filter_none(&empty), Vec::<i32>::new());
}
