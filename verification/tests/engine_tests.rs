use tetris_core::block::{Block, Color, GameError};
use tetris_core::board::{generate_lines, lock_piece};
use tetris_core::engine::{Command, GameState, PlayMode};
use tetris_core::piece::{Piece, ShapeKind};

fn tag() -> Color {
    Color { r: 1, g: 1, b: 1, a: 1 }
}

fn block(col: i32, y_pos_top: i32) -> Block {
    Block { color: tag(), col, y_pos_top }
}

#[test]
fn new_game_starts_running_with_a_square() {
    let gs = GameState::new();
    assert_eq!(gs.play_mode, PlayMode::Running);
    assert_eq!(gs.velocity, 1);
    assert_eq!(gs.active_piece.kind, ShapeKind::Square);
    assert!(gs.lines.iter().all(|l| l.blocks.iter().all(|c| c.is_none())));
}

#[test]
fn update_applies_gravity_to_every_block() {
    let mut gs = GameState::new();
    gs.update(ShapeKind::T).unwrap();
    let pos: Vec<(i32, i32)> = gs.active_piece.blocks.iter().map(|b| (b.col, b.y_pos_top)).collect();
    assert_eq!(pos, vec![(4, -29), (5, -29), (4, -59), (5, -59)]);
    assert_eq!(gs.velocity, 1);
}

#[test]
fn square_moved_left_four_times_reaches_the_wall() {
    let mut gs = GameState::new();
    for _ in 0..4 {
        gs.event(Command::MoveLeft).unwrap();
    }
    let cols: Vec<i32> = gs.active_piece.blocks.iter().map(|b| b.col).collect();
    assert_eq!(cols, vec![0, 1, 0, 1]);
    // A fifth move must fail and leave the columns unchanged.
    let moved = gs
        .active_piece
        .shift(&gs.lines, tetris_core::piece::Direction::Left);
    assert!(!moved);
    let cols: Vec<i32> = gs.active_piece.blocks.iter().map(|b| b.col).collect();
    assert_eq!(cols, vec![0, 1, 0, 1]);
}

#[test]
fn soft_drop_clamps_velocity_at_a_floor_of_ten() {
    let mut gs = GameState::new();
    gs.event(Command::SoftDrop).unwrap();
    assert_eq!(gs.velocity, 10);
    gs.event(Command::SoftDrop).unwrap();
    assert_eq!(gs.velocity, 30);
    gs.event(Command::SoftDrop).unwrap();
    assert_eq!(gs.velocity, 90);
}

#[test]
fn soft_drop_velocity_resets_when_the_piece_locks() {
    let mut gs = GameState::new();
    gs.event(Command::SoftDrop).unwrap();
    assert_eq!(gs.velocity, 10);
    let mut locked = false;
    for _ in 0..60 {
        gs.update(ShapeKind::T).unwrap();
        if gs.velocity == 1 {
            locked = true;
            break;
        }
        assert!(gs.velocity >= 10);
    }
    assert!(locked);
    assert_eq!(gs.active_piece.kind, ShapeKind::T);
}

#[test]
fn lock_past_the_floor_is_fatal() {
    let mut gs = GameState::new();
    // Velocity 30 steps from -30 in exact rows, so the first tick past the
    // floor lands on row 15: out of range.
    gs.event(Command::SoftDrop).unwrap();
    gs.event(Command::SoftDrop).unwrap();
    assert_eq!(gs.velocity, 30);
    let mut outcome = Ok(());
    for _ in 0..40 {
        outcome = gs.update(ShapeKind::T);
        if outcome.is_err() {
            break;
        }
    }
    assert_eq!(outcome, Err(GameError::LockOutOfRange));
    // The failed lock stored nothing.
    assert!(gs.lines.iter().all(|l| l.blocks.iter().all(|c| c.is_none())));
}

#[test]
fn update_locks_clears_and_spawns() {
    let mut gs = GameState::new();
    // Pre-fill the bottom row except the square's two columns.
    let mut rest: Vec<Block> = Vec::new();
    for c in 0..10 {
        if c != 4 && c != 5 {
            rest.push(block(c, 425));
        }
    }
    lock_piece(&mut gs.lines, &rest).unwrap();
    // Ride the square down onto the floor.
    gs.event(Command::SoftDrop).unwrap();
    let mut spawned = false;
    for _ in 0..60 {
        gs.update(ShapeKind::Straight).unwrap();
        if gs.active_piece.kind == ShapeKind::Straight {
            spawned = true;
            break;
        }
    }
    assert!(spawned);
    // The square's lower blocks completed the bottom row, which cleared;
    // its upper blocks fell into the freed row.
    assert!(gs.lines[14].blocks[4].is_some());
    assert!(gs.lines[14].blocks[5].is_some());
    for c in 0..10 {
        if c != 4 && c != 5 {
            assert!(gs.lines[14].blocks[c].is_none(), "column {} should have cleared", c);
        }
    }
    assert_eq!(gs.velocity, 1);
}

#[test]
fn toggle_pause_flips_and_suppresses_commands_and_gravity() {
    let mut gs = GameState::new();
    gs.event(Command::TogglePause).unwrap();
    assert_eq!(gs.play_mode, PlayMode::Paused);
    let before: Vec<(i32, i32)> = gs.active_piece.blocks.iter().map(|b| (b.col, b.y_pos_top)).collect();
    gs.update(ShapeKind::T).unwrap();
    gs.event(Command::MoveLeft).unwrap();
    gs.event(Command::Rotate).unwrap();
    gs.event(Command::SoftDrop).unwrap();
    let after: Vec<(i32, i32)> = gs.active_piece.blocks.iter().map(|b| (b.col, b.y_pos_top)).collect();
    assert_eq!(before, after);
    assert_eq!(gs.velocity, 1);
    gs.event(Command::TogglePause).unwrap();
    assert_eq!(gs.play_mode, PlayMode::Running);
}

#[test]
fn resize_is_ignored_by_the_core() {
    let mut gs = GameState::new();
    let before: Vec<(i32, i32)> = gs.active_piece.blocks.iter().map(|b| (b.col, b.y_pos_top)).collect();
    gs.event(Command::Resize(800, 600)).unwrap();
    let after: Vec<(i32, i32)> = gs.active_piece.blocks.iter().map(|b| (b.col, b.y_pos_top)).collect();
    assert_eq!(before, after);
    assert_eq!(gs.velocity, 1);
    assert_eq!(gs.play_mode, PlayMode::Running);
}

#[test]
fn detect_collisions_sees_overlap_and_ignores_aligned_blocks() {
    let mut gs = GameState::new();
    lock_piece(&mut gs.lines, &vec![block(4, 125)]).unwrap();
    // Aligned exactly on row boundaries: no overlap.
    let aligned = Piece {
        kind: ShapeKind::Square,
        blocks: vec![block(4, 90), block(5, 90), block(4, 60), block(5, 60)],
        rotation: 0,
    };
    assert!(!gs.detect_collisions(&aligned));
    // Straddling the locked row's top edge in the same column: overlap.
    let straddling = Piece {
        kind: ShapeKind::Square,
        blocks: vec![block(4, 95), block(5, 95), block(4, 65), block(5, 65)],
        rotation: 0,
    };
    assert!(gs.detect_collisions(&straddling));
    // Same heights, different columns: no overlap.
    let apart = Piece {
        kind: ShapeKind::Square,
        blocks: vec![block(7, 95), block(8, 95), block(7, 65), block(8, 65)],
        rotation: 0,
    };
    assert!(!gs.detect_collisions(&apart));
}

#[test]
fn event_reports_the_fatal_center_collision() {
    let mut lines = generate_lines();
    lock_piece(&mut lines, &vec![block(4, 35)]).unwrap();
    let piece = Piece {
        kind: ShapeKind::Straight,
        blocks: vec![block(3, 5), block(4, 5), block(5, 5), block(6, 5)],
        rotation: 90,
    };
    let mut gs = GameState {
        lines,
        active_piece: piece,
        velocity: 1,
        play_mode: PlayMode::Running,
    };
    assert_eq!(gs.event(Command::Rotate), Err(GameError::RotationCenterCollision));
    assert_eq!(gs.active_piece.rotation, 90);
}

#[test]
fn tick_spawns_one_of_the_seven_shapes_after_a_lock() {
    let mut gs = GameState::new();
    gs.event(Command::SoftDrop).unwrap();
    let mut locked = false;
    for _ in 0..60 {
        gs.tick().unwrap();
        if gs.velocity == 1 {
            locked = true;
            break;
        }
    }
    assert!(locked);
    // Whatever shape came out of the random draw, it is a fresh spawn:
    // four blocks above the board, columns in the spawn band, state 0.
    assert_eq!(gs.active_piece.blocks.len(), 4);
    assert_eq!(gs.active_piece.rotation, 0);
    assert!(gs.active_piece.blocks.iter().all(|b| b.y_pos_top < 0));
    assert!(gs.active_piece.blocks.iter().all(|b| 3 <= b.col && b.col <= 5));
}
