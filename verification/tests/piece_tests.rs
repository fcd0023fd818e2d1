use tetris_core::block::{Block, Color, GameError};
use tetris_core::board::generate_lines;
use tetris_core::board::lock_piece;
use tetris_core::piece::{Direction, Piece, ShapeKind};

fn tag() -> Color {
    Color { r: 1, g: 2, b: 3, a: 4 }
}

fn block(col: i32, y_pos_top: i32) -> Block {
    Block { color: tag(), col, y_pos_top }
}

#[test]
fn spawn_square_layout() {
    let p = Piece::spawn(ShapeKind::Square);
    assert_eq!(p.rotation, 0);
    let pos: Vec<(i32, i32)> = p.blocks.iter().map(|b| (b.col, b.y_pos_top)).collect();
    assert_eq!(pos, vec![(4, -30), (5, -30), (4, -60), (5, -60)]);
    assert_eq!(p.blocks[0].color, Color { r: 245, g: 40, b: 145, a: 204 });
}

#[test]
fn spawn_straight_layout() {
    let p = Piece::spawn(ShapeKind::Straight);
    let pos: Vec<(i32, i32)> = p.blocks.iter().map(|b| (b.col, b.y_pos_top)).collect();
    assert_eq!(pos, vec![(4, -30), (4, -60), (4, -90), (4, -120)]);
    assert_eq!(p.blocks[0].color, Color { r: 61, g: 139, b: 232, a: 117 });
}

#[test]
fn spawn_t_layout() {
    let p = Piece::spawn(ShapeKind::T);
    let pos: Vec<(i32, i32)> = p.blocks.iter().map(|b| (b.col, b.y_pos_top)).collect();
    assert_eq!(pos, vec![(3, -30), (4, -30), (5, -30), (4, -60)]);
}

#[test]
fn spawn_l_layouts() {
    let p = Piece::spawn(ShapeKind::RightL);
    let pos: Vec<(i32, i32)> = p.blocks.iter().map(|b| (b.col, b.y_pos_top)).collect();
    assert_eq!(pos, vec![(4, -30), (5, -30), (4, -60), (4, -90)]);
    let q = Piece::spawn(ShapeKind::LeftL);
    let pos: Vec<(i32, i32)> = q.blocks.iter().map(|b| (b.col, b.y_pos_top)).collect();
    assert_eq!(pos, vec![(4, -30), (5, -30), (5, -60), (5, -90)]);
}

#[test]
fn spawn_skew_layouts() {
    let p = Piece::spawn(ShapeKind::RightSkew);
    let pos: Vec<(i32, i32)> = p.blocks.iter().map(|b| (b.col, b.y_pos_top)).collect();
    assert_eq!(pos, vec![(3, -30), (4, -30), (4, -60), (5, -60)]);
    let q = Piece::spawn(ShapeKind::LeftSkew);
    let pos: Vec<(i32, i32)> = q.blocks.iter().map(|b| (b.col, b.y_pos_top)).collect();
    assert_eq!(pos, vec![(4, -30), (5, -30), (3, -60), (4, -60)]);
}

#[test]
fn shift_moves_all_blocks_one_column() {
    let lines = generate_lines();
    let mut p = Piece::spawn(ShapeKind::T);
    assert!(p.shift(&lines, Direction::Right));
    let cols: Vec<i32> = p.blocks.iter().map(|b| b.col).collect();
    assert_eq!(cols, vec![4, 5, 6, 5]);
}

#[test]
fn shift_fails_at_wall_without_mutation() {
    let lines = generate_lines();
    let mut p = Piece::spawn(ShapeKind::T);
    for _ in 0..3 {
        assert!(p.shift(&lines, Direction::Left));
    }
    let before: Vec<(i32, i32)> = p.blocks.iter().map(|b| (b.col, b.y_pos_top)).collect();
    assert_eq!(before[0].0, 0);
    assert!(!p.shift(&lines, Direction::Left));
    let after: Vec<(i32, i32)> = p.blocks.iter().map(|b| (b.col, b.y_pos_top)).collect();
    assert_eq!(before, after);
    assert_eq!(p.rotation, 0);
}

#[test]
fn shift_blocked_by_terrain_without_mutation() {
    let mut lines = generate_lines();
    // A locked block in row 0, column 2, directly left of where the T sits.
    lock_piece(&mut lines, &vec![block(2, 5)]).unwrap();
    let mut p = Piece::spawn(ShapeKind::T);
    // Drop the piece a little so its blocks' rows include row 0.
    for b in p.blocks.iter_mut() {
        b.y_pos_top += 25;
    }
    let before: Vec<(i32, i32)> = p.blocks.iter().map(|b| (b.col, b.y_pos_top)).collect();
    assert!(!p.shift(&lines, Direction::Left));
    let after: Vec<(i32, i32)> = p.blocks.iter().map(|b| (b.col, b.y_pos_top)).collect();
    assert_eq!(before, after);
}

#[test]
fn rotate_t_four_times_round_trip() {
    let lines = generate_lines();
    let mut p = Piece::spawn(ShapeKind::T);
    let before: Vec<(i32, i32)> = p.blocks.iter().map(|b| (b.col, b.y_pos_top)).collect();
    for _ in 0..4 {
        assert!(p.rotate(&lines).unwrap());
    }
    assert_eq!(p.rotation, 0);
    let after: Vec<(i32, i32)> = p.blocks.iter().map(|b| (b.col, b.y_pos_top)).collect();
    assert_eq!(before, after);
}

#[test]
fn rotate_straight_four_times_round_trip() {
    let lines = generate_lines();
    let mut p = Piece::spawn(ShapeKind::Straight);
    let before: Vec<(i32, i32)> = p.blocks.iter().map(|b| (b.col, b.y_pos_top)).collect();
    for _ in 0..4 {
        assert!(p.rotate(&lines).unwrap());
    }
    assert_eq!(p.rotation, 0);
    let after: Vec<(i32, i32)> = p.blocks.iter().map(|b| (b.col, b.y_pos_top)).collect();
    assert_eq!(before, after);
}

#[test]
fn rotate_straight_at_left_wall_kicks_right() {
    let lines = generate_lines();
    let mut p = Piece::spawn(ShapeKind::Straight);
    for _ in 0..4 {
        assert!(p.shift(&lines, Direction::Left));
    }
    let cols: Vec<i32> = p.blocks.iter().map(|b| b.col).collect();
    assert_eq!(cols, vec![0, 0, 0, 0]);
    assert!(p.rotate(&lines).unwrap());
    assert_eq!(p.rotation, 90);
    let pos: Vec<(i32, i32)> = p.blocks.iter().map(|b| (b.col, b.y_pos_top)).collect();
    // The whole piece is kicked one column right of the wall, consistently.
    assert_eq!(pos, vec![(0, -60), (1, -60), (2, -60), (3, -60)]);
}

#[test]
fn rotate_straight_at_wall_rejected_when_terrain_blocks_kick() {
    let mut lines = generate_lines();
    // The kick would move the rotated piece onto column 3 of row 0.
    lock_piece(&mut lines, &vec![block(3, 5)]).unwrap();
    // A vertical straight piece already pinned against the left wall.
    let mut p = Piece {
        kind: ShapeKind::Straight,
        blocks: vec![block(0, -30), block(0, -60), block(0, -90), block(0, -120)],
        rotation: 0,
    };
    let before: Vec<(i32, i32)> = p.blocks.iter().map(|b| (b.col, b.y_pos_top)).collect();
    let moved = p.rotate(&lines).unwrap();
    assert!(!moved);
    // Full rejection: no partial rotation state.
    assert_eq!(p.rotation, 0);
    let after: Vec<(i32, i32)> = p.blocks.iter().map(|b| (b.col, b.y_pos_top)).collect();
    assert_eq!(before, after);
}

#[test]
fn rotate_center_collision_is_fatal() {
    let mut lines = generate_lines();
    // The rotated shadow is a vertical bar at column 4; a locked block in
    // row 1, column 4 collides exactly at the center of that odd-width
    // shadow.
    lock_piece(&mut lines, &vec![block(4, 35)]).unwrap();
    let mut p = Piece {
        kind: ShapeKind::Straight,
        blocks: vec![block(3, 5), block(4, 5), block(5, 5), block(6, 5)],
        rotation: 90,
    };
    let before: Vec<(i32, i32)> = p.blocks.iter().map(|b| (b.col, b.y_pos_top)).collect();
    let res = p.rotate(&lines);
    assert_eq!(res, Err(GameError::RotationCenterCollision));
    assert_eq!(p.rotation, 90);
    let after: Vec<(i32, i32)> = p.blocks.iter().map(|b| (b.col, b.y_pos_top)).collect();
    assert_eq!(before, after);
}

#[test]
fn rotate_keeps_columns_on_the_board() {
    let lines = generate_lines();
    for kind in [
        ShapeKind::Square,
        ShapeKind::Straight,
        ShapeKind::T,
        ShapeKind::RightL,
        ShapeKind::LeftL,
        ShapeKind::RightSkew,
        ShapeKind::LeftSkew,
    ] {
        let mut p = Piece::spawn(kind);
        // Pin against each wall and rotate repeatedly.
        for _ in 0..5 {
            p.shift(&lines, Direction::Left);
        }
        for _ in 0..8 {
            p.rotate(&lines).unwrap();
            assert!(p.blocks.iter().all(|b| 0 <= b.col && b.col <= 9));
        }
        for _ in 0..12 {
            p.shift(&lines, Direction::Right);
        }
        for _ in 0..8 {
            p.rotate(&lines).unwrap();
            assert!(p.blocks.iter().all(|b| 0 <= b.col && b.col <= 9));
        }
    }
}

#[test]
fn square_rotation_is_a_no_op() {
    let lines = generate_lines();
    let mut p = Piece::spawn(ShapeKind::Square);
    let before: Vec<(i32, i32)> = p.blocks.iter().map(|b| (b.col, b.y_pos_top)).collect();
    assert!(p.rotate(&lines).unwrap());
    assert_eq!(p.rotation, 0);
    let after: Vec<(i32, i32)> = p.blocks.iter().map(|b| (b.col, b.y_pos_top)).collect();
    assert_eq!(before, after);
}

#[test]
fn skew_rotation_alternates_between_two_states() {
    let lines = generate_lines();
    let mut p = Piece::spawn(ShapeKind::LeftSkew);
    let before: Vec<(i32, i32)> = p.blocks.iter().map(|b| (b.col, b.y_pos_top)).collect();
    assert!(p.rotate(&lines).unwrap());
    assert_eq!(p.rotation, 90);
    assert!(p.rotate(&lines).unwrap());
    assert_eq!(p.rotation, 0);
    let after: Vec<(i32, i32)> = p.blocks.iter().map(|b| (b.col, b.y_pos_top)).collect();
    assert_eq!(before, after);
}
