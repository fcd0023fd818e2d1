//! The engine: game state, gravity ticking, command dispatch, lock and
//! floor detection, row clearing, and piece spawning.

use vstd::prelude::*;
use rand::Rng;
use crate::block::{add_y, clamp_y, Block, GameError, CELL_HEIGHT, VELOCITY_CAP};
use crate::board::{
    block_hits_row, board_collides, board_view, clear_full_rows, cleared_view, generate_lines,
    lines_wf, lock_cells, lock_in_range, lock_piece, Line,
};
use crate::piece::{
    at_edge, blocks_bounded, dir_step, next_rotation, piece_wf, rotate_commit, rotate_fatal,
    shift_cols, spawn_blocks, terrain_blocked, Direction, Piece, ShapeKind,
};

verus! {

#[derive(Clone, Copy, PartialEq, Eq, Structural, Debug)]
pub enum PlayMode {
    Running,
    Paused,
}

/// The inbound commands.  `Resize` is a presentation-only notification the
/// core ignores.
#[derive(Clone, Copy, PartialEq, Eq, Structural, Debug)]
pub enum Command {
    MoveLeft,
    MoveRight,
    Rotate,
    SoftDrop,
    TogglePause,
    Resize(i32, i32),
}

/// The whole game: the 15 board rows, the active falling piece, the falling
/// velocity, and the pause flag.
pub struct GameState {
    pub lines: Vec<Line>,
    pub active_piece: Piece,
    pub velocity: i32,
    pub play_mode: PlayMode,
}

/// The engine's state invariant: a well-formed board, a well-formed active
/// piece, and a velocity between the base value and the cap.
pub open spec fn state_wf(s: GameState) -> bool {
    &&& lines_wf(s.lines@)
    &&& piece_wf(s.active_piece)
    &&& 1 <= s.velocity <= VELOCITY_CAP
}

/// The falling velocity after a soft drop: tripled (saturating at the cap),
/// but never below the floor value of 10.
pub open spec fn bump_velocity(v: int) -> int {
    let t = if 3 * v > VELOCITY_CAP as int {
        VELOCITY_CAP as int
    } else {
        3 * v
    };
    if t < 10 {
        10
    } else {
        t
    }
}

/// The piece's blocks after one gravity step of magnitude `v`.
pub open spec fn gravity_blocks(blocks: Seq<Block>, v: int) -> Seq<Block> {
    Seq::new(
        blocks.len(),
        |i: int| Block {
            color: blocks[i].color,
            col: blocks[i].col,
            y_pos_top: clamp_y(blocks[i].y_pos_top + v) as i32,
        },
    )
}

/// Whether the piece must be finalized: it collides with locked cells, or a
/// block's bottom edge passed the floor.
pub open spec fn landed(bv: Seq<Seq<Option<Block>>>, blocks: Seq<Block>) -> bool {
    board_collides(bv, blocks) || exists|i: int|
        0 <= i < blocks.len() && (#[trigger] blocks[i]).y_pos_top + CELL_HEIGHT > 15 * CELL_HEIGHT
}

/// What one gravity tick does to the state, `next` being the shape spawned
/// if the active piece locks.
pub open spec fn tick_rel(
    pre: GameState,
    post: GameState,
    next: ShapeKind,
    res: Result<(), GameError>,
) -> bool {
    if pre.play_mode is Paused {
        post == pre && res is Ok
    } else {
        let bv = board_view(pre.lines@);
        let moved = gravity_blocks(pre.active_piece.blocks@, pre.velocity as int);
        if !landed(bv, moved) {
            &&& res is Ok
            &&& post.lines@ == pre.lines@
            &&& post.active_piece.blocks@ == moved
            &&& post.active_piece.kind == pre.active_piece.kind
            &&& post.active_piece.rotation == pre.active_piece.rotation
            &&& post.velocity == pre.velocity
            &&& post.play_mode == pre.play_mode
        } else if lock_in_range(moved) {
            &&& res is Ok
            &&& board_view(post.lines@) == cleared_view(lock_cells(bv, moved))
            &&& post.active_piece.kind == next
            &&& post.active_piece.rotation == 0
            &&& post.active_piece.blocks@ == spawn_blocks(next)
            &&& post.velocity == 1
            &&& post.play_mode == pre.play_mode
        } else {
            &&& res == Result::<(), GameError>::Err(GameError::LockOutOfRange)
            &&& post.lines@ == pre.lines@
            &&& post.active_piece.blocks@ == moved
            &&& post.active_piece.kind == pre.active_piece.kind
            &&& post.active_piece.rotation == pre.active_piece.rotation
            &&& post.velocity == pre.velocity
            &&& post.play_mode == pre.play_mode
        }
    }
}

/// The shape drawn for each of the seven spawn indices.
pub open spec fn index_shape(n: int) -> ShapeKind {
    if n == 0 {
        ShapeKind::Square
    } else if n == 1 {
        ShapeKind::Straight
    } else if n == 2 {
        ShapeKind::T
    } else if n == 3 {
        ShapeKind::RightL
    } else if n == 4 {
        ShapeKind::LeftL
    } else if n == 5 {
        ShapeKind::RightSkew
    } else {
        ShapeKind::LeftSkew
    }
}

/// Maps a spawn index below 7 to its shape.
pub fn shape_from_index(n: u32) -> (k: ShapeKind)
    requires
        n < 7,
    ensures
        k == index_shape(n as int),
{
    match n {
        0 => ShapeKind::Square,
        1 => ShapeKind::Straight,
        2 => ShapeKind::T,
        3 => ShapeKind::RightL,
        4 => ShapeKind::LeftL,
        5 => ShapeKind::RightSkew,
        _ => ShapeKind::LeftSkew,
    }
}

/// Relies on rand's `Rng::gen_range` over the non-empty range 0..7: the
/// call returns a value of that range, so the result is below 7.
#[verifier::external_body]
fn random_piece_index() -> (r: u32)
    ensures
        r < 7,
{
    rand::thread_rng().gen_range(0u32..7u32)
}

impl GameState {
    /// A fresh game: 15 empty rows, a square piece above the board, base
    /// velocity, running.
    pub fn new() -> (s: GameState)
        ensures
            state_wf(s),
            s.play_mode == PlayMode::Running,
            s.velocity == 1,
            s.active_piece.kind == ShapeKind::Square,
            s.active_piece.rotation == 0,
            s.active_piece.blocks@ == spawn_blocks(ShapeKind::Square),
            forall|r: int, c: int|
                0 <= r < 15 && 0 <= c < 10 ==> board_view(s.lines@)[r][c] is None,
    {
        GameState {
            lines: generate_lines(),
            active_piece: Piece::spawn(ShapeKind::Square),
            velocity: 1,
            play_mode: PlayMode::Running,
        }
    }

    /// Flips between running and paused.
    pub fn toggle_pause(&mut self)
        ensures
            final(self).play_mode == (if old(self).play_mode is Paused {
                PlayMode::Running
            } else {
                PlayMode::Paused
            }),
            final(self).lines == old(self).lines,
            final(self).active_piece == old(self).active_piece,
            final(self).velocity == old(self).velocity,
    {
        match self.play_mode {
            PlayMode::Paused => self.play_mode = PlayMode::Running,
            PlayMode::Running => self.play_mode = PlayMode::Paused,
        }
    }

    /// A soft drop: triples the velocity (saturating at the cap), with a
    /// floor of 10.
    pub fn drop_piece(&mut self)
        requires
            0 <= old(self).velocity <= VELOCITY_CAP,
        ensures
            final(self).velocity as int == bump_velocity(old(self).velocity as int),
            final(self).lines == old(self).lines,
            final(self).active_piece == old(self).active_piece,
            final(self).play_mode == old(self).play_mode,
    {
        let tripled = if self.velocity > VELOCITY_CAP / 3 {
            VELOCITY_CAP
        } else {
            self.velocity * 3
        };
        self.velocity = if tripled < 10 {
            10
        } else {
            tripled
        };
    }

    /// Whether any of the given piece's blocks shares a column with a
    /// locked block of a row whose span it overlaps.  A pure read.
    pub fn detect_collisions(&self, shadow_piece: &Piece) -> (collision: bool)
        requires
            lines_wf(self.lines@),
            blocks_bounded(shadow_piece.blocks@),
        ensures
            collision == board_collides(board_view(self.lines@), shadow_piece.blocks@),
    {
        let ghost bv = board_view(self.lines@);
        let n = shadow_piece.blocks.len();
        let mut collision = false;
        let mut r: usize = 0;
        while r < 15
            invariant
                lines_wf(self.lines@),
                bv == board_view(self.lines@),
                blocks_bounded(shadow_piece.blocks@),
                n == shadow_piece.blocks@.len(),
                r <= 15,
                collision == exists|rr: int, j: int|
                    0 <= rr < r && 0 <= j < n && #[trigger] block_hits_row(
                        bv,
                        shadow_piece.blocks@[j],
                        rr,
                    ),
            decreases 15 - r,
        {
            let mut i: usize = 0;
            while i < n
                invariant
                    lines_wf(self.lines@),
                    bv == board_view(self.lines@),
                    blocks_bounded(shadow_piece.blocks@),
                    n == shadow_piece.blocks@.len(),
                    r < 15,
                    i <= n,
                    collision == ((exists|rr: int, j: int|
                        0 <= rr < r && 0 <= j < n && #[trigger] block_hits_row(
                            bv,
                            shadow_piece.blocks@[j],
                            rr,
                        )) || (exists|j: int|
                        0 <= j < i && #[trigger] block_hits_row(
                            bv,
                            shadow_piece.blocks@[j],
                            r as int,
                        ))),
                decreases n - i,
            {
                let b = shadow_piece.blocks[i];
                let mut hit = false;
                if b.y_pos_top + CELL_HEIGHT > (r as i32) * CELL_HEIGHT && b.y_pos_top < (r as i32)
                    * CELL_HEIGHT {
                    if 0 <= b.col && b.col <= 9 {
                        if self.lines[r].blocks[b.col as usize].is_some() {
                            hit = true;
                        }
                    }
                }
                proof {
                    assert(hit == block_hits_row(bv, b, r as int));
                }
                if hit {
                    collision = true;
                }
                i += 1;
            }
            proof {
                let blocks = shadow_piece.blocks@;
                if collision {
                    if exists|rr: int, j: int|
                        0 <= rr < r && 0 <= j < n && #[trigger] block_hits_row(
                            bv,
                            blocks[j],
                            rr,
                        ) {
                        let (rr, j) = choose|rr: int, j: int|
                            0 <= rr < r && 0 <= j < n && #[trigger] block_hits_row(
                                bv,
                                blocks[j],
                                rr,
                            );
                        assert(0 <= rr < r as int + 1 && 0 <= j < n && block_hits_row(
                            bv,
                            blocks[j],
                            rr,
                        ));
                    } else {
                        let j = choose|j: int|
                            0 <= j < n && #[trigger] block_hits_row(bv, blocks[j], r as int);
                        assert(0 <= (r as int) < (r as int) + 1 && 0 <= j < n && block_hits_row(
                            bv,
                            blocks[j],
                            r as int,
                        ));
                    }
                } else {
                    assert forall|rr: int, j: int|
                        0 <= rr < r as int + 1 && 0 <= j < n implies !block_hits_row(
                        bv,
                        blocks[j],
                        rr,
                    ) by {
                        if rr == r as int {
                            assert(!(exists|j2: int|
                                0 <= j2 < i && #[trigger] block_hits_row(
                                    bv,
                                    blocks[j2],
                                    r as int,
                                )));
                            assert(!(0 <= j < i && block_hits_row(bv, blocks[j], r as int)));
                        } else {
                            assert(!(exists|rr2: int, j2: int|
                                0 <= rr2 < r && 0 <= j2 < n && #[trigger] block_hits_row(
                                    bv,
                                    blocks[j2],
                                    rr2,
                                )));
                            assert(!(0 <= rr < r && 0 <= j < n && block_hits_row(
                                bv,
                                blocks[j],
                                rr,
                            )));
                        }
                    }
                }
            }
            r += 1;
        }
        collision
    }

    /// Finalizes the active piece: locks its blocks into the rows they have
    /// reached, clears and compacts full rows, spawns the next shape, and
    /// resets the velocity to the base value.  Fails, mutating nothing,
    /// when a block's lock target is off the board.
    pub fn next_piece(&mut self, next: ShapeKind) -> (res: Result<(), GameError>)
        requires
            lines_wf(old(self).lines@),
        ensures
            (res is Ok) == lock_in_range(old(self).active_piece.blocks@),
            res is Err ==> *final(self) == *old(self) && res == Result::<(), GameError>::Err(
                GameError::LockOutOfRange,
            ),
            res is Ok ==> {
                &&& board_view(final(self).lines@) == cleared_view(
                    lock_cells(board_view(old(self).lines@), old(self).active_piece.blocks@),
                )
                &&& lines_wf(final(self).lines@)
                &&& final(self).active_piece.kind == next
                &&& final(self).active_piece.rotation == 0
                &&& final(self).active_piece.blocks@ == spawn_blocks(next)
                &&& piece_wf(final(self).active_piece)
                &&& final(self).velocity == 1
                &&& final(self).play_mode == old(self).play_mode
            },
    {
        match lock_piece(&mut self.lines, &self.active_piece.blocks) {
            Err(e) => {
                return Err(e);
            },
            Ok(()) => {},
        }
        clear_full_rows(&mut self.lines);
        self.active_piece = Piece::spawn(next);
        self.velocity = 1;
        Ok(())
    }

    /// One gravity tick with an injected spawn shape: while running, every
    /// block falls by the current velocity; on collision or on passing the
    /// floor the piece is finalized.  Paused, it does nothing.
    pub fn update(&mut self, next: ShapeKind) -> (res: Result<(), GameError>)
        requires
            state_wf(*old(self)),
        ensures
            state_wf(*final(self)),
            tick_rel(*old(self), *final(self), next, res),
    {
        if self.play_mode == PlayMode::Paused {
            return Ok(());
        }
        let ghost before = self.active_piece.blocks@;
        let v = self.velocity;
        let mut i: usize = 0;
        while i < 4
            invariant
                state_wf(*old(self)),
                before == old(self).active_piece.blocks@,
                v == old(self).velocity,
                self.lines == old(self).lines,
                self.velocity == old(self).velocity,
                self.play_mode == old(self).play_mode,
                self.active_piece.kind == old(self).active_piece.kind,
                self.active_piece.rotation == old(self).active_piece.rotation,
                self.active_piece.blocks@.len() == 4,
                i <= 4,
                forall|j: int|
                    0 <= j < i ==> self.active_piece.blocks@[j] == gravity_blocks(before, v as int)[j],
                forall|j: int| i <= j < 4 ==> self.active_piece.blocks@[j] == before[j],
            decreases 4 - i,
        {
            let y0 = self.active_piece.blocks[i].y_pos_top;
            proof {
                assert(self.active_piece.blocks@[i as int] == before[i as int]);
                assert(0 <= old(self).active_piece.blocks@[i as int].col <= 9);
            }
            self.active_piece.blocks[i].y_pos_top = add_y(y0, v);
            i += 1;
        }
        proof {
            assert(self.active_piece.blocks@ =~= gravity_blocks(before, v as int));
        }
        let collision = self.detect_collisions(&self.active_piece);
        let mut reached_floor = false;
        if !collision {
            let mut i: usize = 0;
            while i < 4
                invariant
                    self.active_piece.blocks@.len() == 4,
                    piece_wf(self.active_piece),
                    i <= 4,
                    reached_floor == exists|j: int|
                        0 <= j < i && (#[trigger] self.active_piece.blocks@[j]).y_pos_top
                            + CELL_HEIGHT > 15 * CELL_HEIGHT,
                decreases 4 - i,
            {
                let b = self.active_piece.blocks[i];
                if b.y_pos_bottom() > 15 * CELL_HEIGHT {
                    reached_floor = true;
                }
                i += 1;
            }
        }
        if collision || reached_floor {
            self.next_piece(next)
        } else {
            Ok(())
        }
    }

    /// One gravity tick with the spawn shape chosen uniformly at random
    /// from the seven variants.
    pub fn tick(&mut self) -> (res: Result<(), GameError>)
        requires
            state_wf(*old(self)),
        ensures
            state_wf(*final(self)),
            exists|k: ShapeKind| #[trigger] tick_rel(*old(self), *final(self), k, res),
    {
        let n = random_piece_index();
        let k = shape_from_index(n);
        let res = self.update(k);
        proof {
            assert(tick_rel(*old(self), *self, k, res));
        }
        res
    }

    /// Dispatches one player command.  Pause toggling and resizing always
    /// work; while paused, every other command is ignored.  Movement and
    /// rotation act on the active piece against the current board; a soft
    /// drop bumps the velocity.
    pub fn event(&mut self, cmd: Command) -> (res: Result<(), GameError>)
        requires
            state_wf(*old(self)),
        ensures
            state_wf(*final(self)),
            cmd == Command::TogglePause ==> res is Ok && final(self).play_mode == (if old(self).play_mode is Paused {
                PlayMode::Running
            } else {
                PlayMode::Paused
            }) && final(self).lines == old(self).lines && final(self).active_piece == old(self).active_piece && final(self).velocity == old(self).velocity,
            (cmd matches Command::Resize(w, h)) ==> res is Ok && *final(self) == *old(self),
            cmd != Command::TogglePause && !(cmd matches Command::Resize(w, h)) && old(self).play_mode is Paused ==> res is Ok && *final(self) == *old(self),
            old(self).play_mode is Running && (cmd == Command::MoveLeft || cmd
                == Command::MoveRight) ==> {
                let d = if cmd == Command::MoveLeft {
                    Direction::Left
                } else {
                    Direction::Right
                };
                let bv = board_view(old(self).lines@);
                let p = old(self).active_piece;
                &&& res is Ok
                &&& final(self).lines == old(self).lines
                &&& final(self).velocity == old(self).velocity
                &&& final(self).play_mode == old(self).play_mode
                &&& final(self).active_piece.kind == p.kind
                &&& final(self).active_piece.rotation == p.rotation
                &&& if !at_edge(p.blocks@, d) && !terrain_blocked(bv, p.blocks@, d) {
                    final(self).active_piece.blocks@ == shift_cols(p.blocks@, dir_step(d))
                } else {
                    final(self).active_piece == p
                }
            },
            old(self).play_mode is Running && cmd == Command::Rotate ==> {
                let bv = board_view(old(self).lines@);
                let p = old(self).active_piece;
                &&& (res is Err) == rotate_fatal(bv, p)
                &&& res is Err ==> *final(self) == *old(self) && res == Result::<
                    (),
                    GameError,
                >::Err(GameError::RotationCenterCollision)
                &&& res is Ok ==> final(self).lines == old(self).lines && final(self).velocity
                    == old(self).velocity && final(self).play_mode == old(self).play_mode && final(self).active_piece.kind == p.kind && (if rotate_commit(bv, p) is Some {
                    final(self).active_piece.blocks@ == rotate_commit(bv, p).unwrap() && final(self).active_piece.rotation == next_rotation(p.kind, p.rotation)
                } else {
                    final(self).active_piece == p
                })
            },
            old(self).play_mode is Running && cmd == Command::SoftDrop ==> res is Ok && final(self).velocity as int == bump_velocity(old(self).velocity as int) && final(self).lines
                == old(self).lines && final(self).active_piece == old(self).active_piece && final(self).play_mode == old(self).play_mode,
    {
        match cmd {
            Command::TogglePause => {
                self.toggle_pause();
                return Ok(());
            },
            Command::Resize(_, _) => {
                return Ok(());
            },
            _ => {},
        }
        if self.play_mode == PlayMode::Paused {
            return Ok(());
        }
        match cmd {
            Command::MoveLeft => {
                self.active_piece.shift(&self.lines, Direction::Left);
                Ok(())
            },
            Command::MoveRight => {
                self.active_piece.shift(&self.lines, Direction::Right);
                Ok(())
            },
            Command::Rotate => {
                match self.active_piece.rotate(&self.lines) {
                    Ok(_) => Ok(()),
                    Err(e) => Err(e),
                }
            },
            Command::SoftDrop => {
                self.drop_piece();
                Ok(())
            },
            Command::TogglePause | Command::Resize(_, _) => Ok(()),
        }
    }
}

} // verus!
