//! Core of a falling-block puzzle game: a 10-column, 15-row board accepts
//! four-cell pieces that fall under gravity, can be shifted and rotated by
//! discrete commands, lock into the board on collision, and trigger row
//! clearing and compaction when a row fills up.

pub mod block;
pub mod board;
pub mod engine;
pub mod filter_none;
pub mod piece;
