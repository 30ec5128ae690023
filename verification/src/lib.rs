//! A two-player, turn-based chess board-state and move-generation engine.
//!
//! The library owns the 64-cell board, generates legal destination squares
//! for a selected piece under per-piece movement rules, validates a proposed
//! move against that set, applies it, and advances the side to move.
//! Check, checkmate, castling, en passant and promotion are out of scope.

pub mod board;
pub mod input;
pub mod piece;
pub mod position;
