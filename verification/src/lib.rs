//! A verified chess position model, pseudo-legal move generator, and
//! fixed-depth game-tree node counter.
//!
//! The library owns the board geometry (edge distances for every square and
//! compass direction), the direction catalogue per piece kind, the board
//! model with its cached per-colour occupancy lists, the move generator, a
//! slider/knight/pawn/king attack scan for king safety, and a perft-style
//! recursive search driver.

pub mod action;
pub mod action_generator;
pub mod board;
pub mod directions;
pub mod engine;
pub mod error;
pub mod piece;
pub mod precomputed_data;
