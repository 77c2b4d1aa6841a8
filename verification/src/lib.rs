//! A turn-rotation tracker for multiplayer turn-based games.
//!
//! The tracker owns an ordered roster of players and a cursor that names the
//! player whose turn is next, and keeps that cursor meaningful while players
//! join and leave in the middle of a game.

pub mod laws;
pub mod model;
pub mod turn_tracker;
pub mod user;
