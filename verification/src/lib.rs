//! Rules engine for a two-player, turn-based hex-grid racing game played on a
//! segmented river board. The engine models the board, the two ships, the
//! legality and cost rules for the four kinds of actions, move enumeration and
//! turn progression, together with the attribute-tree representation that the
//! surrounding transport exchanges with the game server.

pub mod action;
pub mod board;
pub mod client;
pub mod constants;
pub mod cube;
pub mod error;
pub mod field;
pub mod laws;
pub mod mistake;
pub mod moves;
pub mod numbers;
pub mod protocol;
pub mod segment;
pub mod ship;
pub mod state;
pub mod team;
pub mod vec2;
pub mod wire;
pub mod xml;
