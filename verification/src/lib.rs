//! Room, board and scoring logic for a multiplayer baseball bingo game.
pub mod bingo;
pub mod board;
pub mod codes;
pub mod consistency;
pub mod cors;
pub mod decimal;
pub mod events;
pub mod kv;
pub mod models;
pub mod rng;
pub mod state;
pub mod rooms;
pub mod roster;
pub mod util;
