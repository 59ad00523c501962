//! Rules engine for a cooperative turn-based card game: a catalog of
//! operators and hacker cards, validated game configuration, table setup,
//! and a state machine that resolves player choices into checked events.

pub mod defs;
pub mod game;
pub mod shims;
