//! A narrative-graph engine for interactive fiction: stories are directed
//! graphs of pages connected by player-chosen edges, gated by boolean flags
//! that edges can read and write.

pub mod game;
pub mod parsing;
pub mod views;
