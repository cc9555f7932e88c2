//! Data that form the game: body shapes and levels.

pub mod bodies;
pub mod level;
