//! What the engine knows about the cube: its hierarchies and its cells.
pub mod arena;
pub mod metadata;
