//! The layout of stored molecules.
pub mod molecule;
