//! Calculation engine for a multidimensional planning cube: the formula
//! language (scanner, parser, bytecode compiler, stack machine) and the
//! engine's supporting structures.
//!
//! Numbers are IEEE-754 binary64 values carried by their bit patterns; see
//! [`scalar`].
pub mod scalar;
pub mod text;
pub mod atom_script;
pub mod lattice;
pub mod compute;
pub mod mdf;
