//! A falling-sand cellular automaton: a grid of material cells advanced one
//! tick at a time by per-material movement and transformation rules.
//!
//! The executable engine ([`grid::Grid`]) is specified against a mathematical
//! model of the grid ([`board::Board`]); every rule is proved to compute
//! exactly what the model prescribes for the random outcomes it was given.

pub mod material;
pub mod chance;
pub mod cell;
pub mod board;
pub mod grid;
pub mod brush;
pub mod rules;
pub mod laws;
