//! The single-emotion automaton: every cell is alive or dead and carries at
//! most one emotion from a closed catalogue.

pub mod emotions;
pub mod entity;
pub mod grid;
