//! A cellular-automaton engine in which emotions spread across a grid of cells.
//!
//! Every fractional quantity (intensities, rates, colour channels, world
//! coordinates, time steps) is a fixed-point integer counted in millionths,
//! see [`fixed::UNIT`].

pub mod colors;
pub mod config;
pub mod contagion;
pub mod fixed;
pub mod life;
pub mod moore;
pub mod random;
pub mod world;
