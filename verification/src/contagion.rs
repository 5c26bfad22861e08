//! The weighted model: every cell and every entity holds a set of emotions,
//! each with its own intensity, and emotions spread by distance.

pub mod emotion_set;
pub mod emotions;
pub mod entity;
pub mod grid;
