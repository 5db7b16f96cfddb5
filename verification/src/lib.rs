//! Verified core of the Cyrene Compass launcher: window placement, the
//! desktop compass gesture, command-line handling and update checks.

pub mod appearance;
pub mod command;
pub mod compass;
pub mod geometry;
pub mod gesture;
pub mod startup;
pub mod text;
pub mod update;
