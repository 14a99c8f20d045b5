//! Simulation core of a brick-breaking arcade game: entities, level layouts,
//! collision resolution and the session state machine.
//!
//! Positions and velocities of moving entities are fixed-point values in
//! hundredths of a pixel; everything the collision tests look at is whole
//! pixels on an integer grid.

pub mod audio;
pub mod chance;
pub mod editor;
pub mod entities;
pub mod game;
pub mod geometry;
pub mod levels;
pub mod menu;
pub mod pattern;
pub mod physics;
pub mod settings;
