//! A small arena of combat units with a temporal replay mechanic.
//!
//! Units steer toward target points, engage enemies in range, fire, collide
//! and die; every unit records a bounded timeline of snapshots that can be
//! played back forward (repeat) or backward (reverse) by a ghost actor.
pub mod geometry;
pub mod component;
pub mod world;
pub mod replay;
pub mod action;
pub mod bullet;
pub mod health;
pub mod movement;
pub mod spawn;
pub mod animation;
pub mod game;
pub mod input;
pub mod schedule;
