//! The motion and collision core of an asteroids arcade game: a ship that
//! turns, thrusts and fires, bullets, and asteroids that drift and split, on
//! a field whose edges join.
//!
//! Every quantity is a fixed-point number, an `i64` that counts units of
//! 2^-32 (see [`scalar`]): coordinates, speeds, times in seconds and angles
//! in radians. Results are computed exactly and stored with saturation, so
//! that the functions of this crate are total; the intersection test
//! compares exact products and never rounds (see [`wide`]).
//!
//! The crate draws nothing and reads no keys. A program around it hands it
//! the time that has passed and the keys that went down and came up
//! ([`scene::Event`]), and draws what it holds.

pub mod scalar;
pub mod wide;
pub mod point;
pub mod intersect;
pub mod trig;
pub mod chance;
pub mod config;
pub mod actors;
pub mod bullet;
pub mod ship;
pub mod astroid;
pub mod scene;
