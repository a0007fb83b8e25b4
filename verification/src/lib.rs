//! The simulation core of a small 3D diorama: a flock that steers by
//! separation, alignment and cohesion, entities that bob, pulse, sway and
//! patrol with the passing of time, and the rules by which the scene pauses
//! and the player moves.
//!
//! Nothing here draws, listens or waits. Every function takes plain values
//! and returns plain values, and all numbers are exact: a [`fixed::Fixed`]
//! counts millionths, a [`vector::Vec3`] holds three of them, and every
//! rounding is toward zero. Apart from the random draws of [`spawn`], the
//! same inputs give the same outputs on every machine.

pub mod fixed;
pub mod trig;
pub mod vector;
pub mod flock;
pub mod oscillator;
pub mod patrol;
pub mod spawn;
pub mod state;
pub mod picking;
pub mod firstsight;
