//! Simulation core of a two-paddle ball game.
//!
//! The core advances ball and paddle state one frame at a time, resolves
//! collisions against a rectangular field and two paddles, drives a
//! rubber-banding enemy paddle, and tracks scoring and a speed-escalation
//! counter.  All geometry is carried in fixed-point coordinates: an `i64`
//! holds thousandths of a pixel, so the arithmetic is exact and every
//! function of the core is verified.  Rendering and input sit outside the
//! core; they feed it plain values and read its public state back.

pub mod fixed;
pub mod point;
pub mod rect;
pub mod ball;
pub mod pad;
pub mod collisions;
pub mod ai;
pub mod pong;
