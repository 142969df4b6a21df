//! Verified core of a small suite of interactive WebGL rendering demos.
//!
//! The crate holds the two algorithmic subsystems the demos share — the
//! recursive midpoint tessellators that approximate Sierpinski-style fractals,
//! and the bounded vertex accumulator that captures pointer input into a
//! fixed-capacity buffer — together with the vector primitives they are built
//! on. Coordinates are fixed-point numbers: an `i64` raw value counts units of
//! `1 / fixed::ONE` of the rendering surface's coordinate space, so every
//! operation here is exact integer arithmetic with stated rounding.
//!
//! Everything that owns a GPU context, compiles shaders or listens for events
//! is an unverified collaborator and lives outside this crate; it exchanges
//! plain vertex data with the functions here.

pub mod fixed;
pub mod linear_algebra;
pub mod accumulator;
pub mod chaos;
pub mod color;
pub mod tessellation;
