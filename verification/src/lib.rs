//! A path tracer for scenes of spheres, computed in decimal fixed point.
//!
//! Every number is a [`fixed::Fixed`]: a signed count of billionths that
//! saturates instead of overflowing, so each operation is total and has an
//! exact integer meaning that the contracts state.

pub mod accuracy;
pub mod camera;
pub mod fixed;
pub mod material;
pub mod math;
pub mod object;
pub mod random;
pub mod render;
pub mod sampler;
pub mod scene;
