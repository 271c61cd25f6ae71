//! The decision kernel of a Monte Carlo path tracer.
//!
//! The kernel holds what a renderer decides: which root of a quadratic is a
//! hit, which of many hits is the nearest, when a light path ends, how the
//! output buffer is cut into chunks. Numbers are single-precision values
//! carried by their bit patterns; arithmetic on them is left to the caller.

pub mod scalar;
pub mod vector;
pub mod material;
pub mod ray;
pub mod camera;
pub mod hit;
pub mod scene;
pub mod sphere;
pub mod plane;
pub mod rectangle;
pub mod triangle;
pub mod integrator;
pub mod scheduler;
pub mod display;
