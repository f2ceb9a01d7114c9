//! A Monte-Carlo path tracer over exact fixed-point arithmetic.
//!
//! Scalars are `i64` counts of `1/65536`, so every geometric computation has
//! an exact integer semantics that the contracts below pin down: ray-sphere
//! intersection, material scattering, the recursive color integrator, the
//! camera's ray generation, and the message protocol of the worker pool that
//! fans the per-pixel work out. Entropy for the Monte-Carlo sampling enters
//! through a single trusted wrapper around the `rand` crate; every function
//! that consumes randomness takes the drawn values as arguments, so its
//! result is a mathematical function of its inputs.

pub mod camera;
pub mod custom_function;
pub mod fixed;
pub mod hittable;
pub mod hittable_list;
pub mod interval;
pub mod material;
pub mod ray;
pub mod render_backend;
pub mod rng;
pub mod sphere;
pub mod thread_pool;
pub mod vec3;
