//! A recursive sphere path tracer on fixed-point arithmetic.
//!
//! Geometry, materials, camera and the light-transport integrator work on
//! `Fx`, a signed binary fixed-point scalar, so every arithmetic step has an
//! exact, machine-checked meaning. Randomness for stochastic sampling comes
//! from a pseudo-random source wrapped behind a small trusted interface.
pub mod camera;
pub mod color;
pub mod fixed;
pub mod hittable;
pub mod hittable_list;
pub mod material;
pub mod ray;
pub mod render;
pub mod rng;
pub mod sphere;
pub mod vec3;
