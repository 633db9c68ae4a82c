//! A ray caster for a single sphere, in exact integer arithmetic.
//!
//! One ray per pixel is cast from a pinhole camera into a scene that holds
//! one sphere; a pixel whose ray hits takes the colour of the sphere.
//!
//! Vectors live on the integer lattice, so every quantity the renderer
//! decides on (dot products, the coefficients of the ray-sphere quadratic,
//! its discriminant) is computed without rounding and is stated exactly in
//! a contract. What these integers mean for real vectors, unit directions
//! and Euclidean distances is proved in [`reals`].
//!
//! - [`vector`]: lattice vectors, dot product, squared length.
//! - [`sphere`]: rays, spheres and the intersection test.
//! - [`render`]: the camera, the scene and the raster loop.
//! - [`image`]: the frame buffer as a PNG stream.
//! - [`reals`]: the same geometry over the real numbers.
//! - [`algebra`]: the facts of arithmetic that the proofs rest on.

pub mod algebra;
pub mod image;
pub mod reals;
pub mod render;
pub mod sphere;
pub mod vector;
