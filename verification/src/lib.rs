//! A verified raycasting engine for tile-based maps.
//!
//! For each screen column a ray is cast from the camera into a grid of wall
//! cells; a digital differential analyzer (DDA) walk finds the first occupied
//! cell, and the hit is projected to a vertical textured wall span. All
//! geometry is carried in exact fixed-point arithmetic, with one map cell
//! split into `fixed::FP_ONE` units, so every quantity the engine computes is
//! pinned down by its contract.

pub mod camera;
pub mod fixed;
pub mod map;
pub mod project;
pub mod ray;
pub mod render;
pub mod vec2;
