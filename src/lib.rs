//! Rasterisation of parametric spheres into a grid of shaded text characters.
//!
//! Geometry and light are fixed-point integers (see `fixed`). Angles come as
//! their cosine and sine; from them the library builds points, rotates the
//! scene, samples sphere surfaces, projects each sample through a perspective
//! camera, keeps the nearest sample of each pixel, lights it and serialises
//! the grid to text. A zero-depth projection, where a point lies in the
//! camera's depth plane, is discarded like a point outside the grid.
pub mod fixed;
pub mod geometry;
pub mod shade;
pub mod canvas;
pub mod animation;
pub mod sphere;
pub mod scene;
