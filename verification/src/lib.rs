//! Deterministic integer core of a procedural-noise toolkit: lattice hashing,
//! seeds, simplex corner ordering, Worley feature selection, grid traversal,
//! recipe descriptions and the preview-job scheduler.

pub mod grid;
pub mod hash;
pub mod image;
pub mod lattice;
pub mod seed;
pub mod recipe;
pub mod runtime;
pub mod simplex;
pub mod worley;

pub use hash::{hash2, hash3, hash4, mix32};
pub use seed::NoiseSeed;
