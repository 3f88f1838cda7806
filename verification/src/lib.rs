//! A tile-autotiling resolution engine.
//!
//! Given a grid of tile placements (material, team, variant directive) and a
//! prioritized catalog of tile descriptors, the library decides, for each
//! tile, which concrete sprite variant to render, based on the solidity
//! pattern of its eight neighbors, with deterministic seeded tie-breaking for
//! "random" variants.

pub mod bytes;
pub mod catalog;
pub mod coords;
pub mod engine;
pub mod descriptor;
pub mod grid;
pub mod resolver;
pub mod script;
pub mod seed;
pub mod tiles;
