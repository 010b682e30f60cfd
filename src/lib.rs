//! Instance batching and pipeline-key management for instanced vector shapes.
//!
//! Shapes are collected each frame with a material fingerprint, grouped by material,
//! matched against views, sorted by depth and merged into draw ranges.
pub mod material;
pub mod key;
pub mod pipeline;
pub mod visibility;
pub mod store;
pub mod phase;
pub mod upload;
pub mod merge;
pub mod queue;
pub mod flags;
pub mod json;
pub mod texture;
