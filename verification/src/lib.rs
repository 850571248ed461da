//! Verified core of an After Effects GPU experiment pipeline.
//!
//! - `probe`: the host's native GPU state and its classification.
//! - `external`, `d3d12`, `metal`: the preflight that guards an import of a
//!   native GPU resource, and the importers built on it.
//! - `frame`: RGBA8 frames, effect selection, timings, the frame checksum.
//! - `cpu`: the integer CPU effects.
//! - `layer`: moving pixels between host layers and frames.
//! - `plan`: the decisions of the render hosts.
pub mod probe;
pub mod external;
pub mod d3d12;
pub mod metal;
pub mod frame;
pub mod cpu;
pub mod layer;
pub mod plan;
