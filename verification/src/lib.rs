//! Verified core of a real-time rendering pipeline: camera matrices over
//! exact rational arithmetic, frustum-plane extraction, bounding-sphere
//! culling, per-drawable instance batching, offscreen-target sizing for a
//! two-pass compositor, frame-capture bookkeeping and frame statistics.

pub mod collision;
pub mod rat;
pub mod matrix;
pub mod types;
pub mod renderer;
pub mod posteffect;
pub mod utils;
