//! Compositing of SCP object labels: placement geometry, text layout,
//! image fitting and per-pixel blending, each stated as a contract and
//! proved against it.

pub mod render;
pub mod models;
pub mod utils;
