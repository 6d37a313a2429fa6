//! Renders live web pages as ANSI-256 half-block frames: palette and
//! perceptual quantizer, half-block converter, differential painter,
//! cursor overlay and the pipeline's decision logic.
pub mod types;
pub mod palette;
pub mod color;
pub mod quantizer;
pub mod halfblock;
pub mod paint;
pub mod encode;
pub mod renderer;
pub mod overlay;
pub mod control;
pub mod pipeline;
pub mod queue;
pub mod session;
