//! Deterministic identicon service core.
//!
//! A request-to-image pipeline: a query string is resolved into validated
//! options, a seed string is turned into a symmetric pattern grid, the grid
//! is rendered onto a square pixel canvas, and the canvas is encoded as PNG
//! or JPEG. Every stage is a pure function of its input.

pub mod color;
pub mod options;
pub mod pattern;
pub mod render;
pub mod codec;
pub mod handler;
