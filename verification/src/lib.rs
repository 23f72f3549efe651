//! Real-time Morse tone decoding: band-pass filtering in fixed-point
//! arithmetic, amplitude-threshold tone detection, timing-based symbol
//! decoding, and diff-based terminal rendering.

pub mod decoder;
pub mod detector;
pub mod filter;
pub mod pipeline;
pub mod render;
pub mod text;
