//! Progressive decode-and-playback core of an animated overlay viewer.
//!
//! Quantities that the viewer receives as fractions (opacity, scale) are held
//! here as fixed-point integers in millionths.
pub mod message;
pub mod pixel;
pub mod producer;
pub mod store;
