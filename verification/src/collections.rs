//! Utilities and extensions for working with collections.

pub mod averaging_buffer;
pub mod more_hashset;
pub mod more_range;
pub mod vecmap;
