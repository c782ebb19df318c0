//! Colours in their final integer form, and filters over rendered images.

pub mod antialias;
pub mod filter;
pub mod rgb;
pub mod rgb24;
