//! Ray tracer support library: colours in their final integer form, their
//! textual encodings and packed 24-bit buffers, image filters, and the order
//! in which the pixels of an image are rendered.

pub mod numerals;
pub mod color;
pub mod ppm;
pub mod scan;
