//! Antialiasing by averaging neighbouring pixels in chunks.

use crate::color::filter::Filter;
use vstd::prelude::*;

verus! {

/// The image width an antialiasing filter assumes until told otherwise.
pub const DEFAULT_IMAGE_WIDTH: u32 = 400;

/// Antialiasing over chunks of `pixels_per_chunk` pixels. Sampling inside
/// the renderer already averages jittered rays per pixel, so this filter
/// leaves the image as it is.
pub struct AntialiasingFilter {
    pub pixels_per_chunk: u32,
    pub image_width: u32,
}

impl AntialiasingFilter {
    pub fn new(pixels_per_chunk: u32) -> (f: AntialiasingFilter)
        ensures
            f.pixels_per_chunk == pixels_per_chunk,
            f.image_width == DEFAULT_IMAGE_WIDTH,
    {
        AntialiasingFilter { pixels_per_chunk, image_width: DEFAULT_IMAGE_WIDTH }
    }
}

impl<P> Filter<P> for AntialiasingFilter {
    fn apply_filter(&self, render: &mut Vec<P>)
        ensures
            final(render)@ == old(render)@,
    {
    }
}

} // verus!
