//! Packed 24-bit pixel buffers: three bytes per pixel, red, green and blue,
//! with consecutive rows `pitch` bytes apart.

use crate::color::rgb::{RgbColor, level_byte};
use vstd::arithmetic::div_mod::lemma_fundamental_div_mod_converse;
use vstd::prelude::*;

verus! {

/// The index of the first byte of pixel `(x, y)`, `y` counting rows from
/// the start of the buffer.
pub open spec fn pixel_offset(pitch: nat, x: nat, y: nat) -> nat {
    y * pitch + 3 * x
}

/// The colour held by the three bytes of pixel `(x, y)`.
pub open spec fn pixel_at(bytes: Seq<u8>, pitch: nat, x: nat, y: nat) -> RgbColor {
    let o = pixel_offset(pitch, x, y) as int;
    RgbColor { r: bytes[o] as u64, g: bytes[o + 1] as u64, b: bytes[o + 2] as u64 }
}

/// Writes `c` into the three bytes of pixel `(x, y)`, each level saturated
/// at 255; the rest of the buffer is left as it was.
pub fn store_pixel(buffer: &mut [u8], pitch: usize, x: usize, y: usize, c: RgbColor)
    requires
        y * pitch + 3 * x + 3 <= old(buffer)@.len(),
    ensures
        ({
            let o = pixel_offset(pitch as nat, x as nat, y as nat) as int;
            final(buffer)@ == old(buffer)@.update(o, level_byte(c.r)).update(
                o + 1,
                level_byte(c.g),
            ).update(o + 2, level_byte(c.b))
        }),
{
    let (r, g, b) = c.to_rgb24();
    let len = buffer.len();
    assert(y * pitch + 3 * x + 3 <= len);
    let o = y * pitch + 3 * x;
    buffer[o] = r;
    buffer[o + 1] = g;
    buffer[o + 2] = b;
}

/// The first `rows` rows of `width` pixels each, read row after row.
pub fn decode_rows(buffer: &[u8], pitch: usize, width: usize, rows: usize) -> (pixels: Vec<
    RgbColor,
>)
    requires
        3 * width <= pitch,
        rows * pitch <= buffer@.len(),
    ensures
        pixels@.len() == rows * width,
        forall|i: int|
            0 <= i < pixels@.len() ==> #[trigger] pixels@[i] == pixel_at(
                buffer@,
                pitch as nat,
                (i % width as int) as nat,
                (i / width as int) as nat,
            ),
{
    let mut pixels: Vec<RgbColor> = Vec::new();
    let len = buffer.len();
    assert(0 * width == 0);
    for y in 0..rows
        invariant
            3 * width <= pitch,
            rows * pitch <= buffer@.len(),
            len == buffer@.len(),
            pixels@.len() == y * width,
            forall|i: int|
                0 <= i < pixels@.len() ==> #[trigger] pixels@[i] == pixel_at(
                    buffer@,
                    pitch as nat,
                    (i % width as int) as nat,
                    (i / width as int) as nat,
                ),
    {
        for x in 0..width
            invariant
                y < rows,
                3 * width <= pitch,
                rows * pitch <= buffer@.len(),
                len == buffer@.len(),
                pixels@.len() == y * width + x,
                forall|i: int|
                    0 <= i < pixels@.len() ==> #[trigger] pixels@[i] == pixel_at(
                        buffer@,
                        pitch as nat,
                        (i % width as int) as nat,
                        (i / width as int) as nat,
                    ),
        {
            proof {
                assert(y * pitch + 3 * x + 3 <= rows * pitch && y * pitch <= rows * pitch)
                    by (nonlinear_arith)
                    requires
                        y < rows,
                        x < width,
                        3 * width <= pitch,
                ;
                lemma_fundamental_div_mod_converse(y * width + x, width as int, y as int, x as int);
            }
            let o = y * pitch + 3 * x;
            pixels.push(RgbColor { r: buffer[o] as u64, g: buffer[o + 1] as u64, b: buffer[o + 2] as u64 });
        }
        assert((y + 1) * width == y * width + width) by (nonlinear_arith);
    }
    pixels
}

} // verus!
