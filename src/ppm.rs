//! The plain-text pixel map format (`P3`): a header giving the size and the
//! maximum level, then one `r g b` line per pixel.

use crate::color::rgb::{RgbColor, triplet_text};
use crate::numerals::{decimal, push_decimal};
use vstd::prelude::*;

verus! {

/// `P3`, the width and height, and the maximum channel level 255, each on
/// its own line.
pub open spec fn header_text(width: nat, height: nat) -> Seq<char> {
    seq!['P', '3', '\n'] + decimal(width) + seq![' '] + decimal(height) + seq![
        '\n',
        '2',
        '5',
        '5',
        '\n',
    ]
}

/// Each pixel as `r g b` on a line of its own, in the order given.
pub open spec fn pixels_text(pixels: Seq<RgbColor>) -> Seq<char>
    decreases pixels.len(),
{
    if pixels.len() == 0 {
        Seq::empty()
    } else {
        pixels_text(pixels.drop_last()) + triplet_text(pixels.last()) + seq!['\n']
    }
}

/// The text of an image of the given `(width, height)` holding `render`.
pub open spec fn image_text(render: Seq<RgbColor>, dimensions: (u32, u32)) -> Seq<char> {
    header_text(dimensions.0 as nat, dimensions.1 as nat) + pixels_text(render)
}

/// Encodes `render` as a plain-text pixel map of the given dimensions.
pub fn encode_image(render: &Vec<RgbColor>, dimensions: (u32, u32)) -> (s: String)
    ensures
        s@ == image_text(render@, dimensions),
{
    let mut s = String::new();
    proof {
        reveal_strlit("P3\n");
        reveal_strlit(" ");
        reveal_strlit("\n255\n");
    }
    s.append("P3\n");
    push_decimal(&mut s, dimensions.0 as u64);
    s.append(" ");
    push_decimal(&mut s, dimensions.1 as u64);
    s.append("\n255\n");
    let ghost header = s@;
    assert(header =~= header_text(dimensions.0 as nat, dimensions.1 as nat));
    for i in 0..render.len()
        invariant
            s@ == header + pixels_text(render@.subrange(0, i as int)),
    {
        let line = render[i].to_string();
        s.append(line.as_str());
        proof {
            reveal_strlit("\n");
        }
        s.append("\n");
        proof {
            let done = render@.subrange(0, i + 1);
            assert(done.drop_last() =~= render@.subrange(0, i as int));
            assert(done.last() == render@[i as int]);
            assert(pixels_text(done) == pixels_text(done.drop_last()) + triplet_text(done.last())
                + seq!['\n']);
            assert(s@ =~= header + pixels_text(done));
        }
    }
    assert(render@.subrange(0, render@.len() as int) =~= render@);
    s
}

} // verus!
