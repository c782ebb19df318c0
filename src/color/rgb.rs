//! A colour whose channels have been quantized to integers, ready to be
//! written out.

use crate::numerals::{decimal, hex_byte, push_decimal, push_hex_byte};
use vstd::prelude::*;

verus! {

/// A quantized colour: each channel is an integer level, `0..=255` for a
/// colour whose unit channels lie in `[0, 1]`.
#[derive(Clone, Copy, Debug, PartialEq, Eq, Structural)]
pub struct RgbColor {
    pub r: u64,
    pub g: u64,
    pub b: u64,
}

/// `#rrggbb`: a hash, then each channel in lower-case hex, two digits at least.
pub open spec fn hex_text(c: RgbColor) -> Seq<char> {
    seq!['#'] + hex_byte(c.r as nat) + hex_byte(c.g as nat) + hex_byte(c.b as nat)
}

/// `r g b`: the three channels in decimal, separated by single spaces.
pub open spec fn triplet_text(c: RgbColor) -> Seq<char> {
    decimal(c.r as nat) + seq![' '] + decimal(c.g as nat) + seq![' '] + decimal(c.b as nat)
}

/// A channel level as a byte: levels above 255 saturate.
pub open spec fn level_byte(level: u64) -> u8 {
    if level > 255 {
        255
    } else {
        level as u8
    }
}

impl RgbColor {
    /// The colour with levels `r`, `g` and `b`.
    pub fn new(r: u64, g: u64, b: u64) -> (c: RgbColor)
        ensures
            c == (RgbColor { r, g, b }),
    {
        RgbColor { r, g, b }
    }

    /// The colour as three bytes, red, green and blue, each level saturated
    /// at 255.
    pub fn to_rgb24(self) -> (bytes: (u8, u8, u8))
        ensures
            bytes == (level_byte(self.r), level_byte(self.g), level_byte(self.b)),
    {
        let r = if self.r > 255 { 255 } else { self.r as u8 };
        let g = if self.g > 255 { 255 } else { self.g as u8 };
        let b = if self.b > 255 { 255 } else { self.b as u8 };
        (r, g, b)
    }

    /// The colour as `#rrggbb`.
    pub fn hex(self) -> (s: String)
        ensures
            s@ == hex_text(self),
    {
        let mut s = String::new();
        proof {
            reveal_strlit("#");
        }
        s.append("#");
        push_hex_byte(&mut s, self.r);
        push_hex_byte(&mut s, self.g);
        push_hex_byte(&mut s, self.b);
        assert(s@ =~= hex_text(self));
        s
    }

    /// The colour as `r g b`, the form a plain-text pixel map holds.
    pub fn to_string(&self) -> (s: String)
        ensures
            s@ == triplet_text(*self),
    {
        let mut s = String::new();
        proof {
            reveal_strlit(" ");
        }
        push_decimal(&mut s, self.r);
        s.append(" ");
        push_decimal(&mut s, self.g);
        s.append(" ");
        push_decimal(&mut s, self.b);
        assert(s@ =~= triplet_text(*self));
        s
    }
}

} // verus!
