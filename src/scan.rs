//! The order in which the renderer visits the pixels of an image.

use vstd::arithmetic::div_mod::lemma_fundamental_div_mod_converse;
use vstd::prelude::*;

verus! {

/// The pixel at position `i` of the scan of an image `width` pixels wide and
/// `height` high: rows from the top of the image (the highest `y`) down, and
/// within a row `x` from left to right.
pub open spec fn scan_pixel(width: nat, height: nat, i: nat) -> (nat, nat) {
    ((i % width) as nat, (height - 1 - i / width) as nat)
}

/// Every pixel of the image has its place in the scan: pixel `(x, y)` is
/// visited at position `(height - 1 - y) * width + x`, which lies before
/// `width * height`.
pub proof fn lemma_scan_visits_every_pixel(width: nat, height: nat, x: nat, y: nat)
    requires
        x < width,
        y < height,
    ensures
        (height - 1 - y) * width + x < width * height,
        scan_pixel(width, height, ((height - 1 - y) * width + x) as nat) == (x, y),
{
    let row = (height - 1 - y) as nat;
    assert(row * width + x < width * height) by (nonlinear_arith)
        requires
            row < height,
            x < width,
    ;
    lemma_fundamental_div_mod_converse((row * width + x) as int, width as int, row as int, x as int);
}

/// The coordinates `(x, y)` of every pixel of the image, in scan order:
/// `width * height` of them, row-major, the top row (`y == height - 1`)
/// first.
pub fn scan_order(width: u32, height: u32) -> (order: Vec<(u32, u32)>)
    requires
        width * height <= usize::MAX,
    ensures
        order@.len() == width * height,
        forall|i: int|
            0 <= i < order@.len() ==> {
                let (x, y) = #[trigger] order@[i];
                (x as nat, y as nat) == scan_pixel(width as nat, height as nat, i as nat)
            },
{
    let mut order: Vec<(u32, u32)> = Vec::new();
    assert(0 * width == 0);
    for row in 0..height
        invariant
            order@.len() == row * width,
            width * height <= usize::MAX,
            forall|i: int|
                0 <= i < order@.len() ==> {
                    let (x, y) = #[trigger] order@[i];
                    (x as nat, y as nat) == scan_pixel(width as nat, height as nat, i as nat)
                },
    {
        let y = height - 1 - row;
        for x in 0..width
            invariant
                row < height,
                y == height - 1 - row,
                order@.len() == row * width + x,
                width * height <= usize::MAX,
                forall|i: int|
                    0 <= i < order@.len() ==> {
                        let (x, y) = #[trigger] order@[i];
                        (x as nat, y as nat) == scan_pixel(width as nat, height as nat, i as nat)
                    },
        {
            proof {
                lemma_fundamental_div_mod_converse(
                    row * width + x,
                    width as int,
                    row as int,
                    x as int,
                );
                assert(row * width + x < width * height) by (nonlinear_arith)
                    requires
                        row < height,
                        x < width,
                ;
            }
            order.push((x, y));
        }
        assert((row + 1) * width == row * width + width) by (nonlinear_arith);
    }
    assert(height * width == width * height) by (nonlinear_arith);
    order
}

} // verus!
