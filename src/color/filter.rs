//! Post-processing applied to a whole rendered image.

use vstd::prelude::*;

verus! {

/// A filter rewrites the pixels of a rendered image in place; it keeps
/// their number and their order.
pub trait Filter<P> {
    fn apply_filter(&self, render: &mut Vec<P>)
        ensures
            final(render)@.len() == old(render)@.len(),
    ;
}

} // verus!
