//! Strongly-typed color-space values for palette grading.
//!
//! A palette entry stores gamma-encoded, legal-range (headroom and footroom
//! limited) luma and chroma bytes. Grading decodes such a triple to linear
//! RGB, rescales it, and re-encodes it; the transfer functions work in
//! non-integer light values and live with the unverified numeric code, while
//! this module fixes which bytes of a palette entry a grade may touch: the
//! luma and the two chroma bytes, never the index or the alpha.

use vstd::prelude::*;
use crate::seg::PalEntry;

verus! {

/// A gamma-encoded, legal-range YCbCr triple as stored in a palette entry.
#[derive(Clone, Copy, PartialEq, Eq, Structural, Debug)]
pub struct YcbcrGammaPixel {
    pub y: u8,
    pub cb: u8,
    pub cr: u8,
}

impl YcbcrGammaPixel {
    /// The color triple of a palette entry, without its index and alpha.
    pub fn from_pal_entry(e: &PalEntry) -> (r: YcbcrGammaPixel)
        ensures
            r.y == e.y,
            r.cb == e.cb,
            r.cr == e.cr,
    {
        YcbcrGammaPixel { y: e.y, cb: e.cb, cr: e.cr }
    }

    /// Writes a graded triple back into a palette entry: the index and the
    /// alpha are kept, only the color bytes change.
    pub fn apply_to_pal_entry(&self, e: &mut PalEntry)
        ensures
            final(e).y == self.y,
            final(e).cb == self.cb,
            final(e).cr == self.cr,
            final(e).index == old(e).index,
            final(e).alpha == old(e).alpha,
    {
        e.y = self.y;
        e.cb = self.cb;
        e.cr = self.cr;
    }
}

} // verus!
