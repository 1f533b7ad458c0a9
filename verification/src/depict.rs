//! What a renderer asks of anything it draws.

use vstd::prelude::*;
use crate::rgb::RGB;

verus! {

/// Something that can be drawn as one coloured glyph.
pub trait Depict {
    /// The colour it is drawn in.
    spec fn shown_color(&self) -> RGB;

    /// The glyph it is drawn as: up to four bytes of UTF-8.
    spec fn shown_utf8(&self) -> [u8; 4];

    fn color(&self) -> (color: RGB)
        ensures
            color == self.shown_color(),
    ;

    fn utf8(&self) -> (utf8: [u8; 4])
        ensures
            utf8 == self.shown_utf8(),
    ;
}

} // verus!
