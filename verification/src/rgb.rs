//! Display colours.

use vstd::prelude::*;

verus! {

/// A display colour, one byte per channel.
#[derive(Copy, Clone, Debug, PartialEq, Eq, Structural)]
pub struct RGB {
    pub r: u8,
    pub g: u8,
    pub b: u8,
}

} // verus!
