//! The colour depth of tile bitmaps.
use vstd::prelude::*;

verus! {

/// How many bits a pixel of a tile bitmap takes.
///
/// With [`Bit8`] a pixel is an index into the whole palette of 256 colours. With [`Bit4`] it
/// is an index into one bank of 16 colours, and the tile map picks the bank for each tile.
pub trait ColorMode {
    /// The flag of the layer control register that selects this depth: set for 8 bits.
    spec fn is_8bit() -> bool;

    /// The flag of the layer control register that selects this depth.
    fn raw_repr() -> (flag: bool)
        ensures
            flag == Self::is_8bit(),
    ;
}

/// Tiles with 8 bits per pixel.
pub struct Bit8;

impl ColorMode for Bit8 {
    open spec fn is_8bit() -> bool {
        true
    }

    fn raw_repr() -> (flag: bool) {
        true
    }
}

/// Tiles with 4 bits per pixel.
pub struct Bit4;

impl ColorMode for Bit4 {
    open spec fn is_8bit() -> bool {
        false
    }

    fn raw_repr() -> (flag: bool) {
        false
    }
}

} // verus!
