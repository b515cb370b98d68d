//! Tile bitmaps.
use crate::video::colmod::ColorMode;
use core::marker::PhantomData;
use vstd::prelude::*;

verus! {

/// The bitmaps of a set of tiles, as they lie in a character block.
pub struct Tileset<M: ColorMode> {
    data: &'static [u16],
    depth: PhantomData<M>,
}

impl<M: ColorMode> Tileset<M> {
    /// The half-words of the bitmaps.
    pub closed spec fn view(&self) -> Seq<u16> {
        self.data@
    }

    /// A tile set of the bitmaps `data`.
    pub fn new(data: &'static [u16]) -> (set: Self)
        ensures
            set@ == data@,
    {
        Tileset { data, depth: PhantomData }
    }

    /// The half-words of the bitmaps.
    pub fn get(&self) -> (data: &'static [u16])
        ensures
            data@ == self@,
    {
        self.data
    }
}

} // verus!
