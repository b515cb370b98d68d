//! A hardware abstraction layer for the Game Boy Advance.
//!
//! The display is kept as one value, [`video::memory::VideoMemory`]. A [`video::Control`]
//! owns it, and its type says which mode the display is in. Layers, tile maps and objects
//! are reached through handles that borrow the display: a handle of a layer or of an object
//! takes every change in a copy of its own and writes it back once, when it is committed.
//!
//! [`block::Blocks`] hands out room in object tile memory, and [`bitset::Bitset128`] the slots
//! of the objects.
use vstd::prelude::*;

pub mod assets;
pub mod bits;
pub mod bitset;
pub mod block;
pub mod exec;
pub mod input;
pub mod planckrand;
pub mod unique_id;
pub mod video;
pub mod volmatrix;

verus! {

} // verus!
