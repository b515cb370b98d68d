//! The display modes.
use crate::video::tile::layer;
use vstd::prelude::*;

verus! {

/// The display modes by name.
#[derive(Clone, Copy, Debug, PartialEq, Eq, Structural)]
pub enum Type {
    Text,
    Mixed,
    Affine,
}

impl Type {
    /// The code of the mode in the display control register.
    pub open spec fn code(self) -> u16 {
        match self {
            Type::Text => 0,
            Type::Mixed => 1,
            Type::Affine => 2,
        }
    }

    /// The code of the mode in the display control register.
    pub fn bits(self) -> (code: u16)
        ensures
            code == self.code(),
    {
        match self {
            Type::Text => 0,
            Type::Mixed => 1,
            Type::Affine => 2,
        }
    }
}

/// A display mode, as a type: what a `Control` can do depends on it.
///
/// | Mode       | Layers  | Tile maps                 | Features        |
/// |:----------:|:-------:|:-------------------------:|:---------------:|
/// | [`Text`]   | 0,1,2,3 | 32 or 64 tiles a side     | scroll, flip    |
/// | [`Mixed`]  | 0,1,2   | layers 0 and 1 as `Text`, layer 2 as `Affine` | |
/// | [`Affine`] | 2,3     | 16 to 128 tiles a side    | scroll, affine  |
pub trait Mode {
    /// The mode that the type stands for.
    spec fn kind() -> Type;

    /// The mode that the type stands for.
    fn mode_type() -> (mode: Type)
        ensures
            mode == Self::kind(),
    ;
}

/// A mode whose layers are all of one kind, which `Slot` names.
pub trait Background: Mode {
    /// The names of the layers of this kind.
    type Slot: layer::Slot;
}

/// A mode that draws from tiles and tile maps.
pub trait Tile: Mode {
}

/// Text mode: four layers of tiles, 4 or 8 bits per pixel, each tile flipped on its own.
pub struct Text;

impl Mode for Text {
    open spec fn kind() -> Type {
        Type::Text
    }

    fn mode_type() -> (mode: Type) {
        Type::Text
    }
}

impl Tile for Text {
}

impl Background for Text {
    type Slot = layer::text::Slot;
}

/// Mixed mode: layers 0 and 1 as in [`Text`], layer 2 as in [`Affine`].
pub struct Mixed;

impl Mode for Mixed {
    open spec fn kind() -> Type {
        Type::Mixed
    }

    fn mode_type() -> (mode: Type) {
        Type::Mixed
    }
}

impl Tile for Mixed {
}

/// Affine mode: layers 2 and 3, 8 bits per pixel, with scrolling, rotation and scaling.
///
/// A tile of an affine map is one byte, and video memory takes writes of 16 bits only: two
/// tiles share a word.
pub struct Affine;

impl Mode for Affine {
    open spec fn kind() -> Type {
        Type::Affine
    }

    fn mode_type() -> (mode: Type) {
        Type::Affine
    }
}

impl Tile for Affine {
}

impl Background for Affine {
    type Slot = layer::affine::Slot;
}

} // verus!
