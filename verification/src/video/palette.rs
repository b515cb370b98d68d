//! Palettes.
use crate::video::tile::Color;
use vstd::prelude::*;

verus! {

/// The kinds of palette.
#[derive(Clone, Copy, Debug, PartialEq, Eq, Structural)]
pub enum Type {
    /// A bank of 16 colours, for tiles of 4 bits per pixel.
    Bank,
    /// Part of a palette.
    Dynamic,
    /// The whole palette of 256 colours, for tiles of 8 bits per pixel.
    Full,
}

/// A palette that knows its kind.
pub trait Palette {
    /// The kind of the palette.
    spec fn kind() -> Type;

    /// The kind of the palette.
    fn palette_type() -> (kind: Type)
        ensures
            kind == Self::kind(),
    ;
}

/// The number of a palette bank, which a tile of a text map can name.
#[derive(Clone, Copy, Debug, PartialEq, Eq, Structural)]
pub struct BankHandle {
    pub id: u16,
}

/// Part of a palette: any number of colours.
pub struct Dynamic {
    data: &'static [Color],
}

impl Palette for Dynamic {
    open spec fn kind() -> Type {
        Type::Dynamic
    }

    fn palette_type() -> (kind: Type) {
        Type::Dynamic
    }
}

impl Dynamic {
    /// The colours.
    pub closed spec fn view(&self) -> Seq<Color> {
        self.data@
    }

    /// A palette of the colours `data`.
    pub fn new(data: &'static [Color]) -> (palette: Self)
        ensures
            palette@ == data@,
    {
        Dynamic { data }
    }

    /// The colours.
    pub fn get(&self) -> (data: &[Color])
        ensures
            data@ == self@,
    {
        self.data
    }
}

/// The whole palette: 256 colours.
pub struct Full {
    data: &'static [Color],
}

impl Palette for Full {
    open spec fn kind() -> Type {
        Type::Full
    }

    fn palette_type() -> (kind: Type) {
        Type::Full
    }
}

impl Full {
    /// The colours.
    pub closed spec fn view(&self) -> Seq<Color> {
        self.data@
    }

    /// A palette of the 256 colours `data`.
    pub fn new(data: &'static [Color]) -> (palette: Self)
        requires
            data@.len() == 256,
        ensures
            palette@ == data@,
    {
        Full { data }
    }

    /// The colours.
    pub fn get(&self) -> (data: &[Color])
        ensures
            data@ == self@,
    {
        self.data
    }
}

/// One bank of a palette: 16 colours.
pub struct Bank {
    data: &'static [Color],
}

impl Palette for Bank {
    open spec fn kind() -> Type {
        Type::Bank
    }

    fn palette_type() -> (kind: Type) {
        Type::Bank
    }
}

impl Bank {
    /// The colours.
    pub closed spec fn view(&self) -> Seq<Color> {
        self.data@
    }

    /// A bank of the 16 colours `data`.
    pub fn new(data: &'static [Color]) -> (palette: Self)
        requires
            data@.len() == 16,
        ensures
            palette@ == data@,
    {
        Bank { data }
    }

    /// The colours.
    pub fn get(&self) -> (data: &[Color])
        ensures
            data@ == self@,
    {
        self.data
    }
}

} // verus!
