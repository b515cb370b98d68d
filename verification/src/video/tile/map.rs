//! The sizes of tile maps.
use crate::video::structs::Pos;
use vstd::prelude::*;

verus! {

/// A rectangular region of a map, in tiles.
#[derive(Clone, Copy, Debug, PartialEq, Eq, Structural)]
pub struct Rect {
    /// Number of columns.
    pub width: u16,
    /// Number of rows.
    pub height: u16,
}

impl Rect {
    /// Whether `pos` lies inside the region.
    pub open spec fn holds(self, pos: Pos) -> bool {
        pos.x < self.width && pos.y < self.height
    }

    /// Whether `pos` lies inside the region.
    pub fn contains(&self, pos: Pos) -> (inside: bool)
        ensures
            inside == self.holds(pos),
    {
        pos.x < self.width && pos.y < self.height
    }
}

/// The size of a tile map of a text layer.
#[derive(Clone, Copy, Debug, PartialEq, Eq, Structural)]
pub enum TextSize {
    /// 32 by 32 tiles.
    Base,
    /// 64 by 32 tiles.
    Long,
    /// 32 by 64 tiles.
    Tall,
    /// 64 by 64 tiles.
    Large,
}

impl TextSize {
    /// The tiles of a map of this size.
    pub open spec fn bounds(self) -> Rect {
        match self {
            TextSize::Base => Rect { width: 32, height: 32 },
            TextSize::Long => Rect { width: 64, height: 32 },
            TextSize::Tall => Rect { width: 32, height: 64 },
            TextSize::Large => Rect { width: 64, height: 64 },
        }
    }

    /// The code of the size in the layer control register.
    pub open spec fn code(self) -> u16 {
        match self {
            TextSize::Base => 0,
            TextSize::Long => 1,
            TextSize::Tall => 2,
            TextSize::Large => 3,
        }
    }

    /// The tiles of a map of this size.
    pub fn region(&self) -> (rect: Rect)
        ensures
            rect == self.bounds(),
    {
        match self {
            TextSize::Base => Rect { width: 32, height: 32 },
            TextSize::Long => Rect { width: 64, height: 32 },
            TextSize::Tall => Rect { width: 32, height: 64 },
            TextSize::Large => Rect { width: 64, height: 64 },
        }
    }

    /// The number of tiles in a row.
    pub fn width(self) -> (width: u16)
        ensures
            width == self.bounds().width,
    {
        self.region().width
    }

    /// The number of tiles in a column.
    pub fn height(self) -> (height: u16)
        ensures
            height == self.bounds().height,
    {
        self.region().height
    }

    /// The code of the size in the layer control register.
    pub fn bits(self) -> (code: u16)
        ensures
            code == self.code(),
    {
        match self {
            TextSize::Base => 0,
            TextSize::Long => 1,
            TextSize::Tall => 2,
            TextSize::Large => 3,
        }
    }
}

/// The size of a tile map of an affine layer.
#[derive(Clone, Copy, Debug, PartialEq, Eq, Structural)]
pub enum AffineSize {
    /// 16 by 16 tiles.
    Base,
    /// 32 by 32 tiles.
    Double,
    /// 64 by 64 tiles.
    Quad,
    /// 128 by 128 tiles.
    Octo,
}

impl AffineSize {
    /// The tiles of a map of this size.
    pub open spec fn bounds(self) -> Rect {
        match self {
            AffineSize::Base => Rect { width: 16, height: 16 },
            AffineSize::Double => Rect { width: 32, height: 32 },
            AffineSize::Quad => Rect { width: 64, height: 64 },
            AffineSize::Octo => Rect { width: 128, height: 128 },
        }
    }

    /// The code of the size in the layer control register.
    pub open spec fn code(self) -> u16 {
        match self {
            AffineSize::Base => 0,
            AffineSize::Double => 1,
            AffineSize::Quad => 2,
            AffineSize::Octo => 3,
        }
    }

    /// The tiles of a map of this size.
    pub fn region(self) -> (rect: Rect)
        ensures
            rect == self.bounds(),
    {
        match self {
            AffineSize::Base => Rect { width: 16, height: 16 },
            AffineSize::Double => Rect { width: 32, height: 32 },
            AffineSize::Quad => Rect { width: 64, height: 64 },
            AffineSize::Octo => Rect { width: 128, height: 128 },
        }
    }

    /// The number of tiles in a row.
    pub fn width(self) -> (width: u16)
        ensures
            width == self.bounds().width,
    {
        self.region().width
    }

    /// The number of tiles in a column.
    pub fn height(self) -> (height: u16)
        ensures
            height == self.bounds().height,
    {
        self.region().height
    }

    /// The number of tiles of the map.
    pub fn surface_size(self) -> (tiles: u16)
        ensures
            tiles == self.bounds().width * self.bounds().height,
    {
        self.width() * self.height()
    }

    /// The code of the size in the layer control register.
    pub fn bits(self) -> (code: u16)
        ensures
            code == self.code(),
    {
        match self {
            AffineSize::Base => 0,
            AffineSize::Double => 1,
            AffineSize::Quad => 2,
            AffineSize::Octo => 3,
        }
    }
}

} // verus!
