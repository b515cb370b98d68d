//! Structs shared by the video modules.
use vstd::prelude::*;
use vstd::std_specs::ops::AddSpecImpl;
use vstd::std_specs::ops::SubSpecImpl;

verus! {

/// A position: a tile of a tile map, or the coordinates of an object.
#[derive(Clone, Copy, Debug, PartialEq, Eq, Structural)]
pub struct Pos {
    pub x: u16,
    pub y: u16,
}

impl Pos {
    /// The position `value` tiles to the right of the origin.
    pub fn x(value: u16) -> (pos: Self)
        ensures
            pos == (Pos { x: value, y: 0 }),
    {
        Pos { x: value, y: 0 }
    }

    /// The position `value` tiles below the origin.
    pub fn y(value: u16) -> (pos: Self)
        ensures
            pos == (Pos { x: 0, y: value }),
    {
        Pos { x: 0, y: value }
    }
}

impl Default for Pos {
    /// The origin.
    fn default() -> (pos: Self)
        ensures
            pos == (Pos { x: 0, y: 0 }),
    {
        Pos { x: 0, y: 0 }
    }
}

impl core::ops::Add for Pos {
    type Output = Pos;

    /// Adds the coordinates one by one. A sum past `u16::MAX` is left out: the sum of two
    /// positions that lie on a map never is.
    fn add(self, other: Pos) -> (sum: Pos) {
        Pos { x: self.x + other.x, y: self.y + other.y }
    }
}

impl AddSpecImpl for Pos {
    open spec fn obeys_add_spec() -> bool {
        true
    }

    open spec fn add_req(self, other: Pos) -> bool {
        self.x + other.x <= u16::MAX && self.y + other.y <= u16::MAX
    }

    open spec fn add_spec(self, other: Pos) -> Pos {
        Pos { x: (self.x + other.x) as u16, y: (self.y + other.y) as u16 }
    }
}

impl core::ops::Sub for Pos {
    type Output = Pos;

    /// Subtracts the coordinates one by one. A difference below zero is left out.
    fn sub(self, other: Pos) -> (difference: Pos) {
        Pos { x: self.x - other.x, y: self.y - other.y }
    }
}

impl SubSpecImpl for Pos {
    open spec fn obeys_sub_spec() -> bool {
        true
    }

    open spec fn sub_req(self, other: Pos) -> bool {
        self.x >= other.x && self.y >= other.y
    }

    open spec fn sub_spec(self, other: Pos) -> Pos {
        Pos { x: (self.x - other.x) as u16, y: (self.y - other.y) as u16 }
    }
}

} // verus!
