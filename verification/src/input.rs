//! The buttons.
//!
//! The key register holds one bit for each button, and the bit is 0 while the button is
//! down.
use vstd::prelude::*;
use vstd::std_specs::ops::BitOrSpecImpl;

verus! {

/// The state of the buttons: a bit is 0 while its button is down.
#[derive(Clone, Copy, Debug, PartialEq, Eq, Structural)]
pub struct Keys(pub u16);

impl Default for Keys {
    /// The state in which no button is down.
    fn default() -> (keys: Self)
        ensures
            keys.0 == 0xffff,
    {
        Keys(0xffff)
    }
}

impl Keys {
    /// The buttons of `keys` that are down: their bits are set.
    pub open spec fn down(self, keys: KeyGroup) -> u16 {
        keys.0 & !self.0
    }

    /// Whether any button of `keys` is down.
    pub fn any_pressed(self, keys: KeyGroup) -> (any: bool)
        ensures
            any == (self.down(keys) != 0),
    {
        let group = keys.0;
        let state = self.0;
        assert((group & state != group) == (group & !state != 0)) by (bit_vector);
        group & state != group
    }

    /// Whether all buttons of `keys` are down.
    pub fn all_pressed(self, keys: KeyGroup) -> (all: bool)
        ensures
            all == (self.down(keys) == keys.0),
    {
        let group = keys.0;
        let state = self.0;
        assert((group & state == 0) == (group & !state == group)) by (bit_vector);
        group & state == 0
    }
}

/// A direction of the directional pad.
#[derive(Clone, Copy, Debug, PartialEq, Eq, Structural)]
pub enum Dir {
    Right,
    Left,
    Up,
    Down,
}

impl Dir {
    /// The bit of the direction among the four of the pad.
    pub open spec fn code(self) -> u16 {
        match self {
            Dir::Right => 1,
            Dir::Left => 2,
            Dir::Up => 4,
            Dir::Down => 8,
        }
    }

    /// The bit of the direction among the four of the pad.
    pub fn bits(self) -> (code: u16)
        ensures
            code == self.code(),
    {
        match self {
            Dir::Right => 1,
            Dir::Left => 2,
            Dir::Up => 4,
            Dir::Down => 8,
        }
    }

    /// The direction, as a group of one button.
    pub fn group(self) -> (keys: KeyGroup)
        ensures
            keys.0 == self.code() * 16,
    {
        Key::Dpad(self).group()
    }
}

/// A button.
#[derive(Clone, Copy, Debug, PartialEq, Eq, Structural)]
pub struct Key(pub u16);

impl Key {
    /// The button A.
    pub fn A() -> (key: Self)
        ensures
            key.0 == 0x1,
    {
        Key(0x1)
    }

    /// The button B.
    pub fn B() -> (key: Self)
        ensures
            key.0 == 0x2,
    {
        Key(0x2)
    }

    /// The button Select.
    pub fn Select() -> (key: Self)
        ensures
            key.0 == 0x4,
    {
        Key(0x4)
    }

    /// The button Start.
    pub fn Start() -> (key: Self)
        ensures
            key.0 == 0x8,
    {
        Key(0x8)
    }

    /// The shoulder button L.
    pub fn L() -> (key: Self)
        ensures
            key.0 == 0x100,
    {
        Key(0x100)
    }

    /// The shoulder button R.
    pub fn R() -> (key: Self)
        ensures
            key.0 == 0x200,
    {
        Key(0x200)
    }

    /// The button of the directional pad for `dir`.
    pub fn Dpad(dir: Dir) -> (key: Self)
        ensures
            key.0 == dir.code() * 16,
    {
        let code = dir.bits();
        assert(code << 4u16 == code * 16) by (bit_vector)
            requires
                code <= 8,
        ;
        Key(code << 4u16)
    }

    /// The button, as a group of one.
    pub fn group(self) -> (keys: KeyGroup)
        ensures
            keys.0 == self.0,
    {
        KeyGroup(self.0)
    }
}

/// Several buttons.
#[derive(Clone, Copy, Debug, PartialEq, Eq, Structural)]
pub struct KeyGroup(pub u16);

impl core::ops::BitOr for KeyGroup {
    type Output = KeyGroup;

    /// The buttons of both groups.
    fn bitor(self, rhs: KeyGroup) -> (both: KeyGroup) {
        KeyGroup(self.0 | rhs.0)
    }
}

impl BitOrSpecImpl for KeyGroup {
    open spec fn obeys_bitor_spec() -> bool {
        true
    }

    open spec fn bitor_req(self, rhs: KeyGroup) -> bool {
        true
    }

    open spec fn bitor_spec(self, rhs: KeyGroup) -> KeyGroup {
        KeyGroup(self.0 | rhs.0)
    }
}

impl core::ops::BitOr for Key {
    type Output = KeyGroup;

    /// The group of both buttons.
    fn bitor(self, rhs: Key) -> (both: KeyGroup) {
        KeyGroup(self.0 | rhs.0)
    }
}

impl BitOrSpecImpl for Key {
    open spec fn obeys_bitor_spec() -> bool {
        true
    }

    open spec fn bitor_req(self, rhs: Key) -> bool {
        true
    }

    open spec fn bitor_spec(self, rhs: Key) -> KeyGroup {
        KeyGroup(self.0 | rhs.0)
    }
}

impl core::ops::BitOr<Key> for KeyGroup {
    type Output = KeyGroup;

    /// The group with one button more.
    fn bitor(self, rhs: Key) -> (both: KeyGroup) {
        KeyGroup(self.0 | rhs.0)
    }
}

impl BitOrSpecImpl<Key> for KeyGroup {
    open spec fn obeys_bitor_spec() -> bool {
        true
    }

    open spec fn bitor_req(self, rhs: Key) -> bool {
        true
    }

    open spec fn bitor_spec(self, rhs: Key) -> KeyGroup {
        KeyGroup(self.0 | rhs.0)
    }
}

/// The state of the buttons in this frame and in the one before.
#[derive(Clone, Copy, Debug, PartialEq, Eq, Structural)]
pub struct Input {
    pub current: Keys,
    pub previous: Keys,
}

impl Default for Input {
    /// The input with no button down, now or before.
    fn default() -> (input: Self)
        ensures
            input.current.0 == 0xffff,
            input.previous.0 == 0xffff,
    {
        Input { current: Keys::default(), previous: Keys::default() }
    }
}

impl Input {
    /// Whether the button of `dir` is down.
    pub open spec fn holds(self, dir: Dir) -> bool {
        self.current.down(KeyGroup((dir.code() * 16) as u16)) != 0
    }

    /// Whether button `key` is down now and was not in the frame before.
    pub open spec fn went_down(self, key: Key) -> bool {
        self.current.down(KeyGroup(key.0)) != 0 && self.previous.down(KeyGroup(key.0)) == 0
    }

    /// Whether button `key` was down in the frame before and is not now.
    pub open spec fn went_up(self, key: Key) -> bool {
        self.current.down(KeyGroup(key.0)) == 0 && self.previous.down(KeyGroup(key.0)) != 0
    }

    /// The state of the buttons in this frame.
    pub fn current(self) -> (keys: Keys)
        ensures
            keys == self.current,
    {
        self.current
    }

    /// The direction that is held on the pad: of several, down wins over up, up over left,
    /// left over right.
    pub fn direction(self) -> (dir: Option<Dir>)
        ensures
            dir == if self.holds(Dir::Down) {
                Some(Dir::Down)
            } else if self.holds(Dir::Up) {
                Some(Dir::Up)
            } else if self.holds(Dir::Left) {
                Some(Dir::Left)
            } else if self.holds(Dir::Right) {
                Some(Dir::Right)
            } else {
                None
            },
    {
        if self.pressed(Dir::Down.group()) {
            Some(Dir::Down)
        } else if self.pressed(Dir::Up.group()) {
            Some(Dir::Up)
        } else if self.pressed(Dir::Left.group()) {
            Some(Dir::Left)
        } else if self.pressed(Dir::Right.group()) {
            Some(Dir::Right)
        } else {
            None
        }
    }

    /// The direction that was pressed on the pad in this frame, with the same order as
    /// [`Input::direction`].
    pub fn just_direction(self) -> (dir: Option<Dir>)
        ensures
            dir == if self.went_down(Key((Dir::Down.code() * 16) as u16)) {
                Some(Dir::Down)
            } else if self.went_down(Key((Dir::Up.code() * 16) as u16)) {
                Some(Dir::Up)
            } else if self.went_down(Key((Dir::Left.code() * 16) as u16)) {
                Some(Dir::Left)
            } else if self.went_down(Key((Dir::Right.code() * 16) as u16)) {
                Some(Dir::Right)
            } else {
                None
            },
    {
        if self.just_pressed(Key::Dpad(Dir::Down)) {
            Some(Dir::Down)
        } else if self.just_pressed(Key::Dpad(Dir::Up)) {
            Some(Dir::Up)
        } else if self.just_pressed(Key::Dpad(Dir::Left)) {
            Some(Dir::Left)
        } else if self.just_pressed(Key::Dpad(Dir::Right)) {
            Some(Dir::Right)
        } else {
            None
        }
    }

    /// Whether any button of `key` is down.
    pub fn pressed(self, key: KeyGroup) -> (down: bool)
        ensures
            down == (self.current.down(key) != 0),
    {
        self.current.any_pressed(key)
    }

    /// Whether no button of `key` is down.
    pub fn released(self, key: KeyGroup) -> (up: bool)
        ensures
            up == (self.current.down(key) == 0),
    {
        !self.pressed(key)
    }

    /// Whether `key` is down now and was not in the frame before.
    pub fn just_pressed(self, key: Key) -> (now: bool)
        ensures
            now == self.went_down(key),
    {
        let key = KeyGroup(key.0);
        let current = self.current.any_pressed(key);
        let previous = self.previous.any_pressed(key);
        current && !previous
    }

    /// Whether `key` was down in the frame before and is not now.
    pub fn just_released(self, key: Key) -> (now: bool)
        ensures
            now == self.went_up(key),
    {
        let key = KeyGroup(key.0);
        let current = self.current.any_pressed(key);
        let previous = self.previous.any_pressed(key);
        !current && previous
    }
}

} // verus!
