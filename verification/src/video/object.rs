//! Objects: sprites that move independently of the backgrounds.
//!
//! There are 128 objects. An [`Allocator`] hands out their slots, and keeps track of where
//! the tiles of each loaded sprite lie. A [`Handle`] reads the attributes of one object when
//! it is made, takes every change in a copy of its own, and writes the copy back once, in
//! [`Handle::commit`].
use crate::bits::{field_of, flag_of, with_field, with_field_of, with_flag, with_flag_of};
use crate::bitset::Bitset128;
use crate::block::{first_equal, first_holder, inserted, removed, room_of, span, Block, Blocks};
use crate::video::memory::{Attributes, VideoMemory, OBJECT_COUNT};
use crate::video::palette;
use crate::video::structs::Pos;
use crate::video::Priority;
use vstd::prelude::*;

pub mod sprite;

verus! {

/// Tiles of object tile memory that the allocator of sprites hands out: as many tiles of 8 by
/// 8 pixels at 8 bits per pixel as the memory holds.
pub const SPRITE_FULL_SIZE: u16 = 512;

/// The bits of the vertical position of an object, in attribute 0.
pub const Y_MASK: u16 = 0xff;

/// The bit of attribute 0 that hides an object.
pub const HIDDEN_BIT: u16 = 9;

/// Bit at which the mode of an object starts in attribute 0.
pub const MODE_LOW: u16 = 10;

/// The bits of the mode of an object.
pub const MODE_MASK: u16 = 0b11;

/// The bit of attribute 0 that turns the mosaic effect on.
pub const MOSAIC_BIT: u16 = 12;

/// The bit of attribute 0 that selects tiles of 8 bits per pixel, which use the whole palette.
pub const FULL_PALETTE_BIT: u16 = 13;

/// Bit at which the orientation of an object starts in attribute 0.
pub const SHAPE_LOW: u16 = 14;

/// The bits of the orientation of an object.
pub const SHAPE_MASK: u16 = 0b11;

/// The bits of the horizontal position of an object, in attribute 1.
pub const X_MASK: u16 = 0x1ff;

/// Bit at which the size of an object starts in attribute 1.
pub const SIZE_LOW: u16 = 14;

/// The bits of the size of an object.
pub const SIZE_MASK: u16 = 0b11;

/// The bits of the first tile of an object, in attribute 2.
pub const TILE_MASK: u16 = 0x3ff;

/// Bit at which the priority of an object starts in attribute 2.
pub const PRIORITY_LOW: u16 = 10;

/// The bits of the priority of an object.
pub const PRIORITY_MASK: u16 = 0b11;

/// How the tiles of an object that takes several are laid out in memory.
#[derive(Clone, Copy, Debug, PartialEq, Eq, Structural)]
pub enum TileMapping {
    /// One after the other.
    OneDim,
    /// As in a tile set 32 tiles wide.
    TwoDim,
}

impl TileMapping {
    /// Whether the tiles lie one after the other.
    pub fn is_1d(self) -> (flag: bool)
        ensures
            flag == (self == TileMapping::OneDim),
    {
        match self {
            TileMapping::OneDim => true,
            TileMapping::TwoDim => false,
        }
    }
}

/// The orientation of an object.
#[derive(Clone, Copy, Debug, PartialEq, Eq, Structural)]
pub enum ShapeDir {
    Square,
    Horizontal,
    Vertical,
}

impl ShapeDir {
    /// The code of the orientation in attribute 0.
    pub open spec fn code(self) -> u16 {
        match self {
            ShapeDir::Square => 0,
            ShapeDir::Horizontal => 1,
            ShapeDir::Vertical => 2,
        }
    }

    /// The code of the orientation in attribute 0.
    pub fn bits(self) -> (code: u16)
        ensures
            code == self.code(),
    {
        match self {
            ShapeDir::Square => 0,
            ShapeDir::Horizontal => 1,
            ShapeDir::Vertical => 2,
        }
    }
}

/// The size of an object within its orientation.
#[derive(Clone, Copy, Debug, PartialEq, Eq, Structural)]
pub enum ShapeSize {
    Simple,
    Double,
    Quad,
    Octo,
}

impl ShapeSize {
    /// The code of the size in attribute 1.
    pub open spec fn code(self) -> u16 {
        match self {
            ShapeSize::Simple => 0,
            ShapeSize::Double => 1,
            ShapeSize::Quad => 2,
            ShapeSize::Octo => 3,
        }
    }

    /// The code of the size in attribute 1.
    pub fn bits(self) -> (code: u16)
        ensures
            code == self.code(),
    {
        match self {
            ShapeSize::Simple => 0,
            ShapeSize::Double => 1,
            ShapeSize::Quad => 2,
            ShapeSize::Octo => 3,
        }
    }
}

/// The shape of an object: its width by its height, in tiles.
#[derive(Clone, Copy, Debug, PartialEq, Eq, Structural)]
pub enum Shape {
    _1x1,
    _2x2,
    _4x4,
    _8x8,
    _2x1,
    _4x1,
    _4x2,
    _8x4,
    _1x2,
    _1x4,
    _2x4,
    _4x8,
}

impl Shape {
    /// The width of the shape, in tiles.
    pub open spec fn width(self) -> u16 {
        match self {
            Shape::_1x1 | Shape::_1x2 | Shape::_1x4 => 1,
            Shape::_2x2 | Shape::_2x1 | Shape::_2x4 => 2,
            Shape::_4x4 | Shape::_4x1 | Shape::_4x2 | Shape::_4x8 => 4,
            Shape::_8x8 | Shape::_8x4 => 8,
        }
    }

    /// The height of the shape, in tiles.
    pub open spec fn height(self) -> u16 {
        match self {
            Shape::_1x1 | Shape::_2x1 | Shape::_4x1 => 1,
            Shape::_2x2 | Shape::_4x2 | Shape::_1x2 => 2,
            Shape::_4x4 | Shape::_8x4 | Shape::_1x4 | Shape::_2x4 => 4,
            Shape::_8x8 | Shape::_4x8 => 8,
        }
    }

    /// How many tiles the shape takes: its width times its height.
    pub open spec fn tiles(self) -> u16 {
        match self {
            Shape::_1x1 => 1,
            Shape::_2x1 | Shape::_1x2 => 2,
            Shape::_2x2 | Shape::_4x1 | Shape::_1x4 => 4,
            Shape::_4x2 | Shape::_2x4 => 8,
            Shape::_4x4 => 16,
            Shape::_8x4 | Shape::_4x8 => 32,
            Shape::_8x8 => 64,
        }
    }

    /// A shape takes as many tiles as its width times its height.
    pub proof fn lemma_tiles(self)
        ensures
            self.tiles() == self.width() * self.height(),
    {
        assert(1 * 1 == 1 && 2 * 1 == 2 && 1 * 2 == 2 && 2 * 2 == 4 && 4 * 1 == 4 && 1 * 4 == 4 && 4
            * 2 == 8 && 2 * 4 == 8 && 4 * 4 == 16 && 8 * 4 == 32 && 4 * 8 == 32 && 8 * 8 == 64);
        match self {
            Shape::_1x1 => {},
            Shape::_2x2 => {},
            Shape::_4x4 => {},
            Shape::_8x8 => {},
            Shape::_2x1 => {},
            Shape::_4x1 => {},
            Shape::_4x2 => {},
            Shape::_8x4 => {},
            Shape::_1x2 => {},
            Shape::_1x4 => {},
            Shape::_2x4 => {},
            Shape::_4x8 => {},
        }
    }

    /// The orientation and the size that the hardware knows the shape by.
    pub open spec fn parts(self) -> (ShapeDir, ShapeSize) {
        match self {
            Shape::_1x1 => (ShapeDir::Square, ShapeSize::Simple),
            Shape::_2x2 => (ShapeDir::Square, ShapeSize::Double),
            Shape::_4x4 => (ShapeDir::Square, ShapeSize::Quad),
            Shape::_8x8 => (ShapeDir::Square, ShapeSize::Octo),
            Shape::_2x1 => (ShapeDir::Horizontal, ShapeSize::Simple),
            Shape::_4x1 => (ShapeDir::Horizontal, ShapeSize::Double),
            Shape::_4x2 => (ShapeDir::Horizontal, ShapeSize::Quad),
            Shape::_8x4 => (ShapeDir::Horizontal, ShapeSize::Octo),
            Shape::_1x2 => (ShapeDir::Vertical, ShapeSize::Simple),
            Shape::_1x4 => (ShapeDir::Vertical, ShapeSize::Double),
            Shape::_2x4 => (ShapeDir::Vertical, ShapeSize::Quad),
            Shape::_4x8 => (ShapeDir::Vertical, ShapeSize::Octo),
        }
    }

    /// The orientation and the size that the hardware knows the shape by.
    pub fn components(self) -> (parts: (ShapeDir, ShapeSize))
        ensures
            parts == self.parts(),
    {
        match self {
            Shape::_1x1 => (ShapeDir::Square, ShapeSize::Simple),
            Shape::_2x2 => (ShapeDir::Square, ShapeSize::Double),
            Shape::_4x4 => (ShapeDir::Square, ShapeSize::Quad),
            Shape::_8x8 => (ShapeDir::Square, ShapeSize::Octo),
            Shape::_2x1 => (ShapeDir::Horizontal, ShapeSize::Simple),
            Shape::_4x1 => (ShapeDir::Horizontal, ShapeSize::Double),
            Shape::_4x2 => (ShapeDir::Horizontal, ShapeSize::Quad),
            Shape::_8x4 => (ShapeDir::Horizontal, ShapeSize::Octo),
            Shape::_1x2 => (ShapeDir::Vertical, ShapeSize::Simple),
            Shape::_1x4 => (ShapeDir::Vertical, ShapeSize::Double),
            Shape::_2x4 => (ShapeDir::Vertical, ShapeSize::Quad),
            Shape::_4x8 => (ShapeDir::Vertical, ShapeSize::Octo),
        }
    }

    /// How many tiles the shape takes.
    pub fn tile_count(self) -> (count: u16)
        ensures
            count == self.tiles(),
            1 <= count <= 64,
    {
        match self {
            Shape::_1x1 => 1,
            Shape::_2x2 => 4,
            Shape::_4x4 => 16,
            Shape::_8x8 => 64,
            Shape::_2x1 => 2,
            Shape::_4x1 => 4,
            Shape::_4x2 => 8,
            Shape::_8x4 => 32,
            Shape::_1x2 => 2,
            Shape::_1x4 => 4,
            Shape::_2x4 => 8,
            Shape::_4x8 => 32,
        }
    }

    /// Writes the orientation and the size of the shape to the attributes of an object.
    pub fn set_attributes(self, attributes: &mut Attributes)
        ensures
            final(attributes).attr0 == with_field_of(
                old(attributes).attr0,
                SHAPE_LOW,
                SHAPE_MASK,
                self.parts().0.code(),
            ),
            final(attributes).attr1 == with_field_of(
                old(attributes).attr1,
                SIZE_LOW,
                SIZE_MASK,
                self.parts().1.code(),
            ),
            final(attributes).attr2 == old(attributes).attr2,
    {
        let (direction, size) = self.components();
        attributes.attr0 = with_field(attributes.attr0, SHAPE_LOW, SHAPE_MASK, direction.bits());
        attributes.attr1 = with_field(attributes.attr1, SIZE_LOW, SIZE_MASK, size.bits());
    }
}

/// How an object is blended with what lies behind it.
#[derive(Clone, Copy, Debug, PartialEq, Eq, Structural)]
pub enum Mode {
    Normal,
    AlphaBlend,
    Window,
}

impl Mode {
    /// The code of the mode in attribute 0.
    pub open spec fn code(self) -> u16 {
        match self {
            Mode::Normal => 0,
            Mode::AlphaBlend => 1,
            Mode::Window => 2,
        }
    }

    /// The code of the mode in attribute 0.
    pub fn bits(self) -> (code: u16)
        ensures
            code == self.code(),
    {
        match self {
            Mode::Normal => 0,
            Mode::AlphaBlend => 1,
            Mode::Window => 2,
        }
    }
}

/// The slot of an object: the right to one of the 128 entries of the object table.
///
/// A slot comes from [`Allocator::reserve`] and goes back with [`Allocator::free`]. One that
/// is dropped without going back stays taken.
#[derive(Debug)]
pub struct Slot(u32);

impl Slot {
    /// How many slots there are.
    pub const MAX_BLOCKS: u32 = 128;

    /// The number of the entry of the object table.
    pub closed spec fn index(&self) -> int {
        self.0 as int
    }

    /// The entry exists.
    pub open spec fn wf(&self) -> bool {
        0 <= self.index() < OBJECT_COUNT
    }

    /// The slot of entry `inner`, which is below [`Slot::MAX_BLOCKS`].
    pub fn new_unchecked(inner: u32) -> (slot: Self)
        requires
            inner < OBJECT_COUNT,
        ensures
            slot.wf(),
            slot.index() == inner,
    {
        Slot(inner)
    }

    /// The index of the entry of the object table.
    pub fn register(&self) -> (index: usize)
        requires
            self.wf(),
        ensures
            index == self.index(),
    {
        self.0 as usize
    }
}

/// The attributes of one object, held back until [`Handle::commit`].
pub struct Handle<'a> {
    /// The copy of the attributes that the setters change.
    pub value: Attributes,
    /// The entry of the object table.
    pub register: usize,
    /// The display that the object belongs to.
    pub memory: &'a mut VideoMemory,
}

impl<'a> Handle<'a> {
    /// The display is well formed, and the entry exists.
    pub open spec fn wf(&self) -> bool {
        &&& self.memory.wf()
        &&& self.register < OBJECT_COUNT
    }

    /// The handle of the object of `slot`, with the object's attributes read into it.
    pub fn new(memory: &'a mut VideoMemory, slot: &Slot) -> (handle: Self)
        requires
            old(memory).wf(),
            slot.wf(),
        ensures
            handle.wf(),
            handle.register == slot.index(),
            handle.value == old(memory).objects@[slot.index()],
            *handle.memory == *old(memory),
            *final(memory) == *final(handle.memory),
    {
        let register = slot.register();
        let value = memory.objects[register];
        Handle { value, register, memory }
    }

    /// Sets both coordinates of the object.
    pub fn set_pos(&mut self, pos: Pos)
        ensures
            final(self).value.attr0 == with_field_of(old(self).value.attr0, 0, Y_MASK, pos.y),
            final(self).value.attr1 == with_field_of(old(self).value.attr1, 0, X_MASK, pos.x),
            final(self).value.attr2 == old(self).value.attr2,
            final(self).register == old(self).register,
            final(self).memory == old(self).memory,
    {
        self.set_x(pos.x);
        self.set_y(pos.y);
    }

    /// Sets the horizontal coordinate of the object: of `x`, the low 9 bits.
    pub fn set_x(&mut self, x: u16)
        ensures
            final(self).value.attr0 == old(self).value.attr0,
            final(self).value.attr1 == with_field_of(old(self).value.attr1, 0, X_MASK, x),
            final(self).value.attr2 == old(self).value.attr2,
            final(self).register == old(self).register,
            final(self).memory == old(self).memory,
    {
        self.value.attr1 = with_field(self.value.attr1, 0, X_MASK, x);
    }

    /// Sets the vertical coordinate of the object: of `y`, the low 8 bits.
    pub fn set_y(&mut self, y: u16)
        ensures
            final(self).value.attr0 == with_field_of(old(self).value.attr0, 0, Y_MASK, y),
            final(self).value.attr1 == old(self).value.attr1,
            final(self).value.attr2 == old(self).value.attr2,
            final(self).register == old(self).register,
            final(self).memory == old(self).memory,
    {
        self.value.attr0 = with_field(self.value.attr0, 0, Y_MASK, y);
    }

    /// Sets the shape of the object.
    pub fn set_shape(&mut self, shape: Shape)
        ensures
            final(self).value.attr0 == with_field_of(
                old(self).value.attr0,
                SHAPE_LOW,
                SHAPE_MASK,
                shape.parts().0.code(),
            ),
            final(self).value.attr1 == with_field_of(
                old(self).value.attr1,
                SIZE_LOW,
                SIZE_MASK,
                shape.parts().1.code(),
            ),
            final(self).value.attr2 == old(self).value.attr2,
            final(self).register == old(self).register,
            final(self).memory == old(self).memory,
    {
        shape.set_attributes(&mut self.value);
    }

    /// Shows or hides the object.
    pub fn set_visible(&mut self, visible: bool)
        ensures
            final(self).value.attr0 == with_flag_of(old(self).value.attr0, HIDDEN_BIT, !visible),
            final(self).value.attr1 == old(self).value.attr1,
            final(self).value.attr2 == old(self).value.attr2,
            final(self).register == old(self).register,
            final(self).memory == old(self).memory,
    {
        self.value.attr0 = with_flag(self.value.attr0, HIDDEN_BIT, !visible);
    }

    /// Sets how far in front the object is drawn.
    pub fn set_priority(&mut self, priority: Priority)
        ensures
            final(self).value.attr0 == old(self).value.attr0,
            final(self).value.attr1 == old(self).value.attr1,
            final(self).value.attr2 == with_field_of(
                old(self).value.attr2,
                PRIORITY_LOW,
                PRIORITY_MASK,
                priority.code(),
            ),
            final(self).register == old(self).register,
            final(self).memory == old(self).memory,
    {
        self.value.attr2 = with_field(self.value.attr2, PRIORITY_LOW, PRIORITY_MASK, priority.bits());
    }

    /// Sets how the object is blended with what lies behind it.
    pub fn set_mode(&mut self, mode: Mode)
        ensures
            final(self).value.attr0 == with_field_of(
                old(self).value.attr0,
                MODE_LOW,
                MODE_MASK,
                mode.code(),
            ),
            final(self).value.attr1 == old(self).value.attr1,
            final(self).value.attr2 == old(self).value.attr2,
            final(self).register == old(self).register,
            final(self).memory == old(self).memory,
    {
        self.value.attr0 = with_field(self.value.attr0, MODE_LOW, MODE_MASK, mode.bits());
    }

    /// Turns the mosaic effect on or off.
    pub fn set_mosaic(&mut self, is_mosaic: bool)
        ensures
            final(self).value.attr0 == with_flag_of(old(self).value.attr0, MOSAIC_BIT, is_mosaic),
            final(self).value.attr1 == old(self).value.attr1,
            final(self).value.attr2 == old(self).value.attr2,
            final(self).register == old(self).register,
            final(self).memory == old(self).memory,
    {
        self.value.attr0 = with_flag(self.value.attr0, MOSAIC_BIT, is_mosaic);
    }

    /// Sets the sprite that the object shows, and selects the whole palette for it. With the
    /// whole palette a tile takes two tile slots, so only an even offset shows what was loaded.
    pub fn set_sprite(&mut self, sprite: sprite::Slot)
        ensures
            final(self).value.attr0 == with_flag_of(old(self).value.attr0, FULL_PALETTE_BIT, true),
            final(self).value.attr1 == old(self).value.attr1,
            final(self).value.attr2 == with_field_of(
                old(self).value.attr2,
                0,
                TILE_MASK,
                sprite.offset,
            ),
            final(self).register == old(self).register,
            final(self).memory == old(self).memory,
    {
        self.value.attr0 = with_flag(self.value.attr0, FULL_PALETTE_BIT, true);
        self.value.attr2 = with_field(self.value.attr2, 0, TILE_MASK, sprite.offset);
    }

    /// Whether the object shows what was loaded for it: with a bank of 16 colours any tile
    /// will do, with the whole palette a tile takes two slots, and its number is even.
    pub fn tile_is_valid(&self) -> (valid: bool)
        ensures
            valid == (!flag_of(self.value.attr0, FULL_PALETTE_BIT) || field_of(
                self.value.attr2,
                0,
                TILE_MASK,
            ) % 2 == 0),
    {
        !crate::bits::flag(self.value.attr0, FULL_PALETTE_BIT) || crate::bits::field(
            self.value.attr2,
            0,
            TILE_MASK,
        ) % 2 == 0
    }

    /// Sets the kind of palette of the object: a bank for tiles of 4 bits per pixel, the whole
    /// palette otherwise.
    pub fn set_palette_mode(&mut self, kind: palette::Type)
        ensures
            final(self).value.attr0 == with_flag_of(
                old(self).value.attr0,
                FULL_PALETTE_BIT,
                kind != palette::Type::Bank,
            ),
            final(self).value.attr1 == old(self).value.attr1,
            final(self).value.attr2 == old(self).value.attr2,
            final(self).register == old(self).register,
            final(self).memory == old(self).memory,
    {
        let use_palbank = match kind {
            palette::Type::Bank => true,
            _ => false,
        };
        self.value.attr0 = with_flag(self.value.attr0, FULL_PALETTE_BIT, !use_palbank);
    }

    /// Writes the attributes to the object table: one write, whatever was set.
    pub fn commit(self)
        requires
            self.wf(),
        ensures
            final(self.memory).objects@ == old(self.memory).objects@.update(
                self.register as int,
                self.value,
            ),
            final(self.memory).register_writes@ == old(self.memory).register_writes@ + 1,
            final(self.memory).display_control == old(self.memory).display_control,
            final(self.memory).layer_control@ == old(self.memory).layer_control@,
            final(self.memory).text_scroll@ == old(self.memory).text_scroll@,
            final(self.memory).affine_origin@ == old(self.memory).affine_origin@,
            final(self.memory).affine_matrix@ == old(self.memory).affine_matrix@,
            final(self.memory).same_memories(old(self.memory)),
            final(self.memory).wf(),
    {
        self.memory.objects.set(self.register, self.value);
        proof {
            self.memory.register_writes@ = self.memory.register_writes@ + 1;
        }
    }
}

/// The slots of the objects, and the places of the loaded sprites.
pub struct Allocator {
    objects: Bitset128,
    sprites: Blocks,
}

impl Default for Allocator {
    /// An allocator with every slot free and no sprite loaded.
    fn default() -> (allocator: Self)
        ensures
            allocator.wf(),
            allocator.taken() == Set::<int>::empty(),
            allocator.sprites() == Seq::<Block>::empty(),
    {
        Allocator { objects: Bitset128::default(), sprites: Blocks::new(SPRITE_FULL_SIZE) }
    }
}

impl Allocator {
    /// The slots that are taken.
    pub closed spec fn taken(&self) -> Set<int> {
        self.objects@
    }

    /// The spans of object tile memory, each with the key of the sprite that owns it.
    pub closed spec fn sprites(&self) -> Seq<Block> {
        self.sprites@
    }

    /// The allocator of sprites is well formed and hands out [`SPRITE_FULL_SIZE`] tiles.
    pub closed spec fn wf(&self) -> bool {
        &&& self.sprites.wf()
        &&& self.sprites.capacity() == SPRITE_FULL_SIZE
    }

    /// Takes the lowest free slot. `None`, with nothing changed, if all 128 are taken.
    pub fn reserve(&mut self) -> (slot: Option<Slot>)
        ensures
            final(self).sprites() == old(self).sprites(),
            final(self).wf() == old(self).wf(),
            match slot {
                Some(slot) => {
                    &&& slot.wf()
                    &&& !old(self).taken().contains(slot.index())
                    &&& forall|lower: int| 0 <= lower < slot.index() ==> old(self).taken().contains(lower)
                    &&& final(self).taken() == old(self).taken().insert(slot.index())
                },
                None => {
                    &&& forall|any: int| 0 <= any < OBJECT_COUNT ==> old(self).taken().contains(any)
                    &&& final(self).taken() == old(self).taken()
                },
            },
    {
        match self.objects.first_free() {
            Some(free) => {
                self.objects.reserve(free);
                Some(Slot::new_unchecked(free))
            },
            None => None,
        }
    }

    /// Gives `slot` back.
    pub fn free(&mut self, slot: Slot)
        requires
            slot.wf(),
        ensures
            final(self).taken() == old(self).taken().remove(slot.index()),
            final(self).sprites() == old(self).sprites(),
            final(self).wf() == old(self).wf(),
    {
        self.objects.free(slot.0);
    }

    /// Gives the sprite `id` room for `tile_count` tiles and tells where. A sprite that has
    /// room keeps it. `None`, with nothing changed, if there is no room left.
    pub fn reserve_sprite(&mut self, id: sprite::Id, tile_count: u16) -> (slot: Option<sprite::Slot>)
        requires
            old(self).wf(),
        ensures
            final(self).wf(),
            final(self).taken() == old(self).taken(),
            final(self).sprites() == inserted(
                old(self).sprites(),
                SPRITE_FULL_SIZE,
                id.key(),
                tile_count,
            ).0,
            match inserted(old(self).sprites(), SPRITE_FULL_SIZE, id.key(), tile_count).1 {
                Some(offset) => slot == Some(sprite::Slot { offset }) && offset + room_of(
                    final(self).sprites(),
                    id.key(),
                ) <= SPRITE_FULL_SIZE,
                None => slot is None,
            },
    {
        match self.sprites.insert_sized(id.get(), tile_count) {
            Some(free) => Some(sprite::Slot::new_unchecked(free)),
            None => None,
        }
    }

    /// Gives up the room of the sprite `id` and tells whether it had any.
    pub fn free_sprite(&mut self, id: sprite::Id) -> (found: bool)
        requires
            old(self).wf(),
        ensures
            final(self).wf(),
            final(self).taken() == old(self).taken(),
            found == (first_holder(old(self).sprites(), id.key(), 0) < old(self).sprites().len()),
            final(self).sprites() == removed(old(self).sprites(), id.key()),
    {
        self.sprites.remove(id.get())
    }

    /// Hands the room of the sprite `previous` to the sprite `new`, which takes as many tiles,
    /// and tells where it lies. `None`, with nothing changed, if `previous` has no room of
    /// exactly that size.
    pub fn replace_sprite(&mut self, previous: sprite::Id, new: &sprite::Sprite) -> (slot: Option<
        sprite::Slot,
    >)
        requires
            old(self).wf(),
        ensures
            final(self).wf(),
            final(self).taken() == old(self).taken(),
            ({
                let wanted = Block::Full(previous.key(), new.form().tiles());
                let at = first_equal(old(self).sprites(), wanted, 0);
                if at < old(self).sprites().len() {
                    &&& slot == Some(sprite::Slot { offset: span(old(self).sprites(), at) as u16 })
                    &&& 0 <= span(old(self).sprites(), at)
                    &&& span(old(self).sprites(), at) + new.form().tiles() <= SPRITE_FULL_SIZE
                    &&& final(self).sprites() == old(self).sprites().update(
                        at,
                        Block::Full(new.ident().key(), new.form().tiles()),
                    )
                } else {
                    &&& slot is None
                    &&& final(self).sprites() == old(self).sprites()
                }
            }),
    {
        match self.sprites.replace_id(previous.get(), new.id().get(), new.tile_count()) {
            Some(offset) => Some(sprite::Slot::new_unchecked(offset)),
            None => None,
        }
    }
}

} // verus!
