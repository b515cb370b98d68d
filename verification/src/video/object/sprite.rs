//! The tiles of objects.
use crate::unique_id::UniqueId;
use crate::video::memory::{copied, VideoMemory, VolMemcopy};
use crate::video::object::Shape;
use vstd::prelude::*;

verus! {

/// Half-words of one tile of 8 by 8 pixels at 8 bits per pixel.
pub const ENTRY_PER_TILE: usize = 32;

/// The id of a sprite or of a sheet of sprites.
#[derive(Clone, Copy, Debug, PartialEq, Eq, Structural)]
pub struct Id(pub UniqueId);

impl Id {
    /// The key under which the sprite's tiles are kept.
    pub open spec fn key(self) -> u64 {
        self.0.token()
    }

    /// The key under which the sprite's tiles are kept.
    pub fn get(self) -> (key: u64)
        ensures
            key == self.key(),
    {
        self.0.get()
    }
}

/// Where the tiles of a loaded sprite lie in object tile memory, in tiles.
#[derive(Clone, Copy, Debug, PartialEq, Eq, Structural)]
pub struct Slot {
    pub offset: u16,
}

impl Slot {
    /// The offset, in tiles.
    pub fn get(self) -> (offset: u16)
        ensures
            offset == self.offset,
    {
        self.offset
    }

    /// The slot at `offset` tiles.
    pub fn new_unchecked(offset: u16) -> (slot: Self)
        ensures
            slot.offset == offset,
    {
        Slot { offset }
    }
}

/// Object tile memory after `data` was copied to the tiles from `slot` on.
pub open spec fn loaded(tiles: Seq<u16>, slot: Slot, data: Seq<u16>) -> Seq<u16> {
    copied(tiles, slot.offset * ENTRY_PER_TILE, data)
}

/// What was loaded lies in memory whole, where memory has room for it from `slot` on.
pub proof fn lemma_loaded_whole(tiles: Seq<u16>, slot: Slot, data: Seq<u16>)
    requires
        slot.offset * ENTRY_PER_TILE + data.len() <= tiles.len(),
    ensures
        loaded(tiles, slot, data).len() == tiles.len(),
        loaded(tiles, slot, data).subrange(
            slot.offset * ENTRY_PER_TILE,
            slot.offset * ENTRY_PER_TILE + data.len(),
        ) == data,
{
    assert(loaded(tiles, slot, data).subrange(
        slot.offset * ENTRY_PER_TILE,
        slot.offset * ENTRY_PER_TILE + data.len(),
    ) =~= data);
}

/// The tiles of one object, with their shape and an id.
pub struct Sprite {
    data: &'static [u16],
    shape: Shape,
    id: Id,
}

impl Sprite {
    /// The half-words of the tiles.
    pub closed spec fn view(&self) -> Seq<u16> {
        self.data@
    }

    /// The shape of the object that shows the sprite.
    pub closed spec fn form(&self) -> Shape {
        self.shape
    }

    /// The id of the sprite.
    pub closed spec fn ident(&self) -> Id {
        self.id
    }

    /// The sprite of the tiles `data`, which show an object of shape `shape`.
    pub fn new(data: &'static [u16], id: UniqueId, shape: Shape) -> (sprite: Self)
        ensures
            sprite@ == data@,
            sprite.form() == shape,
            sprite.ident() == Id(id),
    {
        Sprite { data, id: Id(id), shape }
    }

    /// The shape of the object that shows the sprite.
    pub fn shape(&self) -> (shape: &Shape)
        ensures
            *shape == self.form(),
    {
        &self.shape
    }

    /// Copies the tiles to object tile memory, from `slot` on. What does not fit is dropped.
    pub fn load_at_slot(&self, memory: &mut VideoMemory, slot: Slot)
        requires
            old(memory).wf(),
        ensures
            final(memory).wf(),
            final(memory).object_tiles@ == loaded(old(memory).object_tiles@, slot, self@),
            final(memory).display_control == old(memory).display_control,
            final(memory).layer_control@ == old(memory).layer_control@,
            final(memory).text_scroll@ == old(memory).text_scroll@,
            final(memory).affine_origin@ == old(memory).affine_origin@,
            final(memory).affine_matrix@ == old(memory).affine_matrix@,
            final(memory).backgrounds@ == old(memory).backgrounds@,
            final(memory).background_palette@ == old(memory).background_palette@,
            final(memory).object_palette@ == old(memory).object_palette@,
            final(memory).objects@ == old(memory).objects@,
            final(memory).register_writes@ == old(memory).register_writes@,
    {
        memory.object_tiles.write_slice_at_offset(slot.offset as usize * ENTRY_PER_TILE, self.data);
    }

    /// How many tiles the sprite takes.
    pub fn tile_count(&self) -> (count: u16)
        ensures
            count == self.form().tiles(),
    {
        self.shape.tile_count()
    }

    /// The id of the sprite.
    pub fn id(&self) -> (id: Id)
        ensures
            id == self.ident(),
    {
        self.id
    }
}

/// Where the tiles of a loaded sheet of `I` sprites lie in object tile memory.
pub struct SheetSlot<const I: u16> {
    offset: u16,
}

impl<const I: u16> SheetSlot<I> {
    /// The offset of the first sprite of the sheet, in tiles.
    pub closed spec fn first(&self) -> u16 {
        self.offset
    }

    /// The slot of a sheet whose first sprite lies at `slot`.
    pub fn from_slot(slot: Slot) -> (sheet: Self)
        ensures
            sheet.first() == slot.offset,
    {
        SheetSlot { offset: slot.offset }
    }

    /// The offset of the first sprite of the sheet, in tiles.
    pub fn offset(&self) -> (offset: u16)
        ensures
            offset == self.first(),
    {
        self.offset
    }

    /// The slot of sprite `index` of the sheet, which has `I` sprites.
    pub fn get(&self, index: u16) -> (slot: Slot)
        requires
            index < I,
            self.first() + index <= u16::MAX,
        ensures
            slot.offset == self.first() + index,
    {
        Slot { offset: self.offset + index }
    }
}

/// A sheet of `I` sprites of one tile each, with an id.
pub struct Sheet<const I: u16> {
    data: &'static [u16],
    id: Id,
}

impl<const I: u16> Sheet<I> {
    /// The half-words of the tiles.
    pub closed spec fn view(&self) -> Seq<u16> {
        self.data@
    }

    /// The id of the sheet.
    pub closed spec fn ident(&self) -> Id {
        self.id
    }

    /// The sheet of the tiles `data`, which hold `I` tiles.
    pub fn new(data: &'static [u16], id: UniqueId) -> (sheet: Self)
        requires
            data@.len() == I * ENTRY_PER_TILE,
        ensures
            sheet@ == data@,
            sheet.ident() == Id(id),
    {
        Sheet { data, id: Id(id) }
    }

    /// Copies the tiles to object tile memory, from `slot` on. What does not fit is dropped.
    pub fn load_at_slot(&self, memory: &mut VideoMemory, slot: Slot)
        requires
            old(memory).wf(),
        ensures
            final(memory).wf(),
            final(memory).object_tiles@ == loaded(old(memory).object_tiles@, slot, self@),
            final(memory).display_control == old(memory).display_control,
            final(memory).layer_control@ == old(memory).layer_control@,
            final(memory).text_scroll@ == old(memory).text_scroll@,
            final(memory).affine_origin@ == old(memory).affine_origin@,
            final(memory).affine_matrix@ == old(memory).affine_matrix@,
            final(memory).backgrounds@ == old(memory).backgrounds@,
            final(memory).background_palette@ == old(memory).background_palette@,
            final(memory).object_palette@ == old(memory).object_palette@,
            final(memory).objects@ == old(memory).objects@,
            final(memory).register_writes@ == old(memory).register_writes@,
    {
        memory.object_tiles.write_slice_at_offset(slot.offset as usize * ENTRY_PER_TILE, self.data);
    }

    /// How many tiles the sheet takes.
    pub fn tile_count(&self) -> (count: u16)
        ensures
            count == I,
    {
        I
    }

    /// The id of the sheet.
    pub fn id(&self) -> (id: Id)
        ensures
            id == self.ident(),
    {
        self.id
    }
}

} // verus!
