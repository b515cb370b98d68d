//! The video hardware as one owned value.
//!
//! Registers, palettes, tile memory and the object table are plain fields. Whoever owns the
//! [`VideoMemory`] owns the display: a `Control` takes it by value, and the handles that a
//! `Control` gives out borrow it.
use crate::video::structs::Pos;
use vstd::prelude::*;

verus! {

/// Half-words of background memory: tile maps and tile bitmaps share it.
pub const VRAM_LEN: usize = 0x8000;

/// Half-words of object tile memory.
pub const OBJECT_TILES_LEN: usize = 0x4000;

/// Colours of one palette.
pub const PALETTE_LEN: usize = 256;

/// Entries of the object table.
pub const OBJECT_COUNT: usize = 128;

/// Background layers.
pub const LAYER_COUNT: usize = 4;

/// Layers with an affine transform: layers 2 and 3.
pub const AFFINE_LAYER_COUNT: usize = 2;

/// Half-words of one screen block, the unit in which tile maps are placed.
pub const SBB_SIZE: usize = 0x400;

/// Screen blocks of background memory.
pub const SBB_COUNT: usize = 32;

/// Half-words of one character block, the unit in which tile bitmaps are placed.
pub const CBB_SIZE: usize = 0x2000;

/// Character blocks of background memory.
pub const CBB_COUNT: usize = 4;

/// The three attribute words of one entry of the object table.
#[derive(Clone, Copy, Debug, PartialEq, Eq, Structural)]
pub struct Attributes {
    pub attr0: u16,
    pub attr1: u16,
    pub attr2: u16,
}

/// The matrix of an affine layer, in fixed point with 8 fractional bits.
#[derive(Clone, Copy, Debug, PartialEq, Eq, Structural)]
pub struct RotationScale {
    pub t_00: i16,
    pub t_01: i16,
    pub t_10: i16,
    pub t_11: i16,
}

/// The origin of an affine layer, in fixed point with 8 fractional bits.
#[derive(Clone, Copy, Debug, PartialEq, Eq, Structural)]
pub struct Origin {
    pub x: i32,
    pub y: i32,
}

/// `store` after `data` was copied to it from `offset` on; what does not fit is dropped.
pub open spec fn copied<T>(store: Seq<T>, offset: int, data: Seq<T>) -> Seq<T> {
    Seq::new(
        store.len(),
        |i: int|
            if offset <= i < offset + data.len() {
                data[i - offset]
            } else {
                store[i]
            },
    )
}

/// `slice` after it was filled from `store`, from `offset` of the store on; behind the end of
/// the store nothing is read.
pub open spec fn fetched<T>(store: Seq<T>, offset: int, slice: Seq<T>) -> Seq<T> {
    Seq::new(
        slice.len(),
        |i: int|
            if offset + i < store.len() {
                store[offset + i]
            } else {
                slice[i]
            },
    )
}

/// Copying between a memory and a slice, as much as fits.
pub trait VolMemcopy<T>: Sized {
    /// What the memory holds.
    spec fn cells(&self) -> Seq<T>;

    /// Copies `slice` into the memory from `offset` on and drops what does not fit.
    fn write_slice_at_offset(&mut self, offset: usize, slice: &[T])
        ensures
            final(self).cells() == copied(old(self).cells(), offset as int, slice@),
    ;

    /// Fills `slice` from the memory, from `offset` on; behind the end of the memory nothing
    /// is read.
    fn read_offset_into_slice(&self, offset: usize, slice: &mut [T])
        ensures
            final(slice)@ == fetched(self.cells(), offset as int, old(slice)@),
    ;

    /// Copies `slice` into the memory from its start on and drops what does not fit.
    fn write_slice(&mut self, slice: &[T])
        ensures
            final(self).cells() == copied(old(self).cells(), 0, slice@),
    ;

    /// Fills `slice` from the start of the memory; behind the end of the memory nothing is
    /// read.
    fn read_into_slice(&self, slice: &mut [T])
        ensures
            final(slice)@ == fetched(self.cells(), 0, old(slice)@),
    ;
}

impl<T: Copy> VolMemcopy<T> for Vec<T> {
    open spec fn cells(&self) -> Seq<T> {
        self@
    }

    fn write_slice_at_offset(&mut self, offset: usize, slice: &[T]) {
        let len = self.len();
        let count = slice.len();
        let mut done: usize = 0;
        while done < count && offset < len && done < len - offset
            invariant
                len == self@.len(),
                len == old(self)@.len(),
                count == slice@.len(),
                done <= count,
                offset < len ==> done <= len - offset,
                forall|i: int|
                    0 <= i < len ==> self@[i] == if offset <= i < offset + done {
                        slice@[i - offset]
                    } else {
                        old(self)@[i]
                    },
            decreases count - done,
        {
            self.set(offset + done, slice[done]);
            done = done + 1;
        }
        assert(self@ =~= copied(old(self)@, offset as int, slice@));
    }

    fn read_offset_into_slice(&self, offset: usize, slice: &mut [T]) {
        let len = self.len();
        let count = slice.len();
        let mut done: usize = 0;
        while done < count && offset < len && done < len - offset
            invariant
                len == self@.len(),
                count == slice@.len(),
                count == old(slice)@.len(),
                done <= count,
                offset < len ==> done <= len - offset,
                offset >= len ==> done == 0,
                forall|i: int|
                    0 <= i < count ==> slice@[i] == if i < done {
                        self@[offset + i]
                    } else {
                        old(slice)@[i]
                    },
            decreases count - done,
        {
            slice[done] = self[offset + done];
            done = done + 1;
        }
        assert(slice@ =~= fetched(self@, offset as int, old(slice)@));
    }

    fn write_slice(&mut self, slice: &[T]) {
        self.write_slice_at_offset(0, slice);
    }

    fn read_into_slice(&self, slice: &mut [T]) {
        self.read_offset_into_slice(0, slice);
    }
}

/// A vector of `len` zeros.
pub fn zeroed(len: usize) -> (words: Vec<u16>)
    ensures
        words@ == Seq::new(len as nat, |i: int| 0u16),
{
    let mut words: Vec<u16> = Vec::new();
    while words.len() < len
        invariant
            words@.len() <= len,
            forall|i: int| 0 <= i < words@.len() ==> words@[i] == 0u16,
        decreases len - words@.len(),
    {
        words.push(0);
    }
    assert(words@ =~= Seq::new(len as nat, |i: int| 0u16));
    words
}

/// The display registers and memories.
pub struct VideoMemory {
    /// The display control register.
    pub display_control: u16,
    /// The control register of each background layer.
    pub layer_control: Vec<u16>,
    /// The scroll offset of each background layer in text mode.
    pub text_scroll: Vec<Pos>,
    /// The origin of layers 2 and 3 in affine mode.
    pub affine_origin: Vec<Origin>,
    /// The matrix of layers 2 and 3 in affine mode.
    pub affine_matrix: Vec<RotationScale>,
    /// Background memory: tile maps and tile bitmaps.
    pub backgrounds: Vec<u16>,
    /// Object tile memory.
    pub object_tiles: Vec<u16>,
    /// The colours of the backgrounds.
    pub background_palette: Vec<u16>,
    /// The colours of the objects.
    pub object_palette: Vec<u16>,
    /// The object table.
    pub objects: Vec<Attributes>,
    /// How often a register or an entry of the object table was written.
    pub register_writes: Ghost<nat>,
}

impl VideoMemory {
    /// Every memory has the size that the hardware gives it.
    pub open spec fn wf(&self) -> bool {
        &&& self.layer_control@.len() == LAYER_COUNT
        &&& self.text_scroll@.len() == LAYER_COUNT
        &&& self.affine_origin@.len() == AFFINE_LAYER_COUNT
        &&& self.affine_matrix@.len() == AFFINE_LAYER_COUNT
        &&& self.backgrounds@.len() == VRAM_LEN
        &&& self.object_tiles@.len() == OBJECT_TILES_LEN
        &&& self.background_palette@.len() == PALETTE_LEN
        &&& self.object_palette@.len() == PALETTE_LEN
        &&& self.objects@.len() == OBJECT_COUNT
    }

    /// Everything but background memory is the same in `self` and `other`.
    pub open spec fn same_but_backgrounds(&self, other: &VideoMemory) -> bool {
        &&& self.display_control == other.display_control
        &&& self.layer_control@ == other.layer_control@
        &&& self.text_scroll@ == other.text_scroll@
        &&& self.affine_origin@ == other.affine_origin@
        &&& self.affine_matrix@ == other.affine_matrix@
        &&& self.object_tiles@ == other.object_tiles@
        &&& self.background_palette@ == other.background_palette@
        &&& self.object_palette@ == other.object_palette@
        &&& self.objects@ == other.objects@
        &&& self.register_writes@ == other.register_writes@
    }

    /// Every memory is the same in `self` and `other`; the registers and the object table may
    /// differ.
    pub open spec fn same_memories(&self, other: &VideoMemory) -> bool {
        &&& self.backgrounds@ == other.backgrounds@
        &&& self.object_tiles@ == other.object_tiles@
        &&& self.background_palette@ == other.background_palette@
        &&& self.object_palette@ == other.object_palette@
    }

    /// Everything but background memory and object tile memory is the same in `self` and
    /// `other`.
    pub open spec fn same_but_backgrounds_and_tiles(&self, other: &VideoMemory) -> bool {
        &&& self.display_control == other.display_control
        &&& self.layer_control@ == other.layer_control@
        &&& self.text_scroll@ == other.text_scroll@
        &&& self.affine_origin@ == other.affine_origin@
        &&& self.affine_matrix@ == other.affine_matrix@
        &&& self.background_palette@ == other.background_palette@
        &&& self.object_palette@ == other.object_palette@
        &&& self.objects@ == other.objects@
        &&& self.register_writes@ == other.register_writes@
    }

    /// `self` and `other` hold the same in every register and memory.
    pub open spec fn same(&self, other: &VideoMemory) -> bool {
        &&& self.same_but_backgrounds(other)
        &&& self.backgrounds@ == other.backgrounds@
    }

    /// The video hardware with every register and memory at zero.
    pub fn new() -> (memory: Self)
        ensures
            memory.wf(),
            memory.display_control == 0,
            memory.register_writes@ == 0,
            forall|i: int| 0 <= i < LAYER_COUNT ==> memory.layer_control@[i] == 0,
            forall|i: int| 0 <= i < VRAM_LEN ==> memory.backgrounds@[i] == 0,
            forall|i: int| 0 <= i < OBJECT_TILES_LEN ==> memory.object_tiles@[i] == 0,
            forall|i: int| 0 <= i < PALETTE_LEN ==> memory.background_palette@[i] == 0,
            forall|i: int| 0 <= i < PALETTE_LEN ==> memory.object_palette@[i] == 0,
            forall|i: int|
                0 <= i < OBJECT_COUNT ==> memory.objects@[i] == (Attributes {
                    attr0: 0,
                    attr1: 0,
                    attr2: 0,
                }),
    {
        let origin = Origin { x: 0, y: 0 };
        let identity = RotationScale { t_00: 0, t_01: 0, t_10: 0, t_11: 0 };
        let at_rest = Pos { x: 0, y: 0 };
        let hidden = Attributes { attr0: 0, attr1: 0, attr2: 0 };
        let mut objects: Vec<Attributes> = Vec::new();
        while objects.len() < OBJECT_COUNT
            invariant
                objects@.len() <= OBJECT_COUNT,
                hidden == (Attributes { attr0: 0, attr1: 0, attr2: 0 }),
                forall|i: int| 0 <= i < objects@.len() ==> objects@[i] == hidden,
            decreases OBJECT_COUNT - objects@.len(),
        {
            objects.push(hidden);
        }
        VideoMemory {
            display_control: 0,
            layer_control: zeroed(LAYER_COUNT),
            text_scroll: vec![at_rest, at_rest, at_rest, at_rest],
            affine_origin: vec![origin, origin],
            affine_matrix: vec![identity, identity],
            backgrounds: zeroed(VRAM_LEN),
            object_tiles: zeroed(OBJECT_TILES_LEN),
            background_palette: zeroed(PALETTE_LEN),
            object_palette: zeroed(PALETTE_LEN),
            objects,
            register_writes: Ghost(0),
        }
    }
}

} // verus!
