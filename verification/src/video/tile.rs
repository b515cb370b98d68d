//! Tiles, tile maps and the layers that show them.
use crate::bits::{field, field_of, flag, flag_of, with_field, with_field_of, with_flag, with_flag_of};
use crate::video::colmod;
use crate::video::memory::{copied, VolMemcopy, CBB_COUNT, CBB_SIZE, SBB_SIZE, VRAM_LEN};
use crate::volmatrix::VolMatrix;
use crate::video::mode;
use crate::video::mode::{Affine, Mixed, Text};
use crate::video::palette;
use crate::video::tile::layer::Slot as _;
use crate::video::tile::set::Tileset;
use crate::video::Control;
use vstd::prelude::*;

pub mod cbb;
pub mod drawable;
pub mod layer;
pub mod map;
pub mod sbb;
pub mod set;

verus! {

/// A colour: 5 bits each of red, green and blue.
pub type Color = u16;

/// The bits of the tile index of a text map entry.
pub const TILE_INDEX_MASK: u16 = 0x3ff;

/// The bit that flips the tile of a text map entry horizontally.
pub const HFLIP_BIT: u16 = 10;

/// The bit that flips the tile of a text map entry vertically.
pub const VFLIP_BIT: u16 = 11;

/// Bit at which the palette bank of a text map entry starts.
pub const PALBANK_LOW: u16 = 12;

/// The bits of the palette bank of a text map entry.
pub const PALBANK_MASK: u16 = 0xf;

/// Two tiles of an affine map, as they share one word of video memory: the tile at the even
/// offset in the low byte, the one behind it in the high byte.
#[derive(Clone, Copy, Debug, PartialEq, Eq, Structural)]
pub struct AffineEntry(pub u16);

/// The word that holds `left` in its low byte and `right` in its high byte.
pub open spec fn packed(left: u8, right: u8) -> u16 {
    (left as u16) | ((right as u16) << 8)
}

/// The low byte of `word`.
pub open spec fn left_of(word: u16) -> u8 {
    (word & 0xff) as u8
}

/// The high byte of `word`.
pub open spec fn right_of(word: u16) -> u8 {
    (word >> 8) as u8
}

/// A word is the two bytes it holds, and holds the two bytes it was packed from.
pub proof fn lemma_packing(left: u8, right: u8, word: u16)
    ensures
        left_of(packed(left, right)) == left,
        right_of(packed(left, right)) == right,
        packed(left_of(word), right_of(word)) == word,
        packed(left, right_of(word)) == (word & 0xff00) | (left as u16),
        packed(left_of(word), right) == (word & 0x00ff) | ((right as u16) << 8),
{
    assert((((left as u16) | ((right as u16) << 8)) & 0xff) as u8 == left) by (bit_vector);
    assert((((left as u16) | ((right as u16) << 8)) >> 8) as u8 == right) by (bit_vector);
    assert(((((word & 0xff) as u8) as u16) | ((((word >> 8) as u8) as u16) << 8)) == word)
        by (bit_vector);
    assert(((left as u16) | ((((word >> 8) as u8) as u16) << 8)) == (word & 0xff00) | (left as u16))
        by (bit_vector);
    assert(((((word & 0xff) as u8) as u16) | ((right as u16) << 8)) == (word & 0x00ff) | ((
    right as u16) << 8)) by (bit_vector);
}

impl AffineEntry {
    /// The entry of the tiles `left` and `right`.
    pub fn new(left: u8, right: u8) -> (entry: Self)
        ensures
            entry.0 == packed(left, right),
    {
        AffineEntry((left as u16) | ((right as u16) << 8))
    }

    /// Replaces the tile in the high byte and keeps the other.
    pub fn set_right(&mut self, right: u8)
        ensures
            final(self).0 == packed(left_of(old(self).0), right),
    {
        proof {
            lemma_packing(0, right, self.0);
        }
        self.0 = self.0 & 0x00ff;
        self.0 = self.0 | ((right as u16) << 8);
    }

    /// Replaces the tile in the low byte and keeps the other.
    pub fn set_left(&mut self, left: u8)
        ensures
            final(self).0 == packed(left, right_of(old(self).0)),
    {
        proof {
            lemma_packing(left, 0, self.0);
        }
        self.0 = self.0 & 0xff00;
        self.0 = self.0 | (left as u16);
    }
}

/// `items` two by two: each pair as `Ok`, and a last one that is left over as `Err`.
pub open spec fn aligned<T>(items: Seq<T>) -> Seq<Result<(T, T), T>> {
    Seq::new(
        ((items.len() + 1) / 2) as nat,
        |i: int|
            if 2 * i + 1 < items.len() {
                Ok((items[2 * i], items[2 * i + 1]))
            } else {
                Err(items[2 * i])
            },
    )
}

/// Pairs `items` two by two. A last one that is left over comes alone, as `Err`.
pub fn align_2<T: Copy>(items: &[T]) -> (pairs: Vec<Result<(T, T), T>>)
    ensures
        pairs@ == aligned(items@),
{
    let len = items.len();
    let count = len / 2 + len % 2;
    let mut pairs: Vec<Result<(T, T), T>> = Vec::new();
    let mut done: usize = 0;
    while done < count
        invariant
            len == items@.len(),
            count == (len + 1) / 2,
            done <= count,
            pairs@.len() == done,
            forall|i: int| 0 <= i < done ==> pairs@[i] == aligned(items@)[i],
        decreases count - done,
    {
        let at = 2 * done;
        if len - at >= 2 {
            pairs.push(Ok((items[at], items[at + 1])));
        } else {
            pairs.push(Err(items[at]));
        }
        done = done + 1;
    }
    assert(pairs@ =~= aligned(items@));
    pairs
}

/// The tiles `tiles` as words of an affine map: each pair packed, a last tile alone.
pub open spec fn entrified(tiles: Seq<u8>) -> Seq<Result<AffineEntry, u8>> {
    Seq::new(
        ((tiles.len() + 1) / 2) as nat,
        |i: int|
            if 2 * i + 1 < tiles.len() {
                Ok(AffineEntry(packed(tiles[2 * i], tiles[2 * i + 1])))
            } else {
                Err(tiles[2 * i])
            },
    )
}

/// Packs `tiles` two by two into words of an affine map. A last tile that is left over comes
/// alone, as `Err`.
pub fn entrify(tiles: &[u8]) -> (entries: Vec<Result<AffineEntry, u8>>)
    ensures
        entries@ == entrified(tiles@),
{
    let pairs = align_2(tiles);
    let mut entries: Vec<Result<AffineEntry, u8>> = Vec::new();
    let mut at: usize = 0;
    while at < pairs.len()
        invariant
            at <= pairs@.len(),
            pairs@ == aligned(tiles@),
            entries@.len() == at,
            forall|i: int| 0 <= i < at ==> entries@[i] == entrified(tiles@)[i],
        decreases pairs@.len() - at,
    {
        match pairs[at] {
            Ok((left, right)) => entries.push(Ok(AffineEntry::new(left, right))),
            Err(left) => entries.push(Err(left)),
        }
        at = at + 1;
    }
    assert(entries@ =~= entrified(tiles@));
    entries
}

/// An entry of a text map: a tile, whether it is flipped, and its palette bank.
#[derive(Clone, Copy, Debug, PartialEq, Eq, Structural)]
pub struct Tile(pub u16);

impl Tile {
    /// The entry as the hardware reads it.
    pub open spec fn raw(self) -> u16 {
        self.0
    }

    /// The tile that the entry shows, as an affine map names it: the low 8 bits of its index.
    pub open spec fn affine_index(self) -> u8 {
        (self.0 & 0xff) as u8
    }

    /// The entry that shows tile 0: nothing.
    pub fn empty() -> (tile: Self)
        ensures
            tile.raw() == 0,
    {
        Tile(0)
    }

    /// The entry that shows tile `tile_id`, not flipped, with palette bank 0. Of `tile_id` the
    /// low 10 bits count.
    pub fn new(tile_id: u16) -> (tile: Self)
        ensures
            tile.raw() == with_field_of(0, 0, TILE_INDEX_MASK, tile_id),
            tile.raw() == tile_id & TILE_INDEX_MASK,
    {
        assert(with_field_of(0, 0, TILE_INDEX_MASK, tile_id) == tile_id & TILE_INDEX_MASK) by {
            assert((0u16 & !(0x3ffu16 << 0u16)) | ((tile_id & 0x3ffu16) << 0u16) == tile_id
                & 0x3ffu16) by (bit_vector);
        }
        Tile(with_field(0, 0, TILE_INDEX_MASK, tile_id))
    }

    /// The same entry, flipped horizontally once more.
    pub fn flip_hori(self) -> (tile: Self)
        ensures
            tile.raw() == with_flag_of(self.raw(), HFLIP_BIT, !flag_of(self.raw(), HFLIP_BIT)),
    {
        Tile(with_flag(self.0, HFLIP_BIT, !flag(self.0, HFLIP_BIT)))
    }

    /// The same entry, flipped vertically once more.
    pub fn flip_vert(self) -> (tile: Self)
        ensures
            tile.raw() == with_flag_of(self.raw(), VFLIP_BIT, !flag_of(self.raw(), VFLIP_BIT)),
    {
        Tile(with_flag(self.0, VFLIP_BIT, !flag(self.0, VFLIP_BIT)))
    }

    /// The same entry with the palette bank `palette`. The bank counts only where the layer
    /// shows tiles of 4 bits per pixel.
    pub fn with_palette(self, palette: palette::BankHandle) -> (tile: Self)
        ensures
            tile.raw() == with_field_of(self.raw(), PALBANK_LOW, PALBANK_MASK, palette.id),
    {
        Tile(with_field(self.0, PALBANK_LOW, PALBANK_MASK, palette.id))
    }

    /// The entry as the hardware reads it.
    pub fn get(self) -> (raw: u16)
        ensures
            raw == self.raw(),
    {
        self.0
    }

    /// The index of the tile that the entry shows.
    pub fn tile_index(self) -> (index: u16)
        ensures
            index == field_of(self.raw(), 0, TILE_INDEX_MASK),
    {
        field(self.0, 0, TILE_INDEX_MASK)
    }

    /// The tile as an affine map names it: the low 8 bits of its index.
    pub fn affine_tile(self) -> (index: u8)
        ensures
            index == self.affine_index(),
    {
        (self.0 & 0xff) as u8
    }
}


/// Background memory as its 4 character blocks.
pub fn character_blocks() -> (matrix: VolMatrix<CBB_SIZE, CBB_COUNT>)
    ensures
        matrix.wf(),
        matrix.first() == 0,
{
    VolMatrix::new(0)
}

/// What is only there in text mode.
impl Control<Text> {
    /// The handle of the layer `slot`.
    pub fn layer(&mut self, slot: layer::text::Slot) -> (handle: layer::Handle<'_, Text>)
        requires
            old(self).wf(),
        ensures
            handle.wf(),
            handle.bg == slot,
            handle.value == old(self).memory.layer_control@[slot.layer()],
            *handle.memory == old(self).memory,
            final(self).memory == *final(handle.memory),
            final(self).mode == old(self).mode,
    {
        layer::Handle::new(self.erased(), slot)
    }

    /// The handle of the tile map of size `map_size` that starts at the screen block `slot`.
    /// The map lies within background memory.
    pub fn sbb(&mut self, slot: sbb::Slot, map_size: map::TextSize) -> (handle: sbb::TextHandle<'_>)
        requires
            old(self).wf(),
            slot.wf(),
            slot.index() * SBB_SIZE + map_size.bounds().width * map_size.bounds().height
                <= VRAM_LEN,
        ensures
            handle.wf(),
            handle.sbb == slot,
            handle.size == map_size,
            *handle.memory == old(self).memory,
            final(self).memory == *final(handle.memory),
            final(self).mode == old(self).mode,
    {
        slot.text_handle(map_size, self.erased())
    }

    /// The handle of the tile map of 32 by 32 tiles at the screen block `slot`.
    pub fn basic_sbb(&mut self, slot: sbb::Slot) -> (handle: sbb::TextHandle<'_>)
        requires
            old(self).wf(),
            slot.wf(),
        ensures
            handle.wf(),
            handle.sbb == slot,
            handle.size == map::TextSize::Base,
            *handle.memory == old(self).memory,
            final(self).memory == *final(handle.memory),
            final(self).mode == old(self).mode,
    {
        slot.text_handle(map::TextSize::Base, self.erased())
    }
}

/// What is only there in mixed mode.
impl Control<Mixed> {
    /// The handle of the text layer `slot`.
    pub fn text_layer(&mut self, slot: layer::MixedSlot) -> (handle: layer::Handle<'_, Text>)
        requires
            old(self).wf(),
        ensures
            handle.wf(),
            handle.bg == match slot {
                layer::MixedSlot::_0 => layer::text::Slot::_0,
                layer::MixedSlot::_1 => layer::text::Slot::_1,
            },
            handle.value == old(self).memory.layer_control@[handle.bg.layer()],
            *handle.memory == old(self).memory,
            final(self).memory == *final(handle.memory),
            final(self).mode == old(self).mode,
    {
        layer::Handle::new(self.erased(), slot.into_pure_text())
    }

    /// The handle of the affine layer, which is layer 2.
    pub fn affine_layer(&mut self) -> (handle: layer::Handle<'_, Affine>)
        requires
            old(self).wf(),
        ensures
            handle.wf(),
            handle.bg == layer::affine::Slot::_2,
            handle.value == old(self).memory.layer_control@[2],
            *handle.memory == old(self).memory,
            final(self).memory == *final(handle.memory),
            final(self).mode == old(self).mode,
    {
        layer::Handle::new(self.erased(), layer::affine::Slot::_2)
    }

    /// The handle of the affine tile map of size `map_size` that starts at the screen block
    /// `slot`. The map lies within background memory.
    pub fn affine_sbb(&mut self, slot: sbb::Slot, map_size: map::AffineSize) -> (handle:
        sbb::AffineHandle<'_>)
        requires
            old(self).wf(),
            slot.wf(),
            2 * slot.index() * SBB_SIZE + map_size.bounds().width * map_size.bounds().height <= 2
                * VRAM_LEN,
        ensures
            handle.wf(),
            handle.sbb == slot,
            handle.size == map_size,
            *handle.memory == old(self).memory,
            final(self).memory == *final(handle.memory),
            final(self).mode == old(self).mode,
    {
        slot.affine_handle(map_size, self.erased())
    }

    /// The handle of the affine tile map of 16 by 16 tiles at the screen block `slot`.
    pub fn basic_affine_sbb(&mut self, slot: sbb::Slot) -> (handle: sbb::AffineHandle<'_>)
        requires
            old(self).wf(),
            slot.wf(),
        ensures
            handle.wf(),
            handle.sbb == slot,
            handle.size == map::AffineSize::Base,
            *handle.memory == old(self).memory,
            final(self).memory == *final(handle.memory),
            final(self).mode == old(self).mode,
    {
        slot.affine_handle(map::AffineSize::Base, self.erased())
    }

    /// The handle of the text tile map of size `map_size` that starts at the screen block
    /// `slot`. The map lies within background memory.
    pub fn text_sbb(&mut self, slot: sbb::Slot, map_size: map::TextSize) -> (handle:
        sbb::TextHandle<'_>)
        requires
            old(self).wf(),
            slot.wf(),
            slot.index() * SBB_SIZE + map_size.bounds().width * map_size.bounds().height
                <= VRAM_LEN,
        ensures
            handle.wf(),
            handle.sbb == slot,
            handle.size == map_size,
            *handle.memory == old(self).memory,
            final(self).memory == *final(handle.memory),
            final(self).mode == old(self).mode,
    {
        slot.text_handle(map_size, self.erased())
    }

    /// The handle of the text tile map of 32 by 32 tiles at the screen block `slot`.
    pub fn basic_text_sbb(&mut self, slot: sbb::Slot) -> (handle: sbb::TextHandle<'_>)
        requires
            old(self).wf(),
            slot.wf(),
        ensures
            handle.wf(),
            handle.sbb == slot,
            handle.size == map::TextSize::Base,
            *handle.memory == old(self).memory,
            final(self).memory == *final(handle.memory),
            final(self).mode == old(self).mode,
    {
        slot.text_handle(map::TextSize::Base, self.erased())
    }
}

/// What is only there in affine mode.
impl Control<Affine> {
    /// The handle of the layer `slot`.
    pub fn layer(&mut self, slot: layer::affine::Slot) -> (handle: layer::Handle<'_, Affine>)
        requires
            old(self).wf(),
        ensures
            handle.wf(),
            handle.bg == slot,
            handle.value == old(self).memory.layer_control@[slot.layer()],
            *handle.memory == old(self).memory,
            final(self).memory == *final(handle.memory),
            final(self).mode == old(self).mode,
    {
        layer::Handle::new(self.erased(), slot)
    }

    /// The handle of the tile map of size `map_size` that starts at the screen block `slot`.
    /// The map lies within background memory.
    pub fn sbb(&mut self, slot: sbb::Slot, map_size: map::AffineSize) -> (handle:
        sbb::AffineHandle<'_>)
        requires
            old(self).wf(),
            slot.wf(),
            2 * slot.index() * SBB_SIZE + map_size.bounds().width * map_size.bounds().height <= 2
                * VRAM_LEN,
        ensures
            handle.wf(),
            handle.sbb == slot,
            handle.size == map_size,
            *handle.memory == old(self).memory,
            final(self).memory == *final(handle.memory),
            final(self).mode == old(self).mode,
    {
        slot.affine_handle(map_size, self.erased())
    }

    /// The handle of the tile map of 16 by 16 tiles at the screen block `slot`.
    pub fn basic_sbb(&mut self, slot: sbb::Slot) -> (handle: sbb::AffineHandle<'_>)
        requires
            old(self).wf(),
            slot.wf(),
        ensures
            handle.wf(),
            handle.sbb == slot,
            handle.size == map::AffineSize::Base,
            *handle.memory == old(self).memory,
            final(self).memory == *final(handle.memory),
            final(self).mode == old(self).mode,
    {
        slot.affine_handle(map::AffineSize::Base, self.erased())
    }
}

/// What is there in every mode that draws from tiles.
impl<M: mode::Tile> Control<M> {
    /// Copies the bitmaps of `tileset` to background memory, from the character block `slot`
    /// on. They may fill the blocks behind it too. What does not fit into the last block is
    /// dropped.
    pub fn load_tileset(&mut self, slot: cbb::Slot, tileset: &Tileset<colmod::Bit8>)
        requires
            old(self).wf(),
            slot.wf(),
        ensures
            final(self).wf(),
            final(self).memory.backgrounds@ == copied(
                old(self).memory.backgrounds@,
                slot.index() * CBB_SIZE,
                tileset@,
            ),
            final(self).memory.same_but_backgrounds(&old(self).memory),
    {
        let first = slot.index_volmatrix(character_blocks());
        self.memory.backgrounds.write_slice_at_offset(first, tileset.get());
    }

    /// Copies `palette` to the colours of the backgrounds. What does not fit is dropped.
    pub fn load_palette(&mut self, palette: &[Color])
        requires
            old(self).wf(),
        ensures
            final(self).wf(),
            final(self).memory.background_palette@ == copied(
                old(self).memory.background_palette@,
                0,
                palette@,
            ),
            final(self).memory.display_control == old(self).memory.display_control,
            final(self).memory.layer_control@ == old(self).memory.layer_control@,
            final(self).memory.text_scroll@ == old(self).memory.text_scroll@,
            final(self).memory.affine_origin@ == old(self).memory.affine_origin@,
            final(self).memory.affine_matrix@ == old(self).memory.affine_matrix@,
            final(self).memory.objects@ == old(self).memory.objects@,
            final(self).memory.register_writes@ == old(self).memory.register_writes@,
            final(self).memory.backgrounds@ == old(self).memory.backgrounds@,
            final(self).memory.object_tiles@ == old(self).memory.object_tiles@,
            final(self).memory.object_palette@ == old(self).memory.object_palette@,
    {
        self.memory.background_palette.write_slice(palette);
    }
}


/// Flipping an entry changes the one flip and nothing else, and the palette bank that was set
/// reads back and leaves the tile and the flips as they were.
pub proof fn lemma_tile_fields(raw: u16, bank: u16)
    ensures
        ({
            let flipped = with_flag_of(raw, HFLIP_BIT, !flag_of(raw, HFLIP_BIT));
            &&& flag_of(flipped, HFLIP_BIT) == !flag_of(raw, HFLIP_BIT)
            &&& flag_of(flipped, VFLIP_BIT) == flag_of(raw, VFLIP_BIT)
            &&& field_of(flipped, 0, TILE_INDEX_MASK) == field_of(raw, 0, TILE_INDEX_MASK)
            &&& field_of(flipped, PALBANK_LOW, PALBANK_MASK) == field_of(
                raw,
                PALBANK_LOW,
                PALBANK_MASK,
            )
        }),
        ({
            let flipped = with_flag_of(raw, VFLIP_BIT, !flag_of(raw, VFLIP_BIT));
            &&& flag_of(flipped, VFLIP_BIT) == !flag_of(raw, VFLIP_BIT)
            &&& flag_of(flipped, HFLIP_BIT) == flag_of(raw, HFLIP_BIT)
            &&& field_of(flipped, 0, TILE_INDEX_MASK) == field_of(raw, 0, TILE_INDEX_MASK)
            &&& field_of(flipped, PALBANK_LOW, PALBANK_MASK) == field_of(
                raw,
                PALBANK_LOW,
                PALBANK_MASK,
            )
        }),
        ({
            let painted = with_field_of(raw, PALBANK_LOW, PALBANK_MASK, bank);
            &&& field_of(painted, PALBANK_LOW, PALBANK_MASK) == bank & PALBANK_MASK
            &&& flag_of(painted, HFLIP_BIT) == flag_of(raw, HFLIP_BIT)
            &&& flag_of(painted, VFLIP_BIT) == flag_of(raw, VFLIP_BIT)
            &&& field_of(painted, 0, TILE_INDEX_MASK) == field_of(raw, 0, TILE_INDEX_MASK)
        }),
{
    let on_h = !flag_of(raw, HFLIP_BIT);
    let on_v = !flag_of(raw, VFLIP_BIT);
    assert((1u16 << 10u16) & (0x3ffu16 << 0u16) == 0 && (1u16 << 11u16) & (0x3ffu16 << 0u16) == 0
        && (1u16 << 10u16) & (0xfu16 << 12u16) == 0 && (1u16 << 11u16) & (0xfu16 << 12u16) == 0
        && (0xfu16 << 12u16) & (0x3ffu16 << 0u16) == 0 && (0x3ffu16 << 0u16) >> 0u16 == 0x3ffu16
        && (0xfu16 << 12u16) >> 12u16 == 0xfu16) by (bit_vector);
    crate::bits::lemma_flag_reads_back(raw, HFLIP_BIT, on_h);
    crate::bits::lemma_flag_keeps_other(raw, HFLIP_BIT, on_h, VFLIP_BIT);
    crate::bits::lemma_flag_keeps_field(raw, HFLIP_BIT, on_h, 0, TILE_INDEX_MASK);
    crate::bits::lemma_flag_keeps_field(raw, HFLIP_BIT, on_h, PALBANK_LOW, PALBANK_MASK);
    crate::bits::lemma_flag_reads_back(raw, VFLIP_BIT, on_v);
    crate::bits::lemma_flag_keeps_other(raw, VFLIP_BIT, on_v, HFLIP_BIT);
    crate::bits::lemma_flag_keeps_field(raw, VFLIP_BIT, on_v, 0, TILE_INDEX_MASK);
    crate::bits::lemma_flag_keeps_field(raw, VFLIP_BIT, on_v, PALBANK_LOW, PALBANK_MASK);
    crate::bits::lemma_field_reads_back(raw, PALBANK_LOW, PALBANK_MASK, bank);
    crate::bits::lemma_field_keeps_other(raw, PALBANK_LOW, PALBANK_MASK, bank, 0, TILE_INDEX_MASK);
    crate::bits::lemma_field_keeps_flag(raw, PALBANK_LOW, PALBANK_MASK, bank, HFLIP_BIT);
    crate::bits::lemma_field_keeps_flag(raw, PALBANK_LOW, PALBANK_MASK, bank, VFLIP_BIT);
}

} // verus!
