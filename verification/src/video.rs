//! Access to video memory, one display mode at a time.
//!
//! A [`Control`] owns the display. Its type says which mode the display is in, and with it
//! which layers and maps there are: what a mode does not have cannot be named.
use crate::bits::{field_of, with_field, with_field_of, with_flag, with_flag_of};
use crate::exec::ConsoleState;
use crate::video::memory::{
    copied, Attributes, VideoMemory, VolMemcopy, OBJECT_COUNT, OBJECT_TILES_LEN,
};
use crate::video::mode::Mode;
use crate::video::object::sprite;
use crate::video::object::sprite::{loaded, Sprite, ENTRY_PER_TILE};
use crate::video::object::{TileMapping, HIDDEN_BIT, SPRITE_FULL_SIZE};
use crate::block::{first_equal, first_holder, inserted, removed, room_of, span, Block};
use crate::video::tile::Color;
use core::marker::PhantomData;
use vstd::prelude::*;

pub mod colmod;
pub mod memory;
pub mod mode;
pub mod object;
pub mod palette;
pub mod structs;
pub mod tile;

verus! {

/// How far in front a layer or an object is drawn: lower is further in front.
#[derive(Clone, Copy, Debug, PartialEq, Eq, Structural)]
pub enum Priority {
    _0,
    _1,
    _2,
    _3,
}

impl Priority {
    /// The code of the priority in a register.
    pub open spec fn code(self) -> u16 {
        match self {
            Priority::_0 => 0,
            Priority::_1 => 1,
            Priority::_2 => 2,
            Priority::_3 => 3,
        }
    }

    /// The code of the priority in a register.
    pub fn bits(self) -> (code: u16)
        ensures
            code == self.code(),
    {
        match self {
            Priority::_0 => 0,
            Priority::_1 => 1,
            Priority::_2 => 2,
            Priority::_3 => 3,
        }
    }

    /// The priority of code `priority`, which is 0, 1, 2 or 3.
    pub fn new_unchecked(priority: u16) -> (out: Self)
        requires
            priority < 4,
        ensures
            out.code() == priority,
    {
        if priority == 0 {
            Priority::_0
        } else if priority == 1 {
            Priority::_1
        } else if priority == 2 {
            Priority::_2
        } else {
            Priority::_3
        }
    }
}


/// The bits of the display mode in the display control register.
pub const MODE_MASK: u16 = 0b111;

/// The bit of the display control register that lays the tiles of an object out one after the
/// other.
pub const OBJECT_1D_BIT: u16 = 6;

/// The bit of the display control register that shows layer 0; the bits of the other layers
/// follow it.
pub const LAYER_0_BIT: u16 = 8;

/// The bit of the display control register that shows the objects.
pub const OBJECTS_BIT: u16 = 12;

/// Setting or clearing a flag above the mode leaves the mode as it is.
pub proof fn lemma_flag_keeps_mode(word: u16, bit: u16, on: bool)
    requires
        3 <= bit < 16,
    ensures
        field_of(with_flag_of(word, bit, on), 0, MODE_MASK) == field_of(word, 0, MODE_MASK),
{
    assert((((word | (1u16 << bit)) >> 0u16) & 0b111u16) == ((word >> 0u16) & 0b111u16))
        by (bit_vector)
        requires
            3 <= bit < 16,
    ;
    assert((((word & !(1u16 << bit)) >> 0u16) & 0b111u16) == ((word >> 0u16) & 0b111u16))
        by (bit_vector)
        requires
            3 <= bit < 16,
    ;
}

/// The mode that was written to a display control register reads back.
pub proof fn lemma_mode_reads_back(word: u16, code: u16)
    requires
        code < 8,
    ensures
        field_of(with_field_of(word, 0, MODE_MASK, code), 0, MODE_MASK) == code,
{
    assert(((((word & !(0b111u16 << 0u16)) | ((code & 0b111u16) << 0u16)) >> 0u16) & 0b111u16)
        == code) by (bit_vector)
        requires
            code < 8,
    ;
}

/// A layer of mode `M`, to show or to hide it.
pub struct Layer<M: Mode> {
    value: u16,
    mode: PhantomData<M>,
}

impl<M: Mode> Layer<M> {
    /// The number of the layer.
    pub closed spec fn index(self) -> u16 {
        self.value
    }

    /// The layer exists.
    pub open spec fn wf(self) -> bool {
        self.index() < 4
    }

    /// `settings` with the bit that shows the layer set or cleared.
    pub fn set_display(self, bit: bool, settings: u16) -> (out: u16)
        requires
            self.wf(),
        ensures
            out == with_flag_of(settings, (LAYER_0_BIT + self.index()) as u16, bit),
    {
        with_flag(settings, LAYER_0_BIT + self.value, bit)
    }
}

impl Layer<mode::Text> {
    pub fn _0() -> (layer: Self)
        ensures
            layer.index() == 0,
    {
        Layer { value: 0, mode: PhantomData }
    }

    pub fn _1() -> (layer: Self)
        ensures
            layer.index() == 1,
    {
        Layer { value: 1, mode: PhantomData }
    }

    pub fn _2() -> (layer: Self)
        ensures
            layer.index() == 2,
    {
        Layer { value: 2, mode: PhantomData }
    }

    pub fn _3() -> (layer: Self)
        ensures
            layer.index() == 3,
    {
        Layer { value: 3, mode: PhantomData }
    }
}

impl Layer<mode::Mixed> {
    pub fn _0() -> (layer: Self)
        ensures
            layer.index() == 0,
    {
        Layer { value: 0, mode: PhantomData }
    }

    pub fn _1() -> (layer: Self)
        ensures
            layer.index() == 1,
    {
        Layer { value: 1, mode: PhantomData }
    }

    pub fn _2() -> (layer: Self)
        ensures
            layer.index() == 2,
    {
        Layer { value: 2, mode: PhantomData }
    }
}

impl Layer<mode::Affine> {
    pub fn _2() -> (layer: Self)
        ensures
            layer.index() == 2,
    {
        Layer { value: 2, mode: PhantomData }
    }

    pub fn _3() -> (layer: Self)
        ensures
            layer.index() == 3,
    {
        Layer { value: 3, mode: PhantomData }
    }
}

/// The display, in mode `M`.
///
/// There is one display, and the `Control` owns it: to make a second `Control`, a second
/// [`VideoMemory`] is needed. A change of mode takes the `Control` and gives one of the new
/// mode, so that nothing of the old mode can be used after it.
pub struct Control<M: Mode> {
    /// The registers and memories of the display.
    pub memory: VideoMemory,
    /// The mode.
    pub mode: PhantomData<M>,
}

impl<M: Mode> Control<M> {
    /// The display is well formed, and in the mode that the type says.
    pub open spec fn wf(&self) -> bool {
        &&& self.memory.wf()
        &&& field_of(self.memory.display_control, 0, MODE_MASK) == M::kind().code()
    }

    /// The display without its mode: what the handles borrow.
    pub fn erased(&mut self) -> (memory: &mut VideoMemory)
        ensures
            *memory == old(self).memory,
            final(self).memory == *final(memory),
            final(self).mode == old(self).mode,
    {
        &mut self.memory
    }

    /// Writes the display control register.
    fn write_display_control(&mut self, value: u16)
        ensures
            final(self).memory.display_control == value,
            final(self).memory.register_writes@ == old(self).memory.register_writes@ + 1,
            final(self).memory.layer_control@ == old(self).memory.layer_control@,
            final(self).memory.text_scroll@ == old(self).memory.text_scroll@,
            final(self).memory.affine_origin@ == old(self).memory.affine_origin@,
            final(self).memory.affine_matrix@ == old(self).memory.affine_matrix@,
            final(self).memory.objects@ == old(self).memory.objects@,
            final(self).memory.same_memories(&old(self).memory),
    {
        self.memory.display_control = value;
        proof {
            self.memory.register_writes@ = self.memory.register_writes@ + 1;
        }
    }

    /// Takes the display, and puts it in text mode. Memory stays as it is.
    pub fn init(memory: VideoMemory) -> (control: Control<mode::Text>)
        requires
            memory.wf(),
        ensures
            control.wf(),
            control.memory.display_control == with_field_of(
                memory.display_control,
                0,
                MODE_MASK,
                mode::Type::Text.code(),
            ),
            control.memory.register_writes@ == memory.register_writes@ + 1,
            control.memory.layer_control@ == memory.layer_control@,
            control.memory.text_scroll@ == memory.text_scroll@,
            control.memory.affine_origin@ == memory.affine_origin@,
            control.memory.affine_matrix@ == memory.affine_matrix@,
            control.memory.objects@ == memory.objects@,
            control.memory.same_memories(&memory),
    {
        let mut control = Control::<mode::Text> { memory, mode: PhantomData };
        let settings = control.memory.display_control;
        proof {
            lemma_mode_reads_back(settings, mode::Type::Text.code());
        }
        control.write_display_control(with_field(settings, 0, MODE_MASK, mode::Type::Text.bits()));
        control
    }

    /// Gives the display back.
    pub fn release(self) -> (memory: VideoMemory)
        ensures
            memory == self.memory,
    {
        self.memory
    }

    /// Puts the display in mode `N`. Memory stays as it is: until it is drawn over, the screen
    /// shows what the old mode left, read as the new mode reads it.
    pub fn enter_mode<N: Mode>(self) -> (control: Control<N>)
        requires
            self.wf(),
        ensures
            control.wf(),
            control.memory.display_control == with_field_of(
                self.memory.display_control,
                0,
                MODE_MASK,
                N::kind().code(),
            ),
            control.memory.register_writes@ == self.memory.register_writes@ + 1,
            control.memory.layer_control@ == self.memory.layer_control@,
            control.memory.text_scroll@ == self.memory.text_scroll@,
            control.memory.affine_origin@ == self.memory.affine_origin@,
            control.memory.affine_matrix@ == self.memory.affine_matrix@,
            control.memory.objects@ == self.memory.objects@,
            control.memory.same_memories(&self.memory),
    {
        let mut control = Control::<N> { memory: self.memory, mode: PhantomData };
        let old_settings = control.memory.display_control;
        proof {
            lemma_mode_reads_back(old_settings, N::kind().code());
        }
        control.write_display_control(with_field(old_settings, 0, MODE_MASK, N::mode_type().bits()));
        control
    }

    /// Shows `layer`.
    pub fn enable_layer(&mut self, layer: Layer<M>)
        requires
            old(self).wf(),
            layer.wf(),
        ensures
            final(self).wf(),
            final(self).memory.display_control == with_flag_of(
                old(self).memory.display_control,
                (LAYER_0_BIT + layer.index()) as u16,
                true,
            ),
            final(self).memory.register_writes@ == old(self).memory.register_writes@ + 1,
            final(self).memory.layer_control@ == old(self).memory.layer_control@,
            final(self).memory.text_scroll@ == old(self).memory.text_scroll@,
            final(self).memory.affine_origin@ == old(self).memory.affine_origin@,
            final(self).memory.affine_matrix@ == old(self).memory.affine_matrix@,
            final(self).memory.objects@ == old(self).memory.objects@,
            final(self).memory.same_memories(&old(self).memory),
    {
        let old_settings = self.memory.display_control;
        proof {
            lemma_flag_keeps_mode(old_settings, (LAYER_0_BIT + layer.index()) as u16, true);
        }
        self.write_display_control(layer.set_display(true, old_settings));
    }

    /// Hides `layer`.
    pub fn disable_layer(&mut self, layer: Layer<M>)
        requires
            old(self).wf(),
            layer.wf(),
        ensures
            final(self).wf(),
            final(self).memory.display_control == with_flag_of(
                old(self).memory.display_control,
                (LAYER_0_BIT + layer.index()) as u16,
                false,
            ),
            final(self).memory.register_writes@ == old(self).memory.register_writes@ + 1,
            final(self).memory.layer_control@ == old(self).memory.layer_control@,
            final(self).memory.text_scroll@ == old(self).memory.text_scroll@,
            final(self).memory.affine_origin@ == old(self).memory.affine_origin@,
            final(self).memory.affine_matrix@ == old(self).memory.affine_matrix@,
            final(self).memory.objects@ == old(self).memory.objects@,
            final(self).memory.same_memories(&old(self).memory),
    {
        let old_settings = self.memory.display_control;
        proof {
            lemma_flag_keeps_mode(old_settings, (LAYER_0_BIT + layer.index()) as u16, false);
        }
        self.write_display_control(layer.set_display(false, old_settings));
    }

    /// Clears the display control register but for the mode: no layer and no object is shown.
    pub fn reset_display_control(&mut self)
        requires
            old(self).wf(),
        ensures
            final(self).wf(),
            final(self).memory.display_control == with_field_of(0, 0, MODE_MASK, M::kind().code()),
            final(self).memory.register_writes@ == old(self).memory.register_writes@ + 1,
            final(self).memory.layer_control@ == old(self).memory.layer_control@,
            final(self).memory.text_scroll@ == old(self).memory.text_scroll@,
            final(self).memory.affine_origin@ == old(self).memory.affine_origin@,
            final(self).memory.affine_matrix@ == old(self).memory.affine_matrix@,
            final(self).memory.objects@ == old(self).memory.objects@,
            final(self).memory.same_memories(&old(self).memory),
    {
        proof {
            lemma_mode_reads_back(0, M::kind().code());
        }
        self.write_display_control(with_field(0, 0, MODE_MASK, M::mode_type().bits()));
    }

    /// Hides every object: one write to each entry of the object table.
    pub fn reset_objects(&mut self)
        requires
            old(self).wf(),
        ensures
            final(self).wf(),
            final(self).memory.objects@.len() == OBJECT_COUNT,
            forall|i: int|
                0 <= i < OBJECT_COUNT ==> final(self).memory.objects@[i] == (Attributes {
                    attr0: with_flag_of(old(self).memory.objects@[i].attr0, HIDDEN_BIT, true),
                    attr1: old(self).memory.objects@[i].attr1,
                    attr2: old(self).memory.objects@[i].attr2,
                }),
            final(self).memory.register_writes@ == old(self).memory.register_writes@ + OBJECT_COUNT,
            final(self).memory.display_control == old(self).memory.display_control,
            final(self).memory.layer_control@ == old(self).memory.layer_control@,
            final(self).memory.text_scroll@ == old(self).memory.text_scroll@,
            final(self).memory.affine_origin@ == old(self).memory.affine_origin@,
            final(self).memory.affine_matrix@ == old(self).memory.affine_matrix@,
            final(self).memory.same_memories(&old(self).memory),
    {
        let mut slot: u32 = 0;
        while slot < object::Slot::MAX_BLOCKS
            invariant
                slot <= OBJECT_COUNT,
                self.wf(),
                forall|i: int|
                    0 <= i < slot ==> self.memory.objects@[i] == (Attributes {
                        attr0: with_flag_of(old(self).memory.objects@[i].attr0, HIDDEN_BIT, true),
                        attr1: old(self).memory.objects@[i].attr1,
                        attr2: old(self).memory.objects@[i].attr2,
                    }),
                forall|i: int|
                    slot <= i < OBJECT_COUNT ==> self.memory.objects@[i] == old(
                        self,
                    ).memory.objects@[i],
                self.memory.register_writes@ == old(self).memory.register_writes@ + slot,
                self.memory.display_control == old(self).memory.display_control,
                self.memory.layer_control@ == old(self).memory.layer_control@,
                self.memory.text_scroll@ == old(self).memory.text_scroll@,
                self.memory.affine_origin@ == old(self).memory.affine_origin@,
                self.memory.affine_matrix@ == old(self).memory.affine_matrix@,
                self.memory.same_memories(&old(self).memory),
            decreases OBJECT_COUNT - slot,
        {
            let token = object::Slot::new_unchecked(slot);
            let mut handle = object::Handle::new(&mut self.memory, &token);
            handle.set_visible(false);
            handle.commit();
            slot = slot + 1;
        }
    }

    /// Sets how the tiles of an object that takes several are laid out in memory.
    pub fn set_object_tile_mapping(&mut self, mapping: TileMapping)
        requires
            old(self).wf(),
        ensures
            final(self).wf(),
            final(self).memory.display_control == with_flag_of(
                old(self).memory.display_control,
                OBJECT_1D_BIT,
                mapping == TileMapping::OneDim,
            ),
            final(self).memory.register_writes@ == old(self).memory.register_writes@ + 1,
            final(self).memory.layer_control@ == old(self).memory.layer_control@,
            final(self).memory.text_scroll@ == old(self).memory.text_scroll@,
            final(self).memory.affine_origin@ == old(self).memory.affine_origin@,
            final(self).memory.affine_matrix@ == old(self).memory.affine_matrix@,
            final(self).memory.objects@ == old(self).memory.objects@,
            final(self).memory.same_memories(&old(self).memory),
    {
        let old_settings = self.memory.display_control;
        proof {
            lemma_flag_keeps_mode(old_settings, OBJECT_1D_BIT, mapping == TileMapping::OneDim);
        }
        self.write_display_control(with_flag(old_settings, OBJECT_1D_BIT, mapping.is_1d()));
    }

    /// Shows the objects.
    pub fn enable_objects(&mut self)
        requires
            old(self).wf(),
        ensures
            final(self).wf(),
            final(self).memory.display_control == with_flag_of(
                old(self).memory.display_control,
                OBJECTS_BIT,
                true,
            ),
            final(self).memory.register_writes@ == old(self).memory.register_writes@ + 1,
            final(self).memory.layer_control@ == old(self).memory.layer_control@,
            final(self).memory.text_scroll@ == old(self).memory.text_scroll@,
            final(self).memory.affine_origin@ == old(self).memory.affine_origin@,
            final(self).memory.affine_matrix@ == old(self).memory.affine_matrix@,
            final(self).memory.objects@ == old(self).memory.objects@,
            final(self).memory.same_memories(&old(self).memory),
    {
        let old_settings = self.memory.display_control;
        proof {
            lemma_flag_keeps_mode(old_settings, OBJECTS_BIT, true);
        }
        self.write_display_control(with_flag(old_settings, OBJECTS_BIT, true));
    }

    /// Hides the objects.
    pub fn disable_objects(&mut self)
        requires
            old(self).wf(),
        ensures
            final(self).wf(),
            final(self).memory.display_control == with_flag_of(
                old(self).memory.display_control,
                OBJECTS_BIT,
                false,
            ),
            final(self).memory.register_writes@ == old(self).memory.register_writes@ + 1,
            final(self).memory.layer_control@ == old(self).memory.layer_control@,
            final(self).memory.text_scroll@ == old(self).memory.text_scroll@,
            final(self).memory.affine_origin@ == old(self).memory.affine_origin@,
            final(self).memory.affine_matrix@ == old(self).memory.affine_matrix@,
            final(self).memory.objects@ == old(self).memory.objects@,
            final(self).memory.same_memories(&old(self).memory),
    {
        let old_settings = self.memory.display_control;
        proof {
            lemma_flag_keeps_mode(old_settings, OBJECTS_BIT, false);
        }
        self.write_display_control(with_flag(old_settings, OBJECTS_BIT, false));
    }

    /// The handle of the object of `slot`.
    pub fn object<'a>(&'a mut self, slot: &object::Slot) -> (handle: object::Handle<'a>)
        requires
            old(self).wf(),
            slot.wf(),
        ensures
            handle.wf(),
            handle.register == slot.index(),
            handle.value == old(self).memory.objects@[slot.index()],
            *handle.memory == old(self).memory,
            final(self).memory == *final(handle.memory),
            final(self).mode == old(self).mode,
    {
        object::Handle::new(self.erased(), slot)
    }

    /// Copies `palette` to the colours of the objects, from colour `offset` on. What does not
    /// fit is dropped.
    pub fn load_object_palette(&mut self, offset: usize, palette: &[Color])
        requires
            old(self).wf(),
        ensures
            final(self).wf(),
            final(self).memory.object_palette@ == copied(
                old(self).memory.object_palette@,
                offset as int,
                palette@,
            ),
            final(self).memory.display_control == old(self).memory.display_control,
            final(self).memory.layer_control@ == old(self).memory.layer_control@,
            final(self).memory.text_scroll@ == old(self).memory.text_scroll@,
            final(self).memory.affine_origin@ == old(self).memory.affine_origin@,
            final(self).memory.affine_matrix@ == old(self).memory.affine_matrix@,
            final(self).memory.objects@ == old(self).memory.objects@,
            final(self).memory.register_writes@ == old(self).memory.register_writes@,
            final(self).memory.backgrounds@ == old(self).memory.backgrounds@,
            final(self).memory.object_tiles@ == old(self).memory.object_tiles@,
            final(self).memory.background_palette@ == old(self).memory.background_palette@,
    {
        self.memory.object_palette.write_slice_at_offset(offset, palette);
    }

    /// Loads `sprite`: gives it room in object tile memory and copies its tiles there. A sprite
    /// that is loaded keeps its room, and its tiles are copied once more. `None`, with nothing
    /// changed, if there is no room left.
    pub fn load_sprite(&mut self, console: &mut ConsoleState, sprite: &Sprite) -> (slot: Option<
        sprite::Slot,
    >)
        requires
            old(self).wf(),
            old(console).wf(),
        ensures
            final(self).wf(),
            final(console).wf(),
            final(console).same_but_sprites(old(console)),
            final(console).objects.sprites() == inserted(
                old(console).objects.sprites(),
                SPRITE_FULL_SIZE,
                sprite.ident().key(),
                sprite.form().tiles(),
            ).0,
            match inserted(
                old(console).objects.sprites(),
                SPRITE_FULL_SIZE,
                sprite.ident().key(),
                sprite.form().tiles(),
            ).1 {
                Some(offset) => {
                    &&& slot == Some(sprite::Slot { offset })
                    &&& (offset + room_of(final(console).objects.sprites(), sprite.ident().key()))
                        * ENTRY_PER_TILE <= OBJECT_TILES_LEN
                    &&& final(self).memory.object_tiles@ == loaded(
                        old(self).memory.object_tiles@,
                        sprite::Slot { offset },
                        sprite@,
                    )
                },
                None => {
                    &&& slot is None
                    &&& final(self).memory.object_tiles@ == old(self).memory.object_tiles@
                },
            },
            final(self).memory.same_but_backgrounds_and_tiles(&old(self).memory),
    {
        match console.objects.reserve_sprite(sprite.id(), sprite.tile_count()) {
            Some(offset) => {
                sprite.load_at_slot(&mut self.memory, offset);
                Some(offset)
            },
            None => None,
        }
    }

    /// Loads the sheet `sprite`, as [`Control::load_sprite`] loads a sprite.
    pub fn load_sprite_sheet<const I: u16>(
        &mut self,
        console: &mut ConsoleState,
        sprite: &sprite::Sheet<I>,
    ) -> (slot: Option<sprite::SheetSlot<I>>)
        requires
            old(self).wf(),
            old(console).wf(),
        ensures
            final(self).wf(),
            final(console).wf(),
            final(console).same_but_sprites(old(console)),
            final(console).objects.sprites() == inserted(
                old(console).objects.sprites(),
                SPRITE_FULL_SIZE,
                sprite.ident().key(),
                I,
            ).0,
            match inserted(old(console).objects.sprites(), SPRITE_FULL_SIZE, sprite.ident().key(), I).1 {
                Some(offset) => {
                    &&& slot matches Some(sheet)
                    &&& sheet.first() == offset
                    &&& (offset + room_of(final(console).objects.sprites(), sprite.ident().key()))
                        * ENTRY_PER_TILE <= OBJECT_TILES_LEN
                    &&& final(self).memory.object_tiles@ == loaded(
                        old(self).memory.object_tiles@,
                        sprite::Slot { offset },
                        sprite@,
                    )
                },
                None => {
                    &&& slot is None
                    &&& final(self).memory.object_tiles@ == old(self).memory.object_tiles@
                },
            },
            final(self).memory.same_but_backgrounds_and_tiles(&old(self).memory),
    {
        match console.objects.reserve_sprite(sprite.id(), sprite.tile_count()) {
            Some(offset) => {
                sprite.load_at_slot(&mut self.memory, offset);
                Some(sprite::SheetSlot::from_slot(offset))
            },
            None => None,
        }
    }

    /// Gives up the room of `sprite` in object tile memory and tells whether it had any.
    /// Objects that show the sprite go on showing what lies there.
    pub fn unload_sprite(&mut self, console: &mut ConsoleState, sprite: &Sprite) -> (found: bool)
        requires
            old(console).wf(),
        ensures
            final(console).wf(),
            final(console).same_but_sprites(old(console)),
            found == (first_holder(old(console).objects.sprites(), sprite.ident().key(), 0) < old(
                console,
            ).objects.sprites().len()),
            final(console).objects.sprites() == removed(
                old(console).objects.sprites(),
                sprite.ident().key(),
            ),
            *final(self) == *old(self),
    {
        console.objects.free_sprite(sprite.id())
    }

    /// Gives up the room of the sheet `sprite`, as [`Control::unload_sprite`] does for a
    /// sprite.
    pub fn unload_sprite_sheet<const I: u16>(
        &mut self,
        console: &mut ConsoleState,
        sprite: &sprite::Sheet<I>,
    ) -> (found: bool)
        requires
            old(console).wf(),
        ensures
            final(console).wf(),
            final(console).same_but_sprites(old(console)),
            found == (first_holder(old(console).objects.sprites(), sprite.ident().key(), 0) < old(
                console,
            ).objects.sprites().len()),
            final(console).objects.sprites() == removed(
                old(console).objects.sprites(),
                sprite.ident().key(),
            ),
            *final(self) == *old(self),
    {
        console.objects.free_sprite(sprite.id())
    }

    /// Puts `new` in the room of `previous`, which takes as many tiles, and copies its tiles
    /// there. `None`, with nothing changed, if `previous` has no room of exactly that size.
    pub fn replace_spirte(
        &mut self,
        console: &mut ConsoleState,
        previous: &Sprite,
        new: &Sprite,
    ) -> (slot: Option<sprite::Slot>)
        requires
            old(self).wf(),
            old(console).wf(),
        ensures
            final(self).wf(),
            final(console).wf(),
            final(console).same_but_sprites(old(console)),
            ({
                let wanted = Block::Full(previous.ident().key(), new.form().tiles());
                let at = first_equal(old(console).objects.sprites(), wanted, 0);
                if at < old(console).objects.sprites().len() {
                    let place = sprite::Slot {
                        offset: span(old(console).objects.sprites(), at) as u16,
                    };
                    &&& slot == Some(place)
                    &&& (place.offset + new.form().tiles()) * ENTRY_PER_TILE <= OBJECT_TILES_LEN
                    &&& final(console).objects.sprites() == old(console).objects.sprites().update(
                        at,
                        Block::Full(new.ident().key(), new.form().tiles()),
                    )
                    &&& final(self).memory.object_tiles@ == loaded(
                        old(self).memory.object_tiles@,
                        place,
                        new@,
                    )
                } else {
                    &&& slot is None
                    &&& final(console).objects.sprites() == old(console).objects.sprites()
                    &&& final(self).memory.object_tiles@ == old(self).memory.object_tiles@
                }
            }),
            final(self).memory.same_but_backgrounds_and_tiles(&old(self).memory),
    {
        match console.objects.replace_sprite(previous.id(), new) {
            Some(offset) => {
                new.load_at_slot(&mut self.memory, offset);
                Some(offset)
            },
            None => None,
        }
    }
}

} // verus!
