//! Background layers and their control registers.
//!
//! A [`Handle`] reads the control register of one layer when it is made, takes every change
//! in a copy of its own, and writes the copy back once, in [`Handle::commit`].
use crate::bits::{field, field_of, with_field, with_field_of, with_flag, with_flag_of};
use crate::video::colmod::ColorMode;
use crate::video::memory::{VideoMemory, LAYER_COUNT};
use crate::video::mode;
use crate::video::tile::{cbb, sbb};
use crate::video::Priority;
use vstd::prelude::*;

pub mod affine;
pub mod text;

verus! {

/// Bit at which the priority of a layer starts in its control register.
pub const PRIORITY_LOW: u16 = 0;

/// The bits of the priority of a layer.
pub const PRIORITY_MASK: u16 = 0b11;

/// Bit at which the character block of a layer starts in its control register.
pub const CBB_LOW: u16 = 2;

/// The bits of the character block of a layer.
pub const CBB_MASK: u16 = 0b11;

/// The bit that selects tiles of 8 bits per pixel.
pub const COLOR_BIT: u16 = 7;

/// Bit at which the screen block of a layer starts in its control register.
pub const SBB_LOW: u16 = 8;

/// The bits of the screen block of a layer.
pub const SBB_MASK: u16 = 0b1_1111;

/// The bit that makes an affine map wrap around.
pub const OVERFLOW_BIT: u16 = 13;

/// Bit at which the size of the map starts in the control register of a layer.
pub const SIZE_LOW: u16 = 14;

/// The bits of the size of the map.
pub const SIZE_MASK: u16 = 0b11;

/// The name of a background layer.
pub trait Slot: Copy {
    /// The number of the layer, 0 to 3.
    spec fn layer(self) -> int;

    /// The number of the layer, which is the index of its control register.
    fn register(self) -> (index: usize)
        ensures
            index == self.layer(),
            index < LAYER_COUNT,
    ;
}

/// The text layers of mixed mode.
#[derive(Clone, Copy, Debug, PartialEq, Eq, Structural)]
pub enum MixedSlot {
    _0,
    _1,
}

impl MixedSlot {
    /// The same layer, as a layer of text mode.
    pub fn into_pure_text(self) -> (slot: text::Slot)
        ensures
            slot == match self {
                MixedSlot::_0 => text::Slot::_0,
                MixedSlot::_1 => text::Slot::_1,
            },
    {
        match self {
            MixedSlot::_0 => text::Slot::_0,
            MixedSlot::_1 => text::Slot::_1,
        }
    }
}

/// The settings of one background layer, held back until [`Handle::commit`].
pub struct Handle<'a, M: mode::Background> {
    /// The display that the layer belongs to.
    pub memory: &'a mut VideoMemory,
    /// The copy of the control register that the setters change.
    pub value: u16,
    /// The layer.
    pub bg: M::Slot,
}

impl<'a, M: mode::Background> Handle<'a, M> {
    /// The display is well formed.
    pub open spec fn wf(&self) -> bool {
        self.memory.wf()
    }

    /// The handle of layer `bg`, with the layer's control register read into it.
    pub fn new(memory: &'a mut VideoMemory, bg: M::Slot) -> (handle: Self)
        requires
            old(memory).wf(),
        ensures
            handle.wf(),
            handle.bg == bg,
            handle.value == old(memory).layer_control@[bg.layer()],
            *handle.memory == *old(memory),
            *final(memory) == *final(handle.memory),
    {
        let value = memory.layer_control[bg.register()];
        Handle { memory, value, bg }
    }

    /// Sets the priority of the layer and gives the one it had.
    pub fn set_priority(&mut self, priority: Priority) -> (previous: Priority)
        ensures
            previous.code() == field_of(old(self).value, PRIORITY_LOW, PRIORITY_MASK),
            final(self).value == with_field_of(
                old(self).value,
                PRIORITY_LOW,
                PRIORITY_MASK,
                priority.code(),
            ),
            final(self).bg == old(self).bg,
            *final(self).memory == *old(self).memory,
            *final(final(self).memory) == *final(old(self).memory),
    {
        let previous = Priority::new_unchecked(field(self.value, PRIORITY_LOW, PRIORITY_MASK));
        self.value = with_field(self.value, PRIORITY_LOW, PRIORITY_MASK, priority.bits());
        previous
    }

    /// Sets the screen block that holds the tile map of the layer and gives the one it had.
    pub fn set_sbb(&mut self, sbb: sbb::Slot) -> (previous: sbb::Slot)
        requires
            sbb.wf(),
        ensures
            previous.wf(),
            previous.index() == field_of(old(self).value, SBB_LOW, SBB_MASK),
            final(self).value == with_field_of(
                old(self).value,
                SBB_LOW,
                SBB_MASK,
                sbb.index() as u16,
            ),
            final(self).bg == old(self).bg,
            *final(self).memory == *old(self).memory,
            *final(final(self).memory) == *final(old(self).memory),
    {
        let previous = sbb::Slot::new(field(self.value, SBB_LOW, SBB_MASK) as usize);
        self.value = with_field(self.value, SBB_LOW, SBB_MASK, sbb.get());
        previous
    }

    /// Sets the character block that holds the tile bitmaps of the layer and gives the one it
    /// had.
    pub fn set_cbb(&mut self, cbb: cbb::Slot) -> (previous: cbb::Slot)
        requires
            cbb.wf(),
        ensures
            previous.wf(),
            previous.index() == field_of(old(self).value, CBB_LOW, CBB_MASK),
            final(self).value == with_field_of(
                old(self).value,
                CBB_LOW,
                CBB_MASK,
                cbb.index() as u16,
            ),
            final(self).bg == old(self).bg,
            *final(self).memory == *old(self).memory,
            *final(final(self).memory) == *final(old(self).memory),
    {
        let previous = cbb::Slot::new(field(self.value, CBB_LOW, CBB_MASK) as usize);
        self.value = with_field(self.value, CBB_LOW, CBB_MASK, cbb.get());
        previous
    }

    /// Sets the colour depth of the tiles of the layer.
    pub fn set_color_mode<CM: ColorMode>(&mut self)
        ensures
            final(self).value == with_flag_of(old(self).value, COLOR_BIT, CM::is_8bit()),
            final(self).bg == old(self).bg,
            *final(self).memory == *old(self).memory,
            *final(final(self).memory) == *final(old(self).memory),
    {
        self.value = with_flag(self.value, COLOR_BIT, CM::raw_repr());
    }

    /// Writes the settings to the control register of the layer: one write, whatever was set.
    pub fn commit(self)
        requires
            self.wf(),
        ensures
            final(self.memory).layer_control@ == old(self.memory).layer_control@.update(
                self.bg.layer(),
                self.value,
            ),
            final(self.memory).register_writes@ == old(self.memory).register_writes@ + 1,
            final(self.memory).display_control == old(self.memory).display_control,
            final(self.memory).text_scroll@ == old(self.memory).text_scroll@,
            final(self.memory).affine_origin@ == old(self.memory).affine_origin@,
            final(self.memory).affine_matrix@ == old(self.memory).affine_matrix@,
            final(self.memory).objects@ == old(self.memory).objects@,
            final(self.memory).same_memories(old(self.memory)),
            final(self.memory).wf(),
    {
        let index = self.bg.register();
        self.memory.layer_control.set(index, self.value);
        proof {
            self.memory.register_writes@ = self.memory.register_writes@ + 1;
        }
    }
}

} // verus!
