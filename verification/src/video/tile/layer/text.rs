//! The layers of text mode.
use crate::bits::{with_field, with_field_of};
use crate::video::mode;
use crate::video::structs::Pos;
use crate::video::tile::layer::Slot as _;
use crate::video::tile::layer::{Handle, SIZE_LOW, SIZE_MASK};
use crate::video::tile::map::TextSize;
use vstd::prelude::*;

verus! {

/// The background layers of text mode.
#[derive(Clone, Copy, Debug, PartialEq, Eq, Structural)]
pub enum Slot {
    _0,
    _1,
    _2,
    _3,
}

impl super::Slot for Slot {
    open spec fn layer(self) -> int {
        match self {
            Slot::_0 => 0,
            Slot::_1 => 1,
            Slot::_2 => 2,
            Slot::_3 => 3,
        }
    }

    fn register(self) -> (index: usize) {
        match self {
            Slot::_0 => 0,
            Slot::_1 => 1,
            Slot::_2 => 2,
            Slot::_3 => 3,
        }
    }
}

impl<'a> Handle<'a, mode::Text> {
    /// Sets the size of the tile map of the layer.
    pub fn set_size(&mut self, size: TextSize)
        ensures
            final(self).value == with_field_of(old(self).value, SIZE_LOW, SIZE_MASK, size.code()),
            final(self).bg == old(self).bg,
            *final(self).memory == *old(self).memory,
            *final(final(self).memory) == *final(old(self).memory),
    {
        self.value = with_field(self.value, SIZE_LOW, SIZE_MASK, size.bits());
    }

    /// Scrolls the layer horizontally. The scroll register is written at once.
    pub fn set_x_offset(&mut self, offset: u16)
        requires
            old(self).wf(),
        ensures
            final(self).wf(),
            final(self).value == old(self).value,
            final(self).bg == old(self).bg,
            final(self).memory.text_scroll@ == old(self).memory.text_scroll@.update(
                old(self).bg.layer(),
                Pos { x: offset, y: old(self).memory.text_scroll@[old(self).bg.layer()].y },
            ),
            final(self).memory.register_writes@ == old(self).memory.register_writes@ + 1,
            final(self).memory.display_control == old(self).memory.display_control,
            final(self).memory.layer_control@ == old(self).memory.layer_control@,
            final(self).memory.affine_origin@ == old(self).memory.affine_origin@,
            final(self).memory.affine_matrix@ == old(self).memory.affine_matrix@,
            final(self).memory.objects@ == old(self).memory.objects@,
            final(self).memory.same_memories(old(self).memory),
            *final(final(self).memory) == *final(old(self).memory),
    {
        let index = super::Slot::register(self.bg);
        let scroll = self.memory.text_scroll[index];
        self.memory.text_scroll.set(index, Pos { x: offset, y: scroll.y });
        proof {
            self.memory.register_writes@ = self.memory.register_writes@ + 1;
        }
    }

    /// Scrolls the layer vertically. The scroll register is written at once.
    pub fn set_y_offset(&mut self, offset: u16)
        requires
            old(self).wf(),
        ensures
            final(self).wf(),
            final(self).value == old(self).value,
            final(self).bg == old(self).bg,
            final(self).memory.text_scroll@ == old(self).memory.text_scroll@.update(
                old(self).bg.layer(),
                Pos { x: old(self).memory.text_scroll@[old(self).bg.layer()].x, y: offset },
            ),
            final(self).memory.register_writes@ == old(self).memory.register_writes@ + 1,
            final(self).memory.display_control == old(self).memory.display_control,
            final(self).memory.layer_control@ == old(self).memory.layer_control@,
            final(self).memory.affine_origin@ == old(self).memory.affine_origin@,
            final(self).memory.affine_matrix@ == old(self).memory.affine_matrix@,
            final(self).memory.objects@ == old(self).memory.objects@,
            final(self).memory.same_memories(old(self).memory),
            *final(final(self).memory) == *final(old(self).memory),
    {
        let index = super::Slot::register(self.bg);
        let scroll = self.memory.text_scroll[index];
        self.memory.text_scroll.set(index, Pos { x: scroll.x, y: offset });
        proof {
            self.memory.register_writes@ = self.memory.register_writes@ + 1;
        }
    }
}

} // verus!
