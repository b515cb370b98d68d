//! The layers of affine mode.
use crate::bits::{with_field, with_field_of, with_flag, with_flag_of};
use crate::video::memory::{Origin, RotationScale};
use crate::video::mode;
use crate::video::tile::layer::Slot as _;
use crate::video::tile::layer::{Handle, OVERFLOW_BIT, SIZE_LOW, SIZE_MASK};
use crate::video::tile::map::AffineSize;
use vstd::prelude::*;

verus! {

/// The background layers of affine mode.
#[derive(Clone, Copy, Debug, PartialEq, Eq, Structural)]
pub enum Slot {
    _2,
    _3,
}

impl super::Slot for Slot {
    open spec fn layer(self) -> int {
        match self {
            Slot::_2 => 2,
            Slot::_3 => 3,
        }
    }

    fn register(self) -> (index: usize) {
        match self {
            Slot::_2 => 2,
            Slot::_3 => 3,
        }
    }
}

impl Slot {
    /// The index of the layer among the affine layers: 0 for layer 2, 1 for layer 3.
    pub open spec fn affine_index(self) -> int {
        match self {
            Slot::_2 => 0,
            Slot::_3 => 1,
        }
    }

    /// The index of the layer's origin and matrix registers.
    pub fn transform_register(self) -> (index: usize)
        ensures
            index == self.affine_index(),
    {
        match self {
            Slot::_2 => 0,
            Slot::_3 => 1,
        }
    }
}

impl<'a> Handle<'a, mode::Affine> {
    /// Sets the size of the tile map of the layer.
    pub fn set_size(&mut self, size: AffineSize)
        ensures
            final(self).value == with_field_of(old(self).value, SIZE_LOW, SIZE_MASK, size.code()),
            final(self).bg == old(self).bg,
            *final(self).memory == *old(self).memory,
            *final(final(self).memory) == *final(old(self).memory),
    {
        self.value = with_field(self.value, SIZE_LOW, SIZE_MASK, size.bits());
    }

    /// Sets whether the map wraps around at its borders.
    pub fn set_overflow(&mut self, overflows: bool)
        ensures
            final(self).value == with_flag_of(old(self).value, OVERFLOW_BIT, overflows),
            final(self).bg == old(self).bg,
            *final(self).memory == *old(self).memory,
            *final(final(self).memory) == *final(old(self).memory),
    {
        self.value = with_flag(self.value, OVERFLOW_BIT, overflows);
    }

    /// Sets the horizontal origin of the layer, in fixed point with 8 fractional bits. The
    /// register is written at once.
    pub fn set_x_offset(&mut self, offset: i32)
        requires
            old(self).wf(),
        ensures
            final(self).wf(),
            final(self).value == old(self).value,
            final(self).bg == old(self).bg,
            final(self).memory.affine_origin@ == old(self).memory.affine_origin@.update(
                old(self).bg.affine_index(),
                Origin { x: offset, y: old(self).memory.affine_origin@[old(self).bg.affine_index()].y },
            ),
            final(self).memory.register_writes@ == old(self).memory.register_writes@ + 1,
            final(self).memory.display_control == old(self).memory.display_control,
            final(self).memory.layer_control@ == old(self).memory.layer_control@,
            final(self).memory.text_scroll@ == old(self).memory.text_scroll@,
            final(self).memory.affine_matrix@ == old(self).memory.affine_matrix@,
            final(self).memory.objects@ == old(self).memory.objects@,
            final(self).memory.same_memories(old(self).memory),
            *final(final(self).memory) == *final(old(self).memory),
    {
        let index = self.bg.transform_register();
        let origin = self.memory.affine_origin[index];
        self.memory.affine_origin.set(index, Origin { x: offset, y: origin.y });
        proof {
            self.memory.register_writes@ = self.memory.register_writes@ + 1;
        }
    }

    /// Sets the vertical origin of the layer, in fixed point with 8 fractional bits. The
    /// register is written at once.
    pub fn set_y_offset(&mut self, offset: i32)
        requires
            old(self).wf(),
        ensures
            final(self).wf(),
            final(self).value == old(self).value,
            final(self).bg == old(self).bg,
            final(self).memory.affine_origin@ == old(self).memory.affine_origin@.update(
                old(self).bg.affine_index(),
                Origin { x: old(self).memory.affine_origin@[old(self).bg.affine_index()].x, y: offset },
            ),
            final(self).memory.register_writes@ == old(self).memory.register_writes@ + 1,
            final(self).memory.display_control == old(self).memory.display_control,
            final(self).memory.layer_control@ == old(self).memory.layer_control@,
            final(self).memory.text_scroll@ == old(self).memory.text_scroll@,
            final(self).memory.affine_matrix@ == old(self).memory.affine_matrix@,
            final(self).memory.objects@ == old(self).memory.objects@,
            final(self).memory.same_memories(old(self).memory),
            *final(final(self).memory) == *final(old(self).memory),
    {
        let index = self.bg.transform_register();
        let origin = self.memory.affine_origin[index];
        self.memory.affine_origin.set(index, Origin { x: origin.x, y: offset });
        proof {
            self.memory.register_writes@ = self.memory.register_writes@ + 1;
        }
    }

    /// Sets the matrix of the layer, in fixed point with 8 fractional bits. The registers are
    /// written at once.
    pub fn set_transform(&mut self, t_00: i16, t_01: i16, t_10: i16, t_11: i16)
        requires
            old(self).wf(),
        ensures
            final(self).wf(),
            final(self).value == old(self).value,
            final(self).bg == old(self).bg,
            final(self).memory.affine_matrix@ == old(self).memory.affine_matrix@.update(
                old(self).bg.affine_index(),
                RotationScale { t_00, t_01, t_10, t_11 },
            ),
            final(self).memory.register_writes@ == old(self).memory.register_writes@ + 1,
            final(self).memory.display_control == old(self).memory.display_control,
            final(self).memory.layer_control@ == old(self).memory.layer_control@,
            final(self).memory.text_scroll@ == old(self).memory.text_scroll@,
            final(self).memory.affine_origin@ == old(self).memory.affine_origin@,
            final(self).memory.objects@ == old(self).memory.objects@,
            final(self).memory.same_memories(old(self).memory),
            *final(final(self).memory) == *final(old(self).memory),
    {
        let index = self.bg.transform_register();
        self.memory.affine_matrix.set(index, RotationScale { t_00, t_01, t_10, t_11 });
        proof {
            self.memory.register_writes@ = self.memory.register_writes@ + 1;
        }
    }
}

} // verus!
