//! Character blocks: where tile bitmaps lie in background memory.
use crate::video::memory::CBB_COUNT;
use crate::volmatrix::VolMatrix;
use vstd::prelude::*;

verus! {

/// One of the four character blocks.
#[derive(Clone, Copy, Debug, PartialEq, Eq, Structural)]
pub struct Slot(pub usize);

impl Slot {
    /// How many character blocks there are.
    pub const MAX_BLOCKS: usize = 4;

    /// The number of the block.
    pub open spec fn index(self) -> int {
        self.0 as int
    }

    /// The block exists.
    pub open spec fn wf(self) -> bool {
        self.0 < CBB_COUNT
    }

    /// The character block of number `inner`, which is below [`Slot::MAX_BLOCKS`].
    pub fn new(inner: usize) -> (slot: Self)
        requires
            inner < CBB_COUNT,
        ensures
            slot.wf(),
            slot.index() == inner,
    {
        Slot(inner)
    }

    /// The block `offset` blocks further on, or `None` if there is no such block.
    pub fn add(self, offset: usize) -> (next: Option<Self>)
        requires
            self.wf(),
        ensures
            next == if self.index() + offset < CBB_COUNT {
                Some(Slot((self.index() + offset) as usize))
            } else {
                None
            },
            next matches Some(slot) ==> slot.wf(),
    {
        if offset < CBB_COUNT - self.0 {
            Some(Slot(self.0 + offset))
        } else {
            None
        }
    }

    /// The number of the first cell of this block in a memory that `matrix` takes as character
    /// blocks of `C` cells.
    pub fn index_volmatrix<const C: usize>(self, matrix: VolMatrix<C, CBB_COUNT>) -> (first: usize)
        requires
            self.wf(),
            matrix.wf(),
        ensures
            first == matrix.cell(0, self.index()),
            first + C <= matrix.first() + C * CBB_COUNT,
    {
        matrix.row_unchecked(self.0)
    }

    /// The number of the block, as a register takes it.
    pub fn get(self) -> (index: u16)
        requires
            self.wf(),
        ensures
            index == self.index(),
    {
        self.0 as u16
    }
}

} // verus!
