//! A 128-slot occupancy bitmap.
use vstd::prelude::*;
use vstd::std_specs::bits::axiom_u64_trailing_ones;

verus! {

/// Whether bit `i` of `word` is set.
pub open spec fn bit_is_set(word: u128, i: int) -> bool {
    0 <= i < 128 && (word >> (i as u128)) & 1u128 == 1u128
}

/// The indices that a bitmap word marks as taken.
pub open spec fn taken_indices(word: u128) -> Set<int> {
    Set::new(|i: int| bit_is_set(word, i))
}

/// The index that `reserve` and `free` act on: indices count modulo 128.
pub open spec fn slot_of(index: u32) -> int {
    (index % 128) as int
}

proof fn lemma_low_half(word: u128, j: u64)
    by (bit_vector)
    requires
        j < 64,
    ensures
        ((word >> (j as u128)) & 1u128 == 1u128) == (((word & 0xffff_ffff_ffff_ffffu128) as u64 >> j)
            & 1u64 == 1u64),
{
}

proof fn lemma_high_half(word: u128, j: u64)
    by (bit_vector)
    requires
        j < 64,
    ensures
        ((word >> ((j + 64) as u128)) & 1u128 == 1u128) == ((((word >> 64u128) as u64) >> j) & 1u64
            == 1u64),
{
}

proof fn lemma_set_bit(word: u128, i: u128, j: u128)
    by (bit_vector)
    requires
        i < 128,
        j < 128,
    ensures
        ((word | (1u128 << i)) >> j) & 1u128 == (if i == j {
            1u128
        } else {
            (word >> j) & 1u128
        }),
{
}

proof fn lemma_clear_bit(word: u128, i: u128, j: u128)
    by (bit_vector)
    requires
        i < 128,
        j < 128,
    ensures
        ((word & !(1u128 << i)) >> j) & 1u128 == (if i == j {
            0u128
        } else {
            (word >> j) & 1u128
        }),
{
}

proof fn lemma_test_bit(word: u128, i: u128)
    by (bit_vector)
    requires
        i < 128,
    ensures
        (word & (1u128 << i) != 0) == ((word >> i) & 1u128 == 1u128),
{
}

/// A set of indices below 128, one bit each: bit `i` is set exactly when index `i` is taken.
#[derive(Clone, Copy, PartialEq, Eq, Structural)]
pub struct Bitset128(u128);

impl View for Bitset128 {
    type V = Set<int>;

    /// The taken indices.
    closed spec fn view(&self) -> Set<int> {
        taken_indices(self.0)
    }
}

impl Default for Bitset128 {
    /// A bitmap in which no index is taken.
    fn default() -> (set: Self)
        ensures
            set@ == Set::<int>::empty(),
    {
        let set = Bitset128(0);
        proof {
            assert forall|i: int| !bit_is_set(0u128, i) by {
                if 0 <= i < 128 {
                    let j = i as u128;
                    assert((0u128 >> j) & 1u128 == 0u128) by (bit_vector);
                }
            }
            assert(set@ =~= Set::<int>::empty());
        }
        set
    }
}

impl Bitset128 {
    /// Number of indices that the bitmap tracks.
    pub const INDEX_COUNT: u32 = 128;

    /// Every element of the view is an index below 128.
    pub proof fn lemma_view_in_range(self)
        ensures
            forall|i: int| self@.contains(i) ==> 0 <= i < 128,
    {
    }

    /// Whether `index` is taken.
    pub fn is_taken(&self, index: u32) -> (taken: bool)
        ensures
            taken == self@.contains(slot_of(index)),
    {
        let slot: u32 = index % 128;
        let mask: u128 = 1u128 << slot;
        proof {
            lemma_test_bit(self.0, slot as u128);
        }
        self.0 & mask != 0
    }

    /// The lowest index that is not taken, or `None` when all 128 are taken.
    pub fn first_free(&self) -> (free: Option<u32>)
        ensures
            match free {
                Some(i) => i < 128 && !self@.contains(i as int) && forall|j: int|
                    0 <= j < i ==> self@.contains(j),
                None => forall|j: int| 0 <= j < 128 ==> self@.contains(j),
            },
    {
        let low: u64 = (self.0 & 0xffff_ffff_ffff_ffffu128) as u64;
        let high: u64 = (self.0 >> 64u128) as u64;
        let low_ones: u32 = low.trailing_ones();
        proof {
            axiom_u64_trailing_ones(low);
            assert forall|j: int| 0 <= j < 64 implies (bit_is_set(self.0, j) == ((low >> (
            j as u64)) & 1u64 == 1u64)) by {
                lemma_low_half(self.0, j as u64);
            }
        }
        if low_ones < 64 {
            proof {
                assert forall|j: int| 0 <= j < low_ones implies self@.contains(j) by {
                    let k = j as u64;
                    assert((low >> k) & 1u64 == 1u64);
                }
                assert((low >> (low_ones as u64)) & 1u64 == 0u64);
            }
            Some(low_ones)
        } else {
            let high_ones: u32 = high.trailing_ones();
            proof {
                axiom_u64_trailing_ones(high);
                assert forall|j: int| 64 <= j < 128 implies (bit_is_set(self.0, j) == ((high >> ((
                j - 64) as u64)) & 1u64 == 1u64)) by {
                    lemma_high_half(self.0, (j - 64) as u64);
                }
                assert forall|j: int| 0 <= j < 64 implies self@.contains(j) by {
                    let k = j as u64;
                    assert((low >> k) & 1u64 == 1u64);
                }
                assert forall|j: int| 64 <= j < 64 + high_ones implies self@.contains(j) by {
                    let k = (j - 64) as u64;
                    assert((high >> k) & 1u64 == 1u64);
                }
            }
            if high_ones < 64 {
                proof {
                    assert((high >> (high_ones as u64)) & 1u64 == 0u64);
                    assert(!bit_is_set(self.0, 64 + high_ones));
                }
                Some(64 + high_ones)
            } else {
                None
            }
        }
    }

    /// Marks `index` (taken modulo 128) as taken and tells whether it already was.
    pub fn reserve(&mut self, index: u32) -> (already_taken: bool)
        ensures
            already_taken == old(self)@.contains(slot_of(index)),
            final(self)@ == old(self)@.insert(slot_of(index)),
    {
        let slot: u32 = index % 128;
        let mask: u128 = 1u128 << slot;
        let already_taken = self.0 & mask != 0;
        let ghost before = self.0;
        self.0 = self.0 | mask;
        proof {
            lemma_test_bit(before, slot as u128);
            assert forall|j: int| #[trigger]
                self@.contains(j) == old(self)@.insert(slot_of(index)).contains(j) by {
                if 0 <= j < 128 {
                    lemma_set_bit(before, slot as u128, j as u128);
                }
            }
            assert(self@ =~= old(self)@.insert(slot_of(index)));
        }
        already_taken
    }

    /// Marks `index` (taken modulo 128) as free and tells whether it already was.
    pub fn free(&mut self, index: u32) -> (already_free: bool)
        ensures
            already_free == !old(self)@.contains(slot_of(index)),
            final(self)@ == old(self)@.remove(slot_of(index)),
    {
        let slot: u32 = index % 128;
        let mask: u128 = 1u128 << slot;
        let already_free = self.0 & mask == 0;
        let ghost before = self.0;
        self.0 = self.0 & !mask;
        proof {
            lemma_test_bit(before, slot as u128);
            assert forall|j: int| #[trigger]
                self@.contains(j) == old(self)@.remove(slot_of(index)).contains(j) by {
                if 0 <= j < 128 {
                    lemma_clear_bit(before, slot as u128, j as u128);
                }
            }
            assert(self@ =~= old(self)@.remove(slot_of(index)));
        }
        already_free
    }
}


/// An index that was freed is found free when it is reserved next: freeing takes it out of the
/// taken indices, and reserving tells whether it is among them.
pub proof fn lemma_reserve_after_free(taken: Set<int>, index: u32)
    ensures
        !taken.remove(slot_of(index)).contains(slot_of(index)),
        taken.remove(slot_of(index)).insert(slot_of(index)) == taken.insert(slot_of(index)),
{
    assert(taken.remove(slot_of(index)).insert(slot_of(index)) =~= taken.insert(slot_of(index)));
}

} // verus!
