//! A small random number generator.
use vstd::prelude::*;

verus! {

/// The step by which the seed moves on.
pub const SEED_STEP: u64 = 0xa076_1d64_78bd_642f;

/// The mask that gives the second factor of the mix.
pub const MIX_MASK: u64 = 0xe703_7ed1_a0b4_28db;

/// `value` with its halves exchanged.
pub open spec fn swap_halves(value: u64) -> u64 {
    (value << 32) | (value >> 32)
}

/// The product of two halves of 32 bits, which fits 64 bits.
pub open spec fn half_product(a: u64, b: u64) -> u64 {
    (a * b) as u64
}

/// The mix of `a` and `b`: the four products of their halves, folded into 64 bits.
pub open spec fn mix(a: u64, b: u64) -> u64 {
    let hh = half_product(a >> 32, b >> 32);
    let hl = half_product(a >> 32, b & 0xffff_ffff);
    let lh = half_product(a & 0xffff_ffff, b >> 32);
    let ll = half_product(a & 0xffff_ffff, b & 0xffff_ffff);
    (swap_halves(hl) ^ hh) ^ (swap_halves(lh) ^ ll)
}

/// The seed that follows `seed`.
pub open spec fn next_seed(seed: u64) -> u64 {
    ((seed + SEED_STEP) % 0x1_0000_0000_0000_0000) as u64
}

/// The number that a generator gives when its seed has moved on to `seed`.
pub open spec fn output(seed: u64) -> u64 {
    mix(seed, seed ^ MIX_MASK)
}

/// The product of two halves.
fn times(a: u64, b: u64) -> (product: u64)
    requires
        a <= 0xffff_ffff,
        b <= 0xffff_ffff,
    ensures
        product == half_product(a, b),
{
    assert(a * b <= 0xffff_ffff * 0xffff_ffff) by (nonlinear_arith)
        requires
            a <= 0xffff_ffff,
            b <= 0xffff_ffff,
    ;
    a * b
}

/// Mixes `a` and `b`.
pub fn random(a: u64, b: u64) -> (mixed: u64)
    ensures
        mixed == mix(a, b),
{
    assert(a >> 32 <= 0xffff_ffff) by (bit_vector);
    assert(b >> 32 <= 0xffff_ffff) by (bit_vector);
    assert(a & 0xffff_ffff <= 0xffff_ffff) by (bit_vector);
    assert(b & 0xffff_ffff <= 0xffff_ffff) by (bit_vector);
    let hh = times(a >> 32, b >> 32);
    let hl = times(a >> 32, b & 0xffff_ffff);
    let lh = times(a & 0xffff_ffff, b >> 32);
    let ll = times(a & 0xffff_ffff, b & 0xffff_ffff);
    let a = ((hl << 32) | (hl >> 32)) ^ hh;
    let b = ((lh << 32) | (lh >> 32)) ^ ll;
    a ^ b
}

/// A generator of random numbers, which is its seed.
pub struct Rng {
    seed: u64,
}

impl Default for Rng {
    /// The generator that a console starts with.
    fn default() -> (rng: Self)
        ensures
            rng.seed() == SEED_STEP,
    {
        Rng { seed: SEED_STEP }
    }
}

impl Rng {
    /// The seed.
    pub closed spec fn seed(&self) -> u64 {
        self.seed
    }

    /// A generator that starts from `seed`.
    pub fn new(seed: u64) -> (rng: Self)
        ensures
            rng.seed() == seed,
    {
        Rng { seed }
    }

    /// A random number. The seed moves on.
    pub fn u64(&mut self) -> (number: u64)
        ensures
            final(self).seed() == next_seed(old(self).seed()),
            number == output(final(self).seed()),
    {
        self.seed = self.seed.wrapping_add(SEED_STEP);
        random(self.seed, self.seed ^ MIX_MASK)
    }

    /// A source of random numbers of `COUNT` bits each, `COUNT` being 1 to 32.
    pub fn random_bits<const COUNT: u32>(&mut self) -> (bits: RandBitsIter<'_, COUNT>)
        requires
            0 < COUNT <= 32,
        ensures
            bits.inner.seed() == next_seed(old(self).seed()),
            bits.random_value == output(bits.inner.seed()),
            bits.items_for_value == 0,
            *final(self) == *final(bits.inner),
    {
        let random_value = self.u64();
        RandBitsIter { random_value, inner: self, items_for_value: 0 }
    }

    /// Starts over from `seed`.
    pub fn reseed(&mut self, seed: u64)
        ensures
            final(self).seed() == seed,
    {
        self.seed = seed;
    }
}

/// The low `count` bits of `value`.
pub open spec fn low_bits(value: u64, count: u32) -> u64 {
    value & (((1u64 << count) - 1) as u64)
}

/// A source of random numbers of `COUNT` bits each: it cuts each number of the generator
/// into as many pieces as fit, and then takes the next.
pub struct RandBitsIter<'a, const COUNT: u32> {
    /// The generator.
    pub inner: &'a mut Rng,
    /// What is left of the number that is being cut up.
    pub random_value: u64,
    /// How many pieces were cut from it.
    pub items_for_value: u32,
}

impl<'a, const COUNT: u32> RandBitsIter<'a, COUNT> {
    /// The next number: the low `COUNT` bits of what is left. After `64 / COUNT` pieces a new
    /// number is taken from the generator first.
    pub fn next(&mut self) -> (item: usize)
        requires
            0 < COUNT <= 32,
            old(self).items_for_value <= 64u32 / COUNT,
        ensures
            ({
                let refill = old(self).items_for_value == 64u32 / COUNT;
                let value = if refill {
                    output(next_seed(old(self).inner.seed()))
                } else {
                    old(self).random_value
                };
                &&& item == low_bits(value, COUNT)
                &&& final(self).random_value == value >> COUNT
                &&& final(self).items_for_value == if refill {
                    1
                } else {
                    old(self).items_for_value + 1
                }
                &&& final(self).inner.seed() == if refill {
                    next_seed(old(self).inner.seed())
                } else {
                    old(self).inner.seed()
                }
            }),
            final(self).items_for_value <= 64u32 / COUNT,
            *final(final(self).inner) == *final(old(self).inner),
    {
        let item_per_value: u32 = 64 / COUNT;
        if self.items_for_value == item_per_value {
            self.random_value = self.inner.u64();
            self.items_for_value = 0;
        }
        let count: u32 = COUNT;
        assert(64u32 / count >= 2) by (bit_vector)
            requires
                0 < count <= 32,
        ;
        let value: u64 = self.random_value;
        assert(0 < (1u64 << count) && (value & (((1u64 << count) - 1) as u64)) <= 0xffff_ffff)
            by (bit_vector)
            requires
                0 < count <= 32,
        ;
        let mask: u64 = (1u64 << COUNT) - 1;
        let ret = value & mask;
        self.items_for_value = self.items_for_value + 1;
        self.random_value = self.random_value >> COUNT;
        ret as usize
    }
}

} // verus!
