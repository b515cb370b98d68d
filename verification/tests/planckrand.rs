use haldvance::planckrand::{random, Rng, SEED_STEP, MIX_MASK};

#[test]
fn the_mix_folds_the_products_of_the_halves() {
    assert_eq!(2, random(1, 2));
    assert_eq!(0x1_0000_0001, random(0x1_0000_0001, 0x2_0000_0003));
    assert_eq!(0, random(0, 0xffff_ffff_ffff_ffff));
}

#[test]
fn the_generator_gives_the_known_numbers() {
    let mut rng = Rng::new(0);
    assert_eq!(0x4ede_c8b1_96a6_9a09, rng.u64());
    assert_eq!(0xf75d_3515_3871_7a6d, rng.u64());
    assert_eq!(0xbfc4_26d8_72a8_2ebf, rng.u64());
    let mut rng = Rng::new(SEED_STEP);
    assert_eq!(0xf75d_3515_3871_7a6d, rng.u64());
    assert_eq!(0xa076_1d64_78bd_642f, SEED_STEP);
    assert_eq!(0xe703_7ed1_a0b4_28db, MIX_MASK);
}

#[test]
fn reseeding_starts_over() {
    let mut rng = Rng::new(5);
    let first = rng.u64();
    rng.u64();
    rng.reseed(5);
    assert_eq!(first, rng.u64());
}

#[test]
fn random_bits_cuts_each_number_into_pieces() {
    let mut rng = Rng::new(7);
    let mut bits = rng.random_bits::<8>();
    let pieces: Vec<usize> = (0..9).map(|_| bits.next()).collect();
    assert_eq!(vec![1, 39, 181, 251, 101, 32, 238, 45, 70], pieces);
    assert_eq!(1, bits.items_for_value);
    let mut other = Rng::new(7);
    other.u64();
    other.u64();
    assert_eq!(other.u64(), rng.u64());
}

#[test]
fn random_bits_of_32_bits_gives_two_pieces_a_number() {
    let mut rng = Rng::new(7);
    let mut bits = rng.random_bits::<32>();
    assert_eq!(0xfbb5_2701, bits.next());
    assert_eq!(0x2dee_2065, bits.next());
    assert_eq!(2, bits.items_for_value);
    bits.next();
    assert_eq!(1, bits.items_for_value);
}
