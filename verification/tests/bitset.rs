use haldvance::bitset::Bitset128;

#[test]
fn a_new_bitset_has_index_zero_free() {
    let set = Bitset128::default();
    assert_eq!(Some(0), set.first_free());
    assert!(!set.is_taken(0));
    assert!(!set.is_taken(127));
}

#[test]
fn first_free_is_the_lowest_clear_index() {
    let mut set = Bitset128::default();
    for index in 0..70 {
        assert_eq!(Some(index), set.first_free());
        assert!(!set.reserve(index));
    }
    assert!(!set.free(3));
    assert!(!set.free(65));
    assert_eq!(Some(3), set.first_free());
    assert!(!set.reserve(3));
    assert_eq!(Some(65), set.first_free());
    assert!(!set.reserve(65));
    assert_eq!(Some(70), set.first_free());
}

#[test]
fn reserve_tells_whether_the_index_was_taken() {
    let mut set = Bitset128::default();
    assert!(!set.reserve(5));
    assert!(set.reserve(5));
    assert!(set.is_taken(5));
    assert!(!set.is_taken(4));
}

#[test]
fn free_tells_whether_the_index_was_free() {
    let mut set = Bitset128::default();
    assert!(set.free(5));
    set.reserve(5);
    assert!(!set.free(5));
    assert!(set.free(5));
}

#[test]
fn reserving_a_just_freed_index_finds_it_free() {
    let mut set = Bitset128::default();
    set.reserve(100);
    set.free(100);
    assert!(!set.reserve(100));
}

#[test]
fn a_full_bitset_has_no_free_index() {
    let mut set = Bitset128::default();
    for index in 0..128 {
        set.reserve(index);
    }
    assert_eq!(None, set.first_free());
    set.free(127);
    assert_eq!(Some(127), set.first_free());
    set.reserve(127);
    set.free(64);
    assert_eq!(Some(64), set.first_free());
}

#[test]
fn indices_count_modulo_128() {
    let mut set = Bitset128::default();
    assert!(!set.reserve(128 + 9));
    assert!(set.is_taken(9));
    assert!(set.reserve(9));
    assert!(!set.free(256 + 9));
    assert!(!set.is_taken(9));
}

#[test]
fn index_count_is_128() {
    assert_eq!(128, Bitset128::INDEX_COUNT);
}
