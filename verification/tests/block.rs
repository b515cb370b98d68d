use haldvance::block::{Block, Blocks, MAX_BLOCKS};

fn entries(blocks: &Blocks) -> Vec<Block> {
    (0..blocks.len()).map(|index| blocks.get(index).unwrap()).collect()
}

#[test]
fn test_gap() {
    let mut blocks = Blocks::new(128);
    assert_eq!(Some(0), blocks.insert_sized(1, 3));
    assert_eq!(Some(3), blocks.insert_sized(2, 20));
}

#[test]
fn test_reinsertion() {
    let mut blocks = Blocks::new(128);
    blocks.insert_sized(1, 3);
    blocks.insert_sized(2, 2);
    blocks.insert_sized(3, 8);
    blocks.remove(2);
    assert_eq!(Some(3), blocks.insert_sized(4, 1));
    assert_eq!(Some(3 + 1), blocks.insert_sized(5, 1));
}

#[test]
fn test_reinsertion_merging() {
    let mut blocks = Blocks::new(128);
    blocks.insert_sized(1, 3);
    blocks.insert_sized(2, 1);
    blocks.insert_sized(3, 1);
    blocks.insert_sized(4, 8);
    blocks.remove(2);
    blocks.remove(3);
    assert_eq!(Some(3), blocks.insert_sized(5, 2));
}

#[test]
fn test_fat_block() {
    let mut blocks = Blocks::new(128);
    blocks.insert_sized(1, 1);
    blocks.insert_sized(2, 1);
    blocks.insert_sized(3, 8);
    blocks.remove(2);
    assert_eq!(Some(1 + 1 + 8), blocks.insert_sized(4, 3));
}

#[test]
fn test_cleanup_single_block_end() {
    let mut blocks = Blocks::new(128);
    blocks.insert_sized(1, 1);
    blocks.insert_sized(2, 1);
    blocks.remove(2);
    assert_eq!(Some(2), blocks.insert_sized(3, 10));
}

#[test]
fn test_cleanup_multiple_block_end() {
    let mut blocks = Blocks::new(128);
    blocks.insert_sized(1, 1);
    blocks.insert_sized(2, 1);
    blocks.insert_sized(3, 1);
    blocks.remove(2);
    blocks.remove(3);
    assert_eq!(Some(1), blocks.insert_sized(4, 1));
}

#[test]
fn new_allocator_is_empty() {
    let blocks = Blocks::new(77);
    assert_eq!(0, blocks.len());
    assert_eq!(77, blocks.full_size());
    assert_eq!(0, blocks.extent());
    assert_eq!(None, blocks.get(0));
}

#[test]
fn a_gap_at_the_end_stays_and_a_larger_span_goes_behind_it() {
    let mut blocks = Blocks::new(128);
    blocks.insert_sized(1, 1);
    blocks.insert_sized(2, 1);
    assert!(blocks.remove(2));
    assert_eq!(vec![Block::Full(1, 1), Block::Gap(1)], entries(&blocks));
    assert_eq!(Some(2), blocks.insert_sized(3, 10));
    assert_eq!(
        vec![Block::Full(1, 1), Block::Gap(1), Block::Full(3, 10)],
        entries(&blocks)
    );
}

#[test]
fn inserting_twice_changes_nothing_the_second_time() {
    let mut blocks = Blocks::new(128);
    blocks.insert_sized(1, 3);
    let first = blocks.insert_sized(2, 20);
    let before = entries(&blocks);
    let second = blocks.insert_sized(2, 20);
    assert_eq!(Some(3), first);
    assert_eq!(first, second);
    assert_eq!(before, entries(&blocks));
    assert_eq!(23, blocks.extent());
}

#[test]
fn an_id_that_is_present_keeps_its_place_whatever_size_is_asked() {
    let mut blocks = Blocks::new(128);
    blocks.insert_sized(1, 3);
    blocks.insert_sized(2, 5);
    assert_eq!(Some(3), blocks.insert_sized(2, 100));
    assert_eq!(vec![Block::Full(1, 3), Block::Full(2, 5)], entries(&blocks));
}

#[test]
fn a_vacated_gap_is_reused_at_the_same_offset() {
    let mut blocks = Blocks::new(128);
    assert_eq!(Some(0), blocks.insert_sized(1, 3));
    assert_eq!(Some(3), blocks.insert_sized(2, 20));
    assert!(blocks.remove(1));
    assert_eq!(Some(0), blocks.insert_sized(3, 3));
    assert_eq!(vec![Block::Full(3, 3), Block::Full(2, 20)], entries(&blocks));
}

#[test]
fn a_gap_that_is_too_small_is_passed_over() {
    let mut blocks = Blocks::new(128);
    blocks.insert_sized(1, 1);
    blocks.insert_sized(2, 1);
    blocks.insert_sized(3, 8);
    blocks.remove(2);
    assert_eq!(Some(1), blocks.insert_sized(4, 1));
    assert_eq!(Some(10), blocks.insert_sized(5, 1));
}

#[test]
fn splitting_a_gap_leaves_the_rest_behind_the_new_span() {
    let mut blocks = Blocks::new(128);
    blocks.insert_sized(1, 2);
    blocks.insert_sized(2, 6);
    blocks.insert_sized(3, 2);
    blocks.remove(2);
    assert_eq!(Some(2), blocks.insert_sized(4, 4));
    assert_eq!(
        vec![
            Block::Full(1, 2),
            Block::Full(4, 4),
            Block::Gap(2),
            Block::Full(3, 2)
        ],
        entries(&blocks)
    );
    assert_eq!(Some(6), blocks.insert_sized(5, 2));
    assert_eq!(
        vec![
            Block::Full(1, 2),
            Block::Full(4, 4),
            Block::Full(5, 2),
            Block::Full(3, 2)
        ],
        entries(&blocks)
    );
}

#[test]
fn first_fit_takes_the_first_gap_not_the_best() {
    let mut blocks = Blocks::new(128);
    blocks.insert_sized(1, 5);
    blocks.insert_sized(2, 1);
    blocks.insert_sized(3, 2);
    blocks.insert_sized(4, 1);
    blocks.remove(1);
    blocks.remove(3);
    assert_eq!(Some((0, 0)), blocks.first_gap_of_size(2));
    assert_eq!(Some(0), blocks.insert_sized(5, 2));
    assert_eq!(
        vec![
            Block::Full(5, 2),
            Block::Gap(3),
            Block::Full(2, 1),
            Block::Gap(2),
            Block::Full(4, 1)
        ],
        entries(&blocks)
    );
}

#[test]
fn neighbouring_gaps_are_merged_on_removal() {
    let mut blocks = Blocks::new(128);
    blocks.insert_sized(1, 1);
    blocks.insert_sized(2, 2);
    blocks.insert_sized(3, 3);
    blocks.insert_sized(4, 4);
    blocks.remove(2);
    blocks.remove(3);
    assert_eq!(
        vec![Block::Full(1, 1), Block::Gap(5), Block::Full(4, 4)],
        entries(&blocks)
    );
    blocks.remove(1);
    assert_eq!(vec![Block::Gap(6), Block::Full(4, 4)], entries(&blocks));
}

#[test]
fn cleanup_changes_nothing_where_no_gaps_touch() {
    let mut blocks = Blocks::new(128);
    blocks.insert_sized(1, 1);
    blocks.insert_sized(2, 2);
    blocks.insert_sized(3, 3);
    blocks.remove(2);
    let before = entries(&blocks);
    blocks.cleanup();
    assert_eq!(before, entries(&blocks));
    blocks.cleanup();
    assert_eq!(before, entries(&blocks));
}

#[test]
fn removing_what_is_not_there_changes_nothing() {
    let mut blocks = Blocks::new(128);
    blocks.insert_sized(1, 1);
    assert!(!blocks.remove(9));
    assert_eq!(vec![Block::Full(1, 1)], entries(&blocks));
    assert!(blocks.remove(1));
    assert!(!blocks.remove(1));
}

#[test]
fn no_room_gives_none_and_changes_nothing() {
    let mut blocks = Blocks::new(10);
    assert_eq!(Some(0), blocks.insert_sized(1, 6));
    assert_eq!(None, blocks.insert_sized(2, 5));
    assert_eq!(vec![Block::Full(1, 6)], entries(&blocks));
    assert_eq!(None, blocks.offset_of(2));
    assert!(!blocks.remove(2));
    assert_eq!(Some(6), blocks.insert_sized(3, 4));
    assert_eq!(None, blocks.insert_sized(4, 1));
    assert_eq!(Some(10), blocks.insert_sized(5, 0));
}

#[test]
fn the_table_holds_no_more_than_its_limit_of_entries() {
    let mut blocks = Blocks::new(u16::MAX);
    for id in 0..MAX_BLOCKS as u64 {
        assert_eq!(Some(id as u16 * 2), blocks.insert_sized(id, 2));
    }
    assert_eq!(MAX_BLOCKS, blocks.len());
    assert_eq!(None, blocks.insert_sized(1000, 1));
    assert!(blocks.remove(7));
    assert_eq!(None, blocks.insert_sized(1000, 1));
    assert_eq!(MAX_BLOCKS, blocks.len());
    assert_eq!(Some(Block::Gap(2)), blocks.get(7));
    assert_eq!(Some(14), blocks.insert_sized(1000, 2));
    assert_eq!(Some(Block::Full(1000, 2)), blocks.get(7));
}

#[test]
fn replace_id_hands_a_span_over_where_it_lies() {
    let mut blocks = Blocks::new(128);
    blocks.insert_sized(1, 3);
    blocks.insert_sized(2, 4);
    blocks.insert_sized(3, 5);
    assert_eq!(Some(3), blocks.replace_id(2, 9, 4));
    assert_eq!(
        vec![Block::Full(1, 3), Block::Full(9, 4), Block::Full(3, 5)],
        entries(&blocks)
    );
    assert_eq!(Some(3), blocks.offset_of(9));
    assert_eq!(None, blocks.offset_of(2));
}

#[test]
fn replace_id_wants_the_exact_size() {
    let mut blocks = Blocks::new(128);
    blocks.insert_sized(1, 3);
    blocks.insert_sized(2, 4);
    assert_eq!(None, blocks.replace_id(2, 9, 3));
    assert_eq!(None, blocks.replace_id(7, 9, 4));
    assert_eq!(vec![Block::Full(1, 3), Block::Full(2, 4)], entries(&blocks));
}

#[test]
fn block_size_and_owner() {
    assert_eq!(7, Block::Gap(7).size());
    assert_eq!(9, Block::Full(4, 9).size());
    assert!(Block::Full(4, 9).has_id(&4));
    assert!(!Block::Full(4, 9).has_id(&5));
    assert!(!Block::Gap(4).has_id(&4));
}

#[test]
fn replace_gap_gives_the_index_of_the_entry() {
    let mut blocks = Blocks::new(128);
    assert_eq!(Some(0), blocks.replace_gap(1, 3));
    assert_eq!(Some(1), blocks.replace_gap(2, 3));
    blocks.remove(1);
    assert_eq!(Some(0), blocks.replace_gap(3, 1));
    assert_eq!(
        vec![Block::Full(3, 1), Block::Gap(2), Block::Full(2, 3)],
        entries(&blocks)
    );
}

#[test]
fn a_span_between_two_gaps_joins_them_when_it_goes() {
    let mut blocks = Blocks::new(128);
    blocks.insert_sized(1, 1);
    blocks.insert_sized(2, 2);
    blocks.insert_sized(3, 3);
    blocks.insert_sized(4, 4);
    blocks.insert_sized(5, 5);
    blocks.remove(1);
    blocks.remove(3);
    blocks.remove(5);
    assert_eq!(
        vec![
            Block::Gap(1),
            Block::Full(2, 2),
            Block::Gap(3),
            Block::Full(4, 4),
            Block::Gap(5)
        ],
        entries(&blocks)
    );
    blocks.remove(2);
    assert_eq!(vec![Block::Gap(6), Block::Full(4, 4), Block::Gap(5)], entries(&blocks));
    blocks.remove(4);
    assert_eq!(vec![Block::Gap(15)], entries(&blocks));
    assert_eq!(15, blocks.extent());
    assert_eq!(Some(0), blocks.insert_sized(6, 15));
    assert_eq!(vec![Block::Full(6, 15)], entries(&blocks));
}

#[test]
fn no_id_owns_two_spans() {
    let mut blocks = Blocks::new(64);
    for round in 0..40_u64 {
        blocks.insert_sized(round % 7, (round % 5) as u16 + 1);
        if round % 3 == 0 {
            blocks.remove((round + 2) % 7);
        }
        for id in 0..7 {
            let owned = entries(&blocks).iter().filter(|block| block.has_id(&id)).count();
            assert!(owned <= 1);
        }
        let total: u32 = entries(&blocks).iter().map(|block| u32::from(block.size())).sum();
        assert!(total <= 64);
        assert_eq!(total, u32::from(blocks.extent()));
    }
}
