use haldvance::video::tile::sbb::{affine_sbb_at, screen_blocks, Slot};
use haldvance::video::tile::{cbb, character_blocks};
use haldvance::volmatrix::VolMatrix;

#[test]
fn cells_are_numbered_row_after_row() {
    let matrix = VolMatrix::<4, 3>::new(10);
    assert_eq!(Some(10), matrix.get(0, 0));
    assert_eq!(Some(19), matrix.get(1, 2));
    assert_eq!(Some(21), matrix.get(3, 2));
    assert_eq!(None, matrix.get(4, 0));
    assert_eq!(None, matrix.get(0, 3));
    assert_eq!(None, matrix.get(usize::MAX, usize::MAX));
    assert_eq!(19, matrix.get_unchecked(1, 2));
}

#[test]
fn rows_and_columns_start_at_their_first_cell() {
    let matrix = VolMatrix::<4, 3>::from_block::<12>(5);
    assert_eq!(Some(5), matrix.get_row(0));
    assert_eq!(Some(13), matrix.get_row(2));
    assert_eq!(None, matrix.get_row(3));
    assert_eq!(13, matrix.row_unchecked(2));
    assert_eq!(Some(8), matrix.get_column(3));
    assert_eq!(None, matrix.get_column(4));
    assert_eq!(6, matrix.column_unchecked(1));
    assert_eq!(None, VolMatrix::<4, 0>::new(0).get_column(0));
}

#[test]
fn background_memory_is_blocks_of_two_sizes() {
    assert_eq!(Some(31 * 0x400), screen_blocks().get_row(31));
    assert_eq!(None, screen_blocks().get_row(32));
    assert_eq!(Some(3 * 0x2000), character_blocks().get_row(3));
    assert_eq!(None, character_blocks().get_row(4));
    assert_eq!(5 * 0x400, Slot::new(5).index_volmatrix(screen_blocks()));
    assert_eq!(2 * 0x2000, cbb::Slot::new(2).index_volmatrix(character_blocks()));
    assert_eq!(5 * 0x400 + 3, affine_sbb_at(Slot::new(5), 7));
}
