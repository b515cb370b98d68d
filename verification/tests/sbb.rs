use haldvance::video::memory::VideoMemory;
use haldvance::video::mode::{Affine, Mixed, Text};
use haldvance::video::palette::BankHandle;
use haldvance::video::structs::Pos;
use haldvance::video::tile::drawable::{Clear, EmptyRect, Line, Windowed};
use haldvance::video::tile::map::{AffineSize, Rect, TextSize};
use haldvance::video::tile::{align_2, entrify, sbb, AffineEntry, Tile};
use haldvance::video::Control;

fn text_control() -> Control<Text> {
    Control::<Text>::init(VideoMemory::new())
}

fn affine_control() -> Control<Affine> {
    text_control().enter_mode::<Affine>()
}

#[test]
fn a_tile_has_an_index_and_may_be_flipped() {
    assert_eq!(0, Tile::empty().get());
    assert_eq!(5, Tile::new(5).get());
    assert_eq!(0x3ff, Tile::new(0xffff).get());
    assert_eq!(0x0405, Tile::new(5).flip_hori().get());
    assert_eq!(5, Tile::new(5).flip_hori().flip_hori().get());
    assert_eq!(0x0805, Tile::new(5).flip_vert().get());
    assert_eq!(0x0c05, Tile::new(5).flip_vert().flip_hori().get());
    assert_eq!(5, Tile::new(5).flip_vert().flip_vert().get());
    assert_eq!(0x7005, Tile::new(5).with_palette(BankHandle { id: 7 }).get());
    assert_eq!(0x2c05, Tile(0xfc05).with_palette(BankHandle { id: 0x12 }).get());
    assert_eq!(0x123, Tile(0xf523).tile_index());
    assert_eq!(0x23, Tile(0xf523).affine_tile());
}

#[test]
fn a_tile_is_written_row_after_row() {
    let mut control = text_control();
    let mut map = control.basic_sbb(sbb::Slot::new(3));
    map.set_tile(Tile::new(5), Pos { x: 1, y: 2 });
    map.set_tile(Tile::new(9).flip_hori(), Pos { x: 31, y: 31 });
    assert_eq!(5, map.get_tile(Pos { x: 1, y: 2 }).get());
    assert_eq!(0x0409, map.get_tile(Pos { x: 31, y: 31 }).get());
    assert_eq!(0, map.get_tile(Pos { x: 2, y: 1 }).get());
    drop(map);
    assert_eq!(5, control.memory.backgrounds[3 * 0x400 + 1 + 2 * 32]);
    assert_eq!(0x0409, control.memory.backgrounds[3 * 0x400 + 0x3ff]);
    assert_eq!(2, control.memory.backgrounds.iter().filter(|word| **word != 0).count());
}

#[test]
fn a_wide_map_has_wide_rows() {
    let mut control = text_control();
    let mut map = control.sbb(sbb::Slot::new(8), TextSize::Long);
    map.set_tile(Tile::new(7), Pos { x: 40, y: 3 });
    drop(map);
    assert_eq!(7, control.memory.backgrounds[8 * 0x400 + 40 + 3 * 64]);
}

#[test]
fn text_that_is_drawn_reads_back() {
    let mut control = text_control();
    let mut map = control.basic_sbb(sbb::Slot::new(15));
    map.set_tiles(Pos { x: 3, y: 4 }, &"Hi!\nyou");
    let expected = [
        (3, 4, b'H'),
        (4, 4, b'i'),
        (5, 4, b'!'),
        (3, 5, b'y'),
        (4, 5, b'o'),
        (5, 5, b'u'),
    ];
    for (x, y, letter) in expected {
        assert_eq!(
            u16::from(letter - b' '),
            map.get_tile(Pos { x, y }).get()
        );
    }
    assert_eq!(0, map.get_tile(Pos { x: 6, y: 4 }).get());
    assert_eq!(0, map.get_tile(Pos { x: 2, y: 4 }).get());
    assert_eq!(0, map.get_tile(Pos { x: 3, y: 6 }).get());
    drop(map);
    assert_eq!(6, control.memory.backgrounds.iter().filter(|word| **word != 0).count());
}

#[test]
fn what_falls_outside_of_the_map_is_left_out() {
    let mut control = text_control();
    control.memory.backgrounds[10 * 0x400 - 1] = 0x1111;
    control.memory.backgrounds[11 * 0x400] = 0x2222;
    let mut map = control.basic_sbb(sbb::Slot::new(10));
    map.set_tiles(Pos { x: 30, y: 31 }, &"abcd\nefgh");
    assert_eq!(u16::from(b'a' - b' '), map.get_tile(Pos { x: 30, y: 31 }).get());
    assert_eq!(u16::from(b'b' - b' '), map.get_tile(Pos { x: 31, y: 31 }).get());
    map.set_tiles(Pos { x: 40, y: 0 }, &"zz");
    map.set_tiles(Pos { x: 0, y: 32 }, &"zz");
    map.set_tiles(Pos { x: 0xffff, y: 0 }, &"zz");
    map.set_tiles(Pos { x: 0, y: 0xffff }, &"\n\nzz");
    drop(map);
    let block = &control.memory.backgrounds[10 * 0x400..11 * 0x400];
    assert_eq!(2, block.iter().filter(|word| **word != 0).count());
    assert_eq!(0x1111, control.memory.backgrounds[10 * 0x400 - 1]);
    assert_eq!(0x2222, control.memory.backgrounds[11 * 0x400]);
}

#[test]
fn a_later_tile_overwrites_an_earlier_one() {
    let mut control = text_control();
    let mut map = control.basic_sbb(sbb::Slot::new(0));
    map.set_tiles(Pos { x: 0, y: 0 }, &"abc");
    map.set_tiles(Pos { x: 1, y: 0 }, &"x");
    assert_eq!(u16::from(b'a' - b' '), map.get_tile(Pos { x: 0, y: 0 }).get());
    assert_eq!(u16::from(b'x' - b' '), map.get_tile(Pos { x: 1, y: 0 }).get());
    assert_eq!(u16::from(b'c' - b' '), map.get_tile(Pos { x: 2, y: 0 }).get());
}

#[test]
fn clearing_wipes_what_was_drawn() {
    let mut control = text_control();
    let mut map = control.basic_sbb(sbb::Slot::new(2));
    map.set_tiles(Pos { x: 1, y: 1 }, &"hello\nworld!");
    map.set_tile(Tile::new(77), Pos { x: 7, y: 1 });
    map.clear_tiles(Pos { x: 1, y: 1 }, &"hello\nworld!");
    assert_eq!(0, map.get_tile(Pos { x: 1, y: 1 }).get());
    assert_eq!(0, map.get_tile(Pos { x: 6, y: 2 }).get());
    assert_eq!(77, map.get_tile(Pos { x: 7, y: 1 }).get());
    drop(map);
    assert_eq!(1, control.memory.backgrounds.iter().filter(|word| **word != 0).count());
}

#[test]
fn clearing_a_window_wipes_the_whole_window() {
    let mut control = text_control();
    let mut map = control.basic_sbb(sbb::Slot::new(2));
    map.set_tiles(Pos { x: 0, y: 0 }, &"abcdef\nabcdef\nabcdef");
    let window = Windowed { inner: "ab", window: Rect { width: 4, height: 2 } };
    map.clear_tiles(Pos { x: 1, y: 0 }, &window);
    let row = |map: &sbb::TextHandle, y: u16| -> Vec<u16> {
        (0..6).map(|x| map.get_tile(Pos { x, y }).get()).collect()
    };
    assert_eq!(vec![b'a' as u16 - 32, 0, 0, 0, 0, b'f' as u16 - 32], row(&map, 0));
    assert_eq!(vec![b'a' as u16 - 32, 0, 0, 0, 0, b'f' as u16 - 32], row(&map, 1));
    assert_eq!(
        vec![65, 66, 67, 68, 69, 70],
        row(&map, 2)
    );
}

#[test]
fn a_window_cuts_lines_at_its_right_border() {
    let mut control = text_control();
    let mut map = control.basic_sbb(sbb::Slot::new(2));
    let window = Windowed { inner: "abcdef\nxy", window: Rect { width: 3, height: 1 } };
    map.set_tiles(Pos { x: 2, y: 2 }, &window);
    let row = |map: &sbb::TextHandle, y: u16| -> Vec<u16> {
        (0..8).map(|x| map.get_tile(Pos { x, y }).get()).collect()
    };
    assert_eq!(vec![0, 0, 65, 66, 67, 0, 0, 0], row(&map, 2));
    assert_eq!(vec![0, 0, 88, 89, 0, 0, 0, 0], row(&map, 3));
}

#[test]
fn an_empty_rectangle_wipes_a_region() {
    let mut control = text_control();
    let mut map = control.basic_sbb(sbb::Slot::new(2));
    map.set_tiles(Pos { x: 0, y: 0 }, &"abcd\nabcd\nabcd");
    map.set_tiles(Pos { x: 1, y: 1 }, &EmptyRect(Rect { width: 2, height: 5 }));
    let row = |map: &sbb::TextHandle, y: u16| -> Vec<u16> {
        (0..4).map(|x| map.get_tile(Pos { x, y }).get()).collect()
    };
    assert_eq!(vec![65, 66, 67, 68], row(&map, 0));
    assert_eq!(vec![65, 0, 0, 68], row(&map, 1));
    assert_eq!(vec![65, 0, 0, 68], row(&map, 2));
}

#[test]
fn affine_entries_hold_two_tiles() {
    assert_eq!(0x0201, AffineEntry::new(1, 2).0);
    let mut entry = AffineEntry(0xabcd);
    entry.set_left(0x12);
    assert_eq!(0xab12, entry.0);
    entry.set_right(0x34);
    assert_eq!(0x3412, entry.0);
}

#[test]
fn tiles_are_paired_two_by_two() {
    assert_eq!(vec![Ok((1, 2)), Ok((3, 4)), Err(5)], align_2(&[1, 2, 3, 4, 5]));
    assert_eq!(vec![Ok((1, 2))], align_2(&[1, 2]));
    assert_eq!(vec![Err(9)], align_2(&[9]));
    assert_eq!(Vec::<Result<(u8, u8), u8>>::new(), align_2::<u8>(&[]));
    assert_eq!(
        vec![Ok(AffineEntry(0x0201)), Ok(AffineEntry(0x0403)), Err(5)],
        entrify(&[1, 2, 3, 4, 5])
    );
}

#[test]
fn consecutive_affine_tiles_share_words_with_the_even_one_low() {
    let mut control = affine_control();
    let mut map = control.basic_sbb(sbb::Slot::new(4));
    map.set_line(Pos { x: 0, y: 0 }, &[1, 2, 3, 4, 5]);
    for x in 0..5 {
        assert_eq!(x as u8 + 1, map.get_tile(Pos { x, y: 0 }));
    }
    drop(map);
    assert_eq!(
        [0x0201, 0x0403, 0x0005, 0],
        control.memory.backgrounds[4 * 0x400..4 * 0x400 + 4]
    );
}

#[test]
fn a_line_from_an_odd_offset_keeps_its_neighbours() {
    let mut control = affine_control();
    for word in &mut control.memory.backgrounds[0..0x400] {
        *word = 0xeedd;
    }
    let mut map = control.basic_sbb(sbb::Slot::new(0));
    map.set_line(Pos { x: 3, y: 1 }, &[1, 2, 3, 4]);
    drop(map);
    assert_eq!(
        [0xeedd, 0x01dd, 0x0302, 0xee04, 0xeedd],
        control.memory.backgrounds[8..13]
    );
    let mut map = control.basic_sbb(sbb::Slot::new(0));
    map.set_line(Pos { x: 5, y: 2 }, &[0x55]);
    map.set_line(Pos { x: 8, y: 2 }, &[0x88]);
    map.set_line(Pos { x: 10, y: 2 }, &[]);
    drop(map);
    assert_eq!(
        [0xeedd, 0xeedd, 0x55dd, 0xeedd, 0xee88, 0xeedd],
        control.memory.backgrounds[16..22]
    );
}

#[test]
fn an_affine_line_is_cut_at_the_right_border() {
    let mut control = affine_control();
    let mut map = control.basic_sbb(sbb::Slot::new(0));
    map.set_line(Pos { x: 13, y: 0 }, &[1, 2, 3, 4, 5, 6]);
    map.set_line(Pos { x: 14, y: 1 }, &[7, 8, 9]);
    map.set_line(Pos { x: 16, y: 2 }, &[9, 9]);
    map.set_line(Pos { x: 0, y: 16 }, &[9, 9]);
    drop(map);
    assert_eq!([0x0100, 0x0302, 0, 0, 0, 0, 0, 0, 0, 0x0807], control.memory.backgrounds[6..16]);
    assert_eq!(3, control.memory.backgrounds.iter().filter(|word| **word != 0).count());
}

#[test]
fn drawing_on_an_affine_map_takes_the_low_byte_of_each_tile() {
    let mut control = affine_control();
    let mut map = control.sbb(sbb::Slot::new(6), AffineSize::Double);
    assert_eq!(AffineSize::Double, map.size());
    map.set_tiles(Pos { x: 1, y: 1 }, &"ab\ncd");
    assert_eq!(65, map.get_tile(Pos { x: 1, y: 1 }));
    assert_eq!(66, map.get_tile(Pos { x: 2, y: 1 }));
    assert_eq!(67, map.get_tile(Pos { x: 1, y: 2 }));
    assert_eq!(68, map.get_tile(Pos { x: 2, y: 2 }));
    map.clear_tiles(Pos { x: 1, y: 1 }, &"a");
    assert_eq!(0, map.get_tile(Pos { x: 1, y: 1 }));
    assert_eq!(66, map.get_tile(Pos { x: 2, y: 1 }));
    map.set_tiles(Pos { x: 1, y: 1 }, &Clear("ab\ncd"));
    drop(map);
    assert_eq!(0, control.memory.backgrounds.iter().filter(|word| **word != 0).count());
}

#[test]
fn mixed_mode_has_both_kinds_of_map() {
    let mut control = text_control().enter_mode::<Mixed>();
    let mut map = control.basic_text_sbb(sbb::Slot::new(1));
    map.set_tile(Tile::new(3), Pos { x: 0, y: 0 });
    drop(map);
    let mut map = control.text_sbb(sbb::Slot::new(2), TextSize::Tall);
    map.set_tile(Tile::new(4), Pos { x: 0, y: 63 });
    drop(map);
    let mut map = control.basic_affine_sbb(sbb::Slot::new(5));
    map.set_line(Pos { x: 0, y: 0 }, &[5]);
    drop(map);
    let mut map = control.affine_sbb(sbb::Slot::new(6), AffineSize::Quad);
    map.set_line(Pos { x: 63, y: 63 }, &[6, 7]);
    drop(map);
    assert_eq!(3, control.memory.backgrounds[0x400]);
    assert_eq!(4, control.memory.backgrounds[2 * 0x400 + 63 * 32]);
    assert_eq!(5, control.memory.backgrounds[5 * 0x400]);
    assert_eq!(0x0600, control.memory.backgrounds[6 * 0x400 + 0x7ff]);
    assert_eq!(0, control.memory.backgrounds[6 * 0x400 + 0x800]);
}

#[test]
fn screen_blocks_have_numbers() {
    assert_eq!(32, sbb::Slot::MAX_BLOCKS);
    assert_eq!(31, sbb::Slot::new(31).get());
    assert_eq!(0, sbb::Slot::new(0).get());
}

#[test]
fn a_screen_block_gives_the_handles_of_its_maps() {
    let mut control = text_control();
    let mut map = sbb::Slot::new(7).text_handle(TextSize::Base, control.erased());
    map.set_tile(Tile::new(1), Pos { x: 0, y: 0 });
    drop(map);
    let mut map = sbb::Slot::new(9).affine_handle(AffineSize::Base, control.erased());
    map.set_line(Pos { x: 1, y: 0 }, &[2]);
    drop(map);
    assert_eq!(1, control.memory.backgrounds[7 * 0x400]);
    assert_eq!(0x0200, control.memory.backgrounds[9 * 0x400]);
}

#[test]
fn lines_are_drawn_as_they_are_given() {
    let lines = vec![
        Line { pos: Pos { x: 1, y: 0 }, tiles: vec![Tile(0x0401), Tile(2)] },
        Line { pos: Pos { x: 0, y: 2 }, tiles: vec![Tile(0x0103)] },
    ];
    let mut control = text_control();
    let mut map = control.basic_sbb(sbb::Slot::new(0));
    map.set_lines(Pos { x: 30, y: 1 }, &lines);
    drop(map);
    assert_eq!(0x0401, control.memory.backgrounds[31 + 32]);
    assert_eq!(0x0103, control.memory.backgrounds[30 + 3 * 32]);
    assert_eq!(2, control.memory.backgrounds.iter().filter(|word| **word != 0).count());
    let mut control = affine_control();
    let mut map = control.basic_sbb(sbb::Slot::new(0));
    map.set_lines(Pos { x: 14, y: 1 }, &lines);
    drop(map);
    assert_eq!(0x0100, control.memory.backgrounds[15]);
    assert_eq!(0x0003, control.memory.backgrounds[(14 + 3 * 16) / 2]);
    assert_eq!(2, control.memory.backgrounds.iter().filter(|word| **word != 0).count());
}

/// A drawing of one line of three tiles, which says of what it covers the tiles it draws.
struct Stamp;

impl haldvance::video::tile::drawable::Drawable for Stamp {
    fn for_each_line(&self) -> Vec<Line> {
        vec![Line {
            pos: Pos { x: 0, y: 0 },
            tiles: vec![Tile::new(5), Tile::new(6), Tile::new(7)],
        }]
    }

    fn all_tiles(&self) -> Vec<Line> {
        self.for_each_line()
    }
}

#[test]
fn a_drawing_of_ones_own_is_drawn_line_by_line() {
    let mut control = text_control();
    let mut map = control.basic_sbb(sbb::Slot::new(1));
    map.set_tiles(Pos { x: 2, y: 3 }, &Stamp);
    assert_eq!(5, map.get_tile(Pos { x: 2, y: 3 }).get());
    assert_eq!(6, map.get_tile(Pos { x: 3, y: 3 }).get());
    assert_eq!(7, map.get_tile(Pos { x: 4, y: 3 }).get());
    assert_eq!(0, map.get_tile(Pos { x: 5, y: 3 }).get());
}

#[test]
fn clearing_writes_the_empty_tile_whatever_the_cover_holds() {
    let mut control = text_control();
    let mut map = control.basic_sbb(sbb::Slot::new(1));
    map.set_tiles(Pos { x: 2, y: 3 }, &"wxyz");
    map.clear_tiles(Pos { x: 2, y: 3 }, &Stamp);
    assert_eq!(0, map.get_tile(Pos { x: 2, y: 3 }).get());
    assert_eq!(0, map.get_tile(Pos { x: 3, y: 3 }).get());
    assert_eq!(0, map.get_tile(Pos { x: 4, y: 3 }).get());
    assert_eq!(u16::from(b'z' - b' '), map.get_tile(Pos { x: 5, y: 3 }).get());
}
