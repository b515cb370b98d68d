use haldvance::assets::{lines_of_image, Cycle, DynamicImage, Image, Palette};
use haldvance::video::memory::VideoMemory;
use haldvance::video::mode::Text;
use haldvance::video::structs::Pos;
use haldvance::video::tile::drawable::Drawable;
use haldvance::video::tile::{sbb, Tile};
use haldvance::video::Control;

static COLORS: [u16; 3] = [1, 2, 3];
static CYCLES: [Cycle; 0] = [];
static SIX: [u16; 6] = [10, 11, 12, 42, 43, 44];
static SEVEN: [u16; 7] = [10, 11, 12, 42, 43, 44, 99];

#[test]
fn a_palette_holds_its_colours() {
    let palette = Palette::new(&COLORS, &CYCLES);
    assert_eq!(&[1, 2, 3], palette.get());
    assert_eq!(0, palette.cycles().len());
    let cycle = Cycle::new(16..20, 32);
    assert_eq!(16..20, cycle.range);
    assert_eq!(32, cycle.frames_per_step);
}

#[test]
fn set_tiles_fills_a_slice_row_after_row() {
    let mut tiles = [0_u16; 9];
    Image::set_tiles(100, 3, 32, &mut tiles);
    assert_eq!([100, 101, 102, 132, 133, 134, 164, 165, 166], tiles);
}

#[test]
fn set_tiles_stops_where_the_slice_or_the_image_ends() {
    let mut short = [7_u16; 4];
    Image::set_tiles(100, 3, 32, &mut short);
    assert_eq!([100, 101, 102, 132], short);
    let mut long = [7_u16; 6];
    Image::set_tiles(5, 2, 10, &mut long);
    assert_eq!([5, 6, 15, 16, 7, 7], long);
    let mut untouched = [7_u16; 2];
    Image::set_tiles(5, 0, 10, &mut untouched);
    assert_eq!([7, 7], untouched);
}

#[test]
fn an_image_is_as_high_as_its_tiles_allow() {
    let image = Image::new(&SIX, 3);
    assert_eq!(3, image.width());
    assert_eq!(2, image.height());
    assert_eq!(2, Image::new(&SEVEN, 3).height());
    assert_eq!(7, Image::new(&SEVEN, 1).height());
    assert_eq!(0, Image::new(&SIX, 7).height());
}

#[test]
fn an_image_draws_its_whole_lines() {
    let lines = Image::new(&SEVEN, 3).for_each_line();
    assert_eq!(2, lines.len());
    assert_eq!(Pos { x: 0, y: 0 }, lines[0].pos);
    assert_eq!(vec![Tile(10), Tile(11), Tile(12)], lines[0].tiles);
    assert_eq!(Pos { x: 0, y: 1 }, lines[1].pos);
    assert_eq!(vec![Tile(42), Tile(43), Tile(44)], lines[1].tiles);
    let blank = Image::new(&SEVEN, 3).all_tiles();
    assert_eq!(2, blank.len());
    assert_eq!(vec![Tile(0), Tile(0), Tile(0)], blank[1].tiles);
    assert_eq!(0, Image::new(&SEVEN, 0).for_each_line().len());
    assert_eq!(7, lines_of_image(&SEVEN, 1).len());
}

#[test]
fn an_image_that_is_drawn_reads_back() {
    let mut control = Control::<Text>::init(VideoMemory::new());
    let mut map = control.basic_sbb(sbb::Slot::new(1));
    let image = Image::new(&SIX, 3);
    map.set_tiles(Pos { x: 4, y: 7 }, &image);
    for (index, tile) in SIX.iter().enumerate() {
        let pos = Pos { x: 4 + index as u16 % 3, y: 7 + index as u16 / 3 };
        assert_eq!(*tile, map.get_tile(pos).get());
    }
    map.clear_tiles(Pos { x: 4, y: 7 }, &image);
    drop(map);
    assert_eq!(0, control.memory.backgrounds.iter().filter(|word| **word != 0).count());
}

#[test]
fn a_dynamic_image_computes_its_tiles() {
    let image = DynamicImage::<16>::new(96, 32, 4);
    assert_eq!(
        vec![96, 97, 98, 99, 128, 129, 130, 131, 160, 161, 162, 163, 192, 193, 194, 195],
        image.tiles
    );
    assert_eq!(4, image.width);
    let lines = (&image).for_each_line();
    assert_eq!(4, lines.len());
    assert_eq!(vec![Tile(160), Tile(161), Tile(162), Tile(163)], lines[2].tiles);
    let small = DynamicImage::<5>::new(1, 10, 2);
    assert_eq!(vec![1, 2, 11, 12, 0], small.tiles);
    assert_eq!(2, small.for_each_line().len());
}
