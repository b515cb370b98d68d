//! What a game draws: palettes, and images that are part of a tile set.
use crate::video::palette;
use crate::video::structs::Pos;
use crate::video::tile::drawable::{blank_out, blanked, lines_of, Drawable, Line};
use crate::video::tile::{Color, Tile, TILE_INDEX_MASK};
use core::ops::Range;
use vstd::arithmetic::div_mod::lemma_fundamental_div_mod_converse;
use vstd::prelude::*;

verus! {

/// A cycle of colours: the colours of `range` move on by one every `frames_per_step` frames.
pub struct Cycle {
    pub range: Range<usize>,
    pub frames_per_step: usize,
}

impl Cycle {
    /// The cycle of the colours of `range`.
    pub fn new(range: Range<usize>, frames_per_step: usize) -> (cycle: Self)
        ensures
            cycle.range == range,
            cycle.frames_per_step == frames_per_step,
    {
        Cycle { range, frames_per_step }
    }
}

/// A palette with the cycles of its colours.
pub struct Palette {
    data: palette::Dynamic,
    cycles: &'static [Cycle],
}

impl Palette {
    /// The colours.
    pub closed spec fn view(&self) -> Seq<Color> {
        self.data@
    }

    /// The cycles of the colours.
    pub closed spec fn turns(&self) -> Seq<Cycle> {
        self.cycles@
    }

    /// The palette of `colors`, with `cycles`.
    pub fn new(colors: &'static [Color], cycles: &'static [Cycle]) -> (palette: Self)
        ensures
            palette@ == colors@,
            palette.turns() == cycles@,
    {
        Palette { data: palette::Dynamic::new(colors), cycles }
    }

    /// The colours.
    pub fn get(&self) -> (colors: &[Color])
        ensures
            colors@ == self@,
    {
        self.data.get()
    }

    /// The cycles of the colours.
    pub fn cycles(&self) -> (cycles: &'static [Cycle])
        ensures
            cycles@ == self.turns(),
    {
        self.cycles
    }
}

/// The tile at place `at` of an image `image_width` tiles wide, whose first tile is tile
/// `offset` of a tile set `tileset_width` tiles wide: the places count row after row.
pub open spec fn image_tile(offset: u16, image_width: u16, tileset_width: u16, at: int) -> int {
    offset + (at / (image_width as int)) * tileset_width + at % (image_width as int)
}

/// How many places of a slice of `len` are filled for an image `image_width` tiles wide: the
/// image is as high as it is wide, and the slice may end before it.
pub open spec fn filled(len: int, image_width: u16) -> int {
    if len < image_width * image_width {
        len
    } else {
        image_width * image_width
    }
}

/// The entry of a text map that shows tile `id`.
pub open spec fn tile_of(id: u16) -> Tile {
    Tile(id & TILE_INDEX_MASK)
}

/// How many lines an image of `len` tiles has that is `width` tiles wide. Tiles behind the
/// last whole line are left out, and so are lines past the 65536th.
pub open spec fn rows(len: int, width: u16) -> int {
    if len / (width as int) < 0x1_0000 {
        len / (width as int)
    } else {
        0x1_0000
    }
}

/// The lines of the image of `tiles` that is `width` tiles wide.
pub open spec fn image_lines(tiles: Seq<u16>, width: u16) -> Seq<(Pos, Seq<Tile>)> {
    Seq::new(
        rows(tiles.len() as int, width) as nat,
        |y: int|
            (
                Pos { x: 0, y: y as u16 },
                Seq::new(width as nat, |x: int| tile_of(tiles[y * width + x])),
            ),
    )
}

/// The lines of the image of `tiles` that is `width` tiles wide.
pub fn lines_of_image(tiles: &[u16], width: u16) -> (lines: Vec<Line>)
    requires
        width > 0,
    ensures
        lines_of(lines@) == image_lines(tiles@, width),
{
    let len = tiles.len();
    let count = len / (width as usize);
    let count: usize = if count < 0x1_0000 {
        count
    } else {
        0x1_0000
    };
    let mut lines: Vec<Line> = Vec::new();
    let mut y: usize = 0;
    while y < count
        invariant
            y <= count,
            len == tiles@.len(),
            count == rows(tiles@.len() as int, width),
            width > 0,
            lines@.len() == y,
            forall|i: int| 0 <= i < y ==> lines_of(lines@)[i] == image_lines(tiles@, width)[i],
        decreases count - y,
    {
        let mut line: Vec<Tile> = Vec::new();
        let mut x: usize = 0;
        proof {
            assert((y + 1) * width <= count * width) by (nonlinear_arith)
                requires
                    y < count,
                    width > 0,
            ;
            assert(count * width <= tiles@.len()) by (nonlinear_arith)
                requires
                    count <= (tiles@.len() as int) / (width as int),
                    width > 0,
            ;
            assert((y + 1) * width == y * width + width) by (nonlinear_arith);
            assert(0 <= y * width) by (nonlinear_arith)
                requires
                    0 <= y,
                    0 <= width,
            ;
        }
        let start: usize = y * (width as usize);
        while x < width as usize
            invariant
                x <= width,
                start == y * width,
                len == tiles@.len(),
                start + width <= len,
                line@.len() == x,
                forall|i: int| 0 <= i < x ==> line@[i] == tile_of(tiles@[y * width + i]),
            decreases width - x,
        {
            line.push(Tile::new(tiles[start + x]));
            x = x + 1;
        }
        let ghost before = lines@;
        lines.push(Line { pos: Pos::y(y as u16), tiles: line });
        proof {
            assert(line@ =~= image_lines(tiles@, width)[y as int].1);
            assert forall|i: int| 0 <= i < y + 1 implies lines_of(lines@)[i] == image_lines(
                tiles@,
                width,
            )[i] by {
                if i < y {
                    assert(lines@[i] == before[i]);
                    assert(lines_of(before)[i] == image_lines(tiles@, width)[i]);
                }
            }
        }
        y = y + 1;
    }
    assert(lines_of(lines@) =~= image_lines(tiles@, width));
    lines
}

/// An image: tiles of a tile set, row after row.
pub struct Image {
    pub tiles: &'static [u16],
    pub width: u16,
}

impl Image {
    /// The image is at least one tile wide.
    pub open spec fn wf(&self) -> bool {
        self.width > 0
    }

    /// The image of `tiles` that is `width` tiles wide.
    pub fn new(tiles: &'static [u16], width: u16) -> (image: Self)
        ensures
            image.tiles == tiles,
            image.width == width,
    {
        Image { tiles, width }
    }

    /// The height of the image, in tiles: of the number of its tiles the low 16 bits count.
    pub fn height(&self) -> (height: u16)
        requires
            self.wf(),
        ensures
            height == ((self.tiles@.len() as int) % 0x1_0000) / (self.width as int),
    {
        let len = (self.tiles.len() % 0x1_0000) as u16;
        len / self.width
    }

    /// The width of the image, in tiles.
    pub fn width(&self) -> (width: u16)
        ensures
            width == self.width,
    {
        self.width
    }

    /// Fills `tiles` with the tiles of an image `image_width` tiles wide and as high, whose
    /// first tile is tile `offset` of a tile set `tileset_width` tiles wide. The slice may
    /// end before the image does. No tile of the image lies past the last tile that 16 bits can name.
    pub fn set_tiles(offset: u16, image_width: u16, tileset_width: u16, tiles: &mut [u16])
        requires
            forall|at: int|
                0 <= at < filled(old(tiles)@.len() as int, image_width) ==> #[trigger] image_tile(
                    offset,
                    image_width,
                    tileset_width,
                    at,
                ) <= u16::MAX,
        ensures
            final(tiles)@.len() == old(tiles)@.len(),
            forall|at: int|
                0 <= at < final(tiles)@.len() ==> final(tiles)@[at] == if at < filled(
                    old(tiles)@.len() as int,
                    image_width,
                ) {
                    image_tile(offset, image_width, tileset_width, at) as u16
                } else {
                    old(tiles)@[at]
                },
    {
        let mut x: u16 = 0;
        let mut y: u16 = 0;
        let mut i: usize = 0;
        let len = tiles.len();
        loop
            invariant
                len == tiles@.len(),
                len == old(tiles)@.len(),
                i <= len,
                y <= image_width,
                image_width > 0 ==> x < image_width,
                y == image_width ==> x == 0,
                i == y * image_width + x,
                forall|at: int|
                    0 <= at < filled(len as int, image_width) ==> #[trigger] image_tile(
                        offset,
                        image_width,
                        tileset_width,
                        at,
                    ) <= u16::MAX,
                forall|at: int|
                    0 <= at < len ==> tiles@[at] == if at < i {
                        image_tile(offset, image_width, tileset_width, at) as u16
                    } else {
                        old(tiles)@[at]
                    },
            ensures
                i == filled(len as int, image_width),
                len == tiles@.len(),
                forall|at: int|
                    0 <= at < len ==> tiles@[at] == if at < i {
                        image_tile(offset, image_width, tileset_width, at) as u16
                    } else {
                        old(tiles)@[at]
                    },
            decreases len - i,
        {
            let oob_slice = i >= len;
            let oob_image = y >= image_width;
            proof {
                if y < image_width {
                    assert(y * image_width + image_width <= image_width * image_width)
                        by (nonlinear_arith)
                        requires
                            y < image_width,
                    ;
                } else {
                    assert(y * image_width == image_width * image_width) by (nonlinear_arith)
                        requires
                            y == image_width,
                    ;
                }
            }
            if oob_image || oob_slice {
                break ;
            }
            proof {
                lemma_fundamental_div_mod_converse(i as int, image_width as int, y as int, x as int);
                assert(image_tile(offset, image_width, tileset_width, i as int) == offset + y
                    * tileset_width + x);
                assert(0 <= y * tileset_width) by (nonlinear_arith)
                    requires
                        0 <= y,
                        0 <= tileset_width,
                ;
            }
            tiles[i] = offset + y * tileset_width + x;
            i = i + 1;
            x = x + 1;
            if x >= image_width {
                y = y + 1;
                x = 0;
                proof {
                    assert((y - 1) * image_width + image_width == y * image_width)
                        by (nonlinear_arith);
                }
            }
        }
    }
}

impl Drawable for Image {
    open spec fn lines(&self) -> Seq<(Pos, Seq<Tile>)> {
        if self.width > 0 {
            image_lines(self.tiles@, self.width)
        } else {
            Seq::empty()
        }
    }

    open spec fn cover(&self) -> Seq<(Pos, Seq<Tile>)> {
        blanked(self.lines())
    }

    fn for_each_line(&self) -> (lines: Vec<Line>) {
        if self.width > 0 {
            lines_of_image(self.tiles, self.width)
        } else {
            let lines: Vec<Line> = Vec::new();
            assert(lines_of(lines@) =~= Seq::<(Pos, Seq<Tile>)>::empty());
            lines
        }
    }

    fn all_tiles(&self) -> (lines: Vec<Line>) {
        let lines = self.for_each_line();
        blank_out(&lines)
    }
}

/// An image of `COUNT` tiles that is made when the game runs.
pub struct DynamicImage<const COUNT: usize> {
    pub tiles: Vec<u16>,
    pub width: u16,
}

impl<const COUNT: usize> DynamicImage<COUNT> {
    /// The image `width` tiles wide whose first tile is tile `offset` of a tile set
    /// `tileset_width` tiles wide. No tile of the image lies past the last tile that 16 bits
    /// can name.
    pub fn new(offset: u16, tileset_width: u16, width: u16) -> (image: Self)
        requires
            forall|at: int|
                0 <= at < filled(COUNT as int, width) ==> #[trigger] image_tile(
                    offset,
                    width,
                    tileset_width,
                    at,
                ) <= u16::MAX,
        ensures
            image.width == width,
            image.tiles@.len() == COUNT,
            forall|at: int|
                0 <= at < COUNT ==> image.tiles@[at] == if at < filled(COUNT as int, width) {
                    image_tile(offset, width, tileset_width, at) as u16
                } else {
                    0
                },
    {
        let mut tiles = crate::video::memory::zeroed(COUNT);
        Image::set_tiles(offset, width, tileset_width, tiles.as_mut_slice());
        DynamicImage { tiles, width }
    }
}

impl<const COUNT: usize> Drawable for DynamicImage<COUNT> {
    open spec fn lines(&self) -> Seq<(Pos, Seq<Tile>)> {
        if self.width > 0 {
            image_lines(self.tiles@, self.width)
        } else {
            Seq::empty()
        }
    }

    open spec fn cover(&self) -> Seq<(Pos, Seq<Tile>)> {
        blanked(self.lines())
    }

    fn for_each_line(&self) -> (lines: Vec<Line>) {
        if self.width > 0 {
            lines_of_image(self.tiles.as_slice(), self.width)
        } else {
            let lines: Vec<Line> = Vec::new();
            assert(lines_of(lines@) =~= Seq::<(Pos, Seq<Tile>)>::empty());
            lines
        }
    }

    fn all_tiles(&self) -> (lines: Vec<Line>) {
        let lines = self.for_each_line();
        blank_out(&lines)
    }
}

} // verus!
