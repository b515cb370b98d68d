//! What can be drawn on a tile map.
//!
//! A [`Drawable`] is a list of lines: each has the position of its first tile and the tiles
//! that follow it to the right. A tile map draws the lines in order, moved by an offset, and
//! leaves out what falls outside of it.
use crate::video::structs::Pos;
use crate::video::tile::map::Rect;
use crate::video::tile::Tile;
use vstd::prelude::*;
use vstd::string::StringSliceAdditionalSpecFns;

verus! {

/// A line of tiles: the position of the first, and the tiles from there to the right.
pub struct Line {
    pub pos: Pos,
    pub tiles: Vec<Tile>,
}

/// The lines `lines`, each as its position and its tiles.
pub open spec fn lines_of(lines: Seq<Line>) -> Seq<(Pos, Seq<Tile>)> {
    Seq::new(lines.len(), |i: int| (lines[i].pos, lines[i].tiles@))
}

/// `count` empty tiles.
pub open spec fn blank(count: nat) -> Seq<Tile> {
    Seq::new(count, |i: int| Tile(0))
}

/// The lines `lines` with every tile replaced by the empty tile.
pub open spec fn blanked(lines: Seq<(Pos, Seq<Tile>)>) -> Seq<(Pos, Seq<Tile>)> {
    Seq::new(lines.len(), |i: int| (lines[i].0, blank(lines[i].1.len())))
}

/// `height` lines of `width` empty tiles each, one below the other from the origin down.
pub open spec fn blank_rows(width: nat, height: nat) -> Seq<(Pos, Seq<Tile>)> {
    Seq::new(height, |y: int| (Pos { x: 0, y: y as u16 }, blank(width)))
}

/// The lines `lines`, each cut so that it ends before column `width`.
pub open spec fn cut(lines: Seq<(Pos, Seq<Tile>)>, width: u16) -> Seq<(Pos, Seq<Tile>)> {
    Seq::new(
        lines.len(),
        |i: int|
            (
                lines[i].0,
                if lines[i].0.x < width && width - lines[i].0.x < lines[i].1.len() {
                    lines[i].1.take(width - lines[i].0.x)
                } else if lines[i].0.x < width {
                    lines[i].1
                } else {
                    Seq::<Tile>::empty()
                },
            ),
    )
}

/// Something that can be drawn on a tile map.
pub trait Drawable {
    /// The lines of the drawing, in the order in which they are drawn. A drawing that does
    /// not say which they are leaves them open.
    open spec fn lines(&self) -> Seq<(Pos, Seq<Tile>)> {
        arbitrary()
    }

    /// What wiping the drawing out covers: lines over the tiles that are wiped. Which tiles
    /// the lines hold does not count: wiping writes the empty tile in place of each. A
    /// drawing that does not say what it covers leaves it open.
    open spec fn cover(&self) -> Seq<(Pos, Seq<Tile>)> {
        arbitrary()
    }

    /// The lines of the drawing.
    fn for_each_line(&self) -> (lines: Vec<Line>)
        ensures
            lines_of(lines@) == self.lines(),
    ;

    /// The lines over the tiles that wiping the drawing out covers.
    fn all_tiles(&self) -> (lines: Vec<Line>)
        ensures
            lines_of(lines@) == self.cover(),
    ;
}

/// A line of `count` empty tiles at `pos`.
pub fn empty_line(pos: Pos, count: usize) -> (line: Line)
    ensures
        line.pos == pos,
        line.tiles@ == blank(count as nat),
{
    let mut tiles: Vec<Tile> = Vec::new();
    while tiles.len() < count
        invariant
            tiles@.len() <= count,
            forall|i: int| 0 <= i < tiles@.len() ==> tiles@[i] == Tile(0),
        decreases count - tiles@.len(),
    {
        tiles.push(Tile::empty());
    }
    assert(tiles@ =~= blank(count as nat));
    Line { pos, tiles }
}

/// `height` lines of `width` empty tiles each, from the origin down.
pub fn empty_rows(width: usize, height: u16) -> (lines: Vec<Line>)
    ensures
        lines_of(lines@) == blank_rows(width as nat, height as nat),
{
    let mut lines: Vec<Line> = Vec::new();
    let mut y: u16 = 0;
    while y < height
        invariant
            y <= height,
            lines@.len() == y,
            forall|i: int|
                0 <= i < y ==> lines@[i].pos == (Pos { x: 0, y: i as u16 }) && lines@[i].tiles@
                    == blank(width as nat),
        decreases height - y,
    {
        lines.push(empty_line(Pos::y(y), width));
        y = y + 1;
    }
    assert(lines_of(lines@) =~= blank_rows(width as nat, height as nat));
    lines
}

/// The lines `lines` with every tile replaced by the empty tile.
pub fn blank_out(lines: &Vec<Line>) -> (out: Vec<Line>)
    ensures
        lines_of(out@) == blanked(lines_of(lines@)),
{
    let mut out: Vec<Line> = Vec::new();
    let mut at: usize = 0;
    while at < lines.len()
        invariant
            at <= lines@.len(),
            out@.len() == at,
            forall|i: int|
                0 <= i < at ==> out@[i].pos == lines@[i].pos && out@[i].tiles@ == blank(
                    lines@[i].tiles@.len(),
                ),
        decreases lines@.len() - at,
    {
        out.push(empty_line(lines[at].pos, lines[at].tiles.len()));
        at = at + 1;
    }
    assert(lines_of(out@) =~= blanked(lines_of(lines@)));
    out
}

impl<'a, T: Drawable> Drawable for &'a T {
    open spec fn lines(&self) -> Seq<(Pos, Seq<Tile>)> {
        (**self).lines()
    }

    open spec fn cover(&self) -> Seq<(Pos, Seq<Tile>)> {
        (**self).cover()
    }

    fn for_each_line(&self) -> (lines: Vec<Line>) {
        (**self).for_each_line()
    }

    fn all_tiles(&self) -> (lines: Vec<Line>) {
        (**self).all_tiles()
    }
}

/// Draws like `T`, with every tile replaced by the empty tile: drawing it wipes `T` out.
pub struct Clear<T: Drawable>(pub T);

impl<T: Drawable> Drawable for Clear<T> {
    open spec fn lines(&self) -> Seq<(Pos, Seq<Tile>)> {
        blanked(self.0.lines())
    }

    open spec fn cover(&self) -> Seq<(Pos, Seq<Tile>)> {
        blanked(self.0.lines())
    }

    fn for_each_line(&self) -> (lines: Vec<Line>) {
        let inner = self.0.for_each_line();
        blank_out(&inner)
    }

    fn all_tiles(&self) -> (lines: Vec<Line>) {
        let inner = self.0.for_each_line();
        blank_out(&inner)
    }
}

/// Draws `inner`, with every line cut at the right border of `window`. Wiping it out wipes
/// the whole window.
pub struct Windowed<T: Drawable> {
    pub inner: T,
    pub window: Rect,
}

impl<T: Drawable> Drawable for Windowed<T> {
    open spec fn lines(&self) -> Seq<(Pos, Seq<Tile>)> {
        cut(self.inner.lines(), self.window.width)
    }

    open spec fn cover(&self) -> Seq<(Pos, Seq<Tile>)> {
        blank_rows(self.window.width as nat, self.window.height as nat)
    }

    fn for_each_line(&self) -> (lines: Vec<Line>) {
        let mut lines = self.inner.for_each_line();
        let ghost before = lines_of(lines@);
        let width = self.window.width;
        let mut at: usize = 0;
        while at < lines.len()
            invariant
                at <= lines@.len(),
                lines@.len() == before.len(),
                width == self.window.width,
                forall|i: int| 0 <= i < at ==> lines_of(lines@)[i] == cut(before, width)[i],
                forall|i: int| at <= i < lines@.len() ==> lines_of(lines@)[i] == before[i],
            decreases lines@.len() - at,
        {
            let pos = lines[at].pos;
            let ghost tiles = lines@[at as int].tiles@;
            assert(lines_of(lines@)[at as int] == before[at as int]);
            let keep: usize = if pos.x < width {
                (width - pos.x) as usize
            } else {
                0
            };
            let ghost rest = lines@;
            if keep < lines[at].tiles.len() {
                let mut line = Line { pos, tiles: Vec::new() };
                let mut copied: usize = 0;
                while copied < keep
                    invariant
                        copied <= keep,
                        at < lines@.len(),
                        keep < lines@[at as int].tiles@.len(),
                        line.pos == pos,
                        line.tiles@ == lines@[at as int].tiles@.take(copied as int),
                    decreases keep - copied,
                {
                    let tile = lines[at].tiles[copied];
                    line.tiles.push(tile);
                    assert(line.tiles@ =~= lines@[at as int].tiles@.take(copied as int + 1));
                    copied = copied + 1;
                }
                lines.set(at, line);
                assert(tiles.take(0) =~= Seq::<Tile>::empty());
            }
            assert(lines_of(lines@)[at as int] == cut(before, width)[at as int]);
            assert forall|i: int| at < i < lines@.len() implies lines_of(lines@)[i] == before[i] by {
                assert(lines@[i] == rest[i]);
                assert(lines_of(rest)[i] == before[i]);
            }
            assert forall|i: int| 0 <= i < at implies lines_of(lines@)[i] == cut(before, width)[i] by {
                assert(lines@[i] == rest[i]);
                assert(lines_of(rest)[i] == cut(before, width)[i]);
            }
            at = at + 1;
        }
        assert(lines_of(lines@) =~= cut(before, width));
        lines
    }

    fn all_tiles(&self) -> (lines: Vec<Line>) {
        empty_rows(self.window.width as usize, self.window.height)
    }
}

/// A line of `COLUMNS` empty tiles at the origin.
pub struct ConstEmptyLine<const COLUMNS: usize>;

impl<const COLUMNS: usize> Drawable for ConstEmptyLine<COLUMNS> {
    open spec fn lines(&self) -> Seq<(Pos, Seq<Tile>)> {
        seq![(Pos { x: 0, y: 0 }, blank(COLUMNS as nat))]
    }

    open spec fn cover(&self) -> Seq<(Pos, Seq<Tile>)> {
        seq![(Pos { x: 0, y: 0 }, blank(COLUMNS as nat))]
    }

    fn for_each_line(&self) -> (lines: Vec<Line>) {
        let lines = vec![empty_line(Pos::default(), COLUMNS)];
        assert(lines_of(lines@) =~= self.lines());
        lines
    }

    fn all_tiles(&self) -> (lines: Vec<Line>) {
        let lines = vec![empty_line(Pos::default(), COLUMNS)];
        assert(lines_of(lines@) =~= self.cover());
        lines
    }
}

/// A line of empty tiles of the given length at the origin.
pub struct EmptyLine(pub usize);

impl Drawable for EmptyLine {
    open spec fn lines(&self) -> Seq<(Pos, Seq<Tile>)> {
        seq![(Pos { x: 0, y: 0 }, blank(self.0 as nat))]
    }

    open spec fn cover(&self) -> Seq<(Pos, Seq<Tile>)> {
        seq![(Pos { x: 0, y: 0 }, blank(self.0 as nat))]
    }

    fn for_each_line(&self) -> (lines: Vec<Line>) {
        let lines = vec![empty_line(Pos::default(), self.0)];
        assert(lines_of(lines@) =~= self.lines());
        lines
    }

    fn all_tiles(&self) -> (lines: Vec<Line>) {
        let lines = vec![empty_line(Pos::default(), self.0)];
        assert(lines_of(lines@) =~= self.cover());
        lines
    }
}

/// A rectangle of empty tiles with its corner at the origin.
pub struct EmptyRect(pub Rect);

impl Drawable for EmptyRect {
    open spec fn lines(&self) -> Seq<(Pos, Seq<Tile>)> {
        blank_rows(self.0.width as nat, self.0.height as nat)
    }

    open spec fn cover(&self) -> Seq<(Pos, Seq<Tile>)> {
        blank_rows(self.0.width as nat, self.0.height as nat)
    }

    fn for_each_line(&self) -> (lines: Vec<Line>) {
        empty_rows(self.0.width as usize, self.0.height)
    }

    fn all_tiles(&self) -> (lines: Vec<Line>) {
        empty_rows(self.0.width as usize, self.0.height)
    }
}

/// A rectangle of `WIDTH` by `HEIGHT` empty tiles with its corner at the origin.
pub struct ConstEmptyRect<const WIDTH: usize, const HEIGHT: u16>;

impl<const WIDTH: usize, const HEIGHT: u16> Drawable for ConstEmptyRect<WIDTH, HEIGHT> {
    open spec fn lines(&self) -> Seq<(Pos, Seq<Tile>)> {
        blank_rows(WIDTH as nat, HEIGHT as nat)
    }

    open spec fn cover(&self) -> Seq<(Pos, Seq<Tile>)> {
        blank_rows(WIDTH as nat, HEIGHT as nat)
    }

    fn for_each_line(&self) -> (lines: Vec<Line>) {
        empty_rows(WIDTH, HEIGHT)
    }

    fn all_tiles(&self) -> (lines: Vec<Line>) {
        empty_rows(WIDTH, HEIGHT)
    }
}


/// The byte of the first character that has a tile: the space.
pub const ASCII_OFFSET: u8 = 0x20;

/// The byte that ends a line of text.
pub const NEWLINE: u8 = 0x0a;

/// The entry of a text map that shows the character of `byte`: the tiles of a font follow the
/// characters from the space on.
pub open spec fn text_tile(byte: u8) -> Tile {
    Tile(
        (if byte >= ASCII_OFFSET {
            byte - ASCII_OFFSET
        } else {
            byte - ASCII_OFFSET + 256
        }) as u16,
    )
}

/// The tiles of the characters of `bytes`.
pub open spec fn text_tiles(bytes: Seq<u8>) -> Seq<Tile> {
    Seq::new(bytes.len(), |i: int| text_tile(bytes[i]))
}

/// The lines of `bytes`: what lies between its newlines. Text without a newline is one line,
/// and a newline at the end starts a last line that is empty.
pub open spec fn split_lines(bytes: Seq<u8>) -> Seq<Seq<u8>>
    decreases bytes.len(),
{
    if bytes.len() == 0 {
        seq![Seq::<u8>::empty()]
    } else {
        let before = split_lines(bytes.drop_last());
        if bytes.last() == NEWLINE {
            before.push(Seq::<u8>::empty())
        } else {
            before.drop_last().push(before.last().push(bytes.last()))
        }
    }
}

/// The lines of the text `bytes` as a drawing: one below the other from the origin down. Lines
/// past the 65536th are left out.
pub open spec fn text_lines(bytes: Seq<u8>) -> Seq<(Pos, Seq<Tile>)> {
    Seq::new(
        (if split_lines(bytes).len() < 0x1_0000 {
            split_lines(bytes).len()
        } else {
            0x1_0000
        }) as nat,
        |y: int| (Pos { x: 0, y: y as u16 }, text_tiles(split_lines(bytes)[y])),
    )
}

/// Text has at least one line.
pub proof fn lemma_split_lines(bytes: Seq<u8>)
    ensures
        split_lines(bytes).len() >= 1,
    decreases bytes.len(),
{
    if bytes.len() > 0 {
        lemma_split_lines(bytes.drop_last());
    }
}

/// The lines of the text `bytes` as a drawing.
pub fn lines_of_text(bytes: &[u8]) -> (lines: Vec<Line>)
    ensures
        lines_of(lines@) == text_lines(bytes@),
{
    let mut lines: Vec<Line> = Vec::new();
    let mut current: Vec<Tile> = Vec::new();
    let mut at: usize = 0;
    proof {
        assert(bytes@.take(0) =~= Seq::<u8>::empty());
        assert(current@ =~= text_tiles(split_lines(bytes@.take(0)).last()));
    }
    while at < bytes.len()
        invariant
            at <= bytes@.len(),
            lines@.len() <= 0x1_0000,
            split_lines(bytes@.take(at as int)).len() >= 1,
            lines@.len() == if split_lines(bytes@.take(at as int)).len() - 1 < 0x1_0000 {
                split_lines(bytes@.take(at as int)).len() - 1
            } else {
                0x1_0000
            },
            forall|y: int|
                0 <= y < lines@.len() ==> lines@[y].pos == (Pos { x: 0, y: y as u16 })
                    && lines@[y].tiles@ == text_tiles(split_lines(bytes@.take(at as int))[y]),
            lines@.len() < 0x1_0000 ==> current@ == text_tiles(
                split_lines(bytes@.take(at as int)).last(),
            ),
        decreases bytes@.len() - at,
    {
        let byte = bytes[at];
        let ghost before = split_lines(bytes@.take(at as int));
        let ghost after = split_lines(bytes@.take(at as int + 1));
        let ghost done = lines@;
        proof {
            assert(bytes@.take(at as int + 1).drop_last() =~= bytes@.take(at as int));
            assert(bytes@.take(at as int + 1).last() == byte);
            lemma_split_lines(bytes@.take(at as int + 1));
        }
        if lines.len() < 0x1_0000 {
            if byte == NEWLINE {
                let y = lines.len() as u16;
                let mut full: Vec<Tile> = Vec::new();
                core::mem::swap(&mut full, &mut current);
                lines.push(Line { pos: Pos::y(y), tiles: full });
                proof {
                    assert(current@ =~= text_tiles(Seq::<u8>::empty()));
                    assert forall|y: int| 0 <= y < lines@.len() implies lines@[y].pos == (Pos {
                        x: 0,
                        y: y as u16,
                    }) && lines@[y].tiles@ == text_tiles(after[y]) by {
                        if y < done.len() {
                            assert(lines@[y] == done[y]);
                        }
                        assert(after[y] == before[y]);
                    }
                }
            } else {
                current.push(Tile::new(byte.wrapping_sub(ASCII_OFFSET) as u16));
                proof {
                    let wrapped = byte.wrapping_sub(ASCII_OFFSET) as u16;
                    assert(wrapped & 0x3ff == wrapped) by (bit_vector)
                        requires
                            wrapped < 256,
                    ;
                    assert(current@ =~= text_tiles(after.last()));
                    assert forall|y: int| 0 <= y < lines@.len() implies lines@[y].tiles@
                        == text_tiles(after[y]) by {
                        assert(after[y] == before[y]);
                    }
                }
            }
        } else {
            proof {
                assert forall|y: int| 0 <= y < lines@.len() implies lines@[y].tiles@ == text_tiles(
                    after[y],
                ) by {
                    assert(after[y] == before[y]);
                }
            }
        }
        at = at + 1;
    }
    proof {
        assert(bytes@.take(at as int) =~= bytes@);
    }
    if lines.len() < 0x1_0000 {
        let y = lines.len() as u16;
        lines.push(Line { pos: Pos::y(y), tiles: current });
    }
    assert(lines_of(lines@) =~= text_lines(bytes@));
    lines
}

impl<'s> Drawable for &'s str {
    open spec fn lines(&self) -> Seq<(Pos, Seq<Tile>)> {
        text_lines(self.spec_bytes())
    }

    open spec fn cover(&self) -> Seq<(Pos, Seq<Tile>)> {
        blanked(text_lines(self.spec_bytes()))
    }

    fn for_each_line(&self) -> (lines: Vec<Line>) {
        lines_of_text(self.as_bytes())
    }

    fn all_tiles(&self) -> (lines: Vec<Line>) {
        let lines = lines_of_text(self.as_bytes());
        blank_out(&lines)
    }
}

} // verus!
