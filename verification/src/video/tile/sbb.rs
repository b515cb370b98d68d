//! Screen blocks: where tile maps lie in background memory, and how tiles are written to them.
use crate::video::memory::{VideoMemory, SBB_COUNT, SBB_SIZE, VRAM_LEN};
use crate::video::structs::Pos;
use crate::video::tile::drawable::{blank, blanked, lines_of, Drawable, Line};
use crate::video::tile::map::{AffineSize, Rect, TextSize};
use crate::video::tile::{entrified, entrify, left_of, lemma_packing, packed, right_of, AffineEntry, Tile};
use crate::volmatrix::VolMatrix;
use vstd::prelude::*;
use vstd::slice::slice_subrange;

verus! {

/// One of the 32 screen blocks.
#[derive(Clone, Copy, Debug, PartialEq, Eq, Structural)]
pub struct Slot(pub usize);

impl Slot {
    /// How many screen blocks there are.
    pub const MAX_BLOCKS: usize = 32;

    /// The number of the block.
    pub open spec fn index(self) -> int {
        self.0 as int
    }

    /// The block exists.
    pub open spec fn wf(self) -> bool {
        self.0 < SBB_COUNT
    }

    /// The screen block of number `inner`, which is below [`Slot::MAX_BLOCKS`].
    pub fn new(inner: usize) -> (slot: Self)
        requires
            inner < SBB_COUNT,
        ensures
            slot.wf(),
            slot.index() == inner,
    {
        Slot(inner)
    }

    /// The number of the block, as a register takes it.
    pub fn get(self) -> (index: u16)
        requires
            self.wf(),
        ensures
            index == self.index(),
    {
        self.0 as u16
    }

    /// The number of the first cell of this block in a memory that `matrix` takes as screen
    /// blocks of `C` cells.
    pub fn index_volmatrix<const C: usize>(self, matrix: VolMatrix<C, SBB_COUNT>) -> (first: usize)
        requires
            self.wf(),
            matrix.wf(),
        ensures
            first == matrix.cell(0, self.index()),
            first + C <= matrix.first() + C * SBB_COUNT,
    {
        matrix.row_unchecked(self.0)
    }

    /// The handle of the text map of size `size` that starts at this block. The map lies
    /// within background memory.
    pub fn text_handle<'a>(self, size: TextSize, memory: &'a mut VideoMemory) -> (handle: TextHandle<
        'a,
    >)
        requires
            old(memory).wf(),
            self.wf(),
            self.index() * SBB_SIZE + size.bounds().width * size.bounds().height <= VRAM_LEN,
        ensures
            handle.wf(),
            handle.sbb == self,
            handle.size == size,
            *handle.memory == *old(memory),
            *final(memory) == *final(handle.memory),
    {
        TextHandle { memory, size, sbb: self }
    }

    /// The handle of the affine map of size `size` that starts at this block. The map lies
    /// within background memory.
    pub fn affine_handle<'a>(self, size: AffineSize, memory: &'a mut VideoMemory) -> (handle:
        AffineHandle<'a>)
        requires
            old(memory).wf(),
            self.wf(),
            2 * self.index() * SBB_SIZE + size.bounds().width * size.bounds().height <= 2
                * VRAM_LEN,
        ensures
            handle.wf(),
            handle.sbb == self,
            handle.size == size,
            *handle.memory == *old(memory),
            *final(memory) == *final(handle.memory),
    {
        AffineHandle { memory, size, sbb: self }
    }
}


/// Background memory as its 32 screen blocks.
pub fn screen_blocks() -> (matrix: VolMatrix<SBB_SIZE, SBB_COUNT>)
    ensures
        matrix.wf(),
        matrix.first() == 0,
{
    VolMatrix::new(0)
}

/// The number of the word of background memory that holds the byte at offset `offset` of the
/// affine map at the screen block `sbb`.
pub fn affine_sbb_at(sbb: Slot, offset: usize) -> (word: usize)
    requires
        sbb.wf(),
        sbb.index() * SBB_SIZE + offset / 2 < VRAM_LEN,
    ensures
        word == sbb.index() * SBB_SIZE + offset / 2,
{
    screen_blocks().get_unchecked(offset / 2, sbb.0)
}

/// Background memory after `raw` was written to column `x`, row `y` of the map that starts
/// at word `base`. Outside of `region` nothing is written.
pub open spec fn put(words: Seq<u16>, base: int, region: Rect, x: int, y: int, raw: u16) -> Seq<u16> {
    if 0 <= x < region.width && 0 <= y < region.height {
        words.update(base + x + y * region.width, raw)
    } else {
        words
    }
}

/// Background memory after the first `count` tiles of a line were written, the first of them
/// to column `x`, row `y`.
pub open spec fn line_drawn(
    words: Seq<u16>,
    base: int,
    region: Rect,
    x: int,
    y: int,
    tiles: Seq<Tile>,
    count: int,
) -> Seq<u16>
    decreases count,
{
    if count <= 0 {
        words
    } else {
        put(
            line_drawn(words, base, region, x, y, tiles, count - 1),
            base,
            region,
            x + count - 1,
            y,
            tiles[count - 1].raw(),
        )
    }
}

/// Background memory after the first `count` lines of `lines` were drawn, each moved by
/// `offset`: a later tile overwrites an earlier one.
pub open spec fn drawn(
    words: Seq<u16>,
    base: int,
    region: Rect,
    offset: Pos,
    lines: Seq<(Pos, Seq<Tile>)>,
    count: int,
) -> Seq<u16>
    decreases count,
{
    if count <= 0 {
        words
    } else {
        line_drawn(
            drawn(words, base, region, offset, lines, count - 1),
            base,
            region,
            offset.x + lines[count - 1].0.x,
            offset.y + lines[count - 1].0.y,
            lines[count - 1].1,
            lines[count - 1].1.len() as int,
        )
    }
}

/// The index of the word of column `x`, row `y` lies within the map, and differs from that of
/// every other tile of the map.
pub proof fn lemma_cell(width: int, height: int, x: int, y: int)
    requires
        0 <= x < width,
        0 <= y < height,
    ensures
        0 <= x + y * width < width * height,
        forall|other_x: int, other_y: int|
            0 <= other_x < width && 0 <= other_y < height && (other_x != x || other_y != y) ==> (
            #[trigger] cell(width, other_x, other_y)) != cell(width, x, y),
{
    assert(0 <= y * width && y * width + width <= height * width) by (nonlinear_arith)
        requires
            0 <= y < height,
            0 <= width,
    ;
    assert(width * height == height * width) by (nonlinear_arith);
    assert forall|other_x: int, other_y: int|
        0 <= other_x < width && 0 <= other_y < height && (other_x != x || other_y != y) implies (
    #[trigger] cell(width, other_x, other_y)) != cell(width, x, y) by {
        if other_y < y {
            assert(other_y * width + width <= y * width) by (nonlinear_arith)
                requires
                    other_y < y,
                    0 <= width,
            ;
        } else if other_y > y {
            assert(y * width + width <= other_y * width) by (nonlinear_arith)
                requires
                    y < other_y,
                    0 <= width,
            ;
        }
    }
}

/// The index of column `x`, row `y` in a map `width` tiles wide.
pub open spec fn cell(width: int, x: int, y: int) -> int {
    x + y * width
}

/// Past the right border of the map and below its last row, a line draws nothing.
pub proof fn lemma_line_drawn(
    words: Seq<u16>,
    base: int,
    region: Rect,
    x: int,
    y: int,
    tiles: Seq<Tile>,
    count: int,
    kept: int,
)
    requires
        0 <= kept <= count,
        0 <= x,
        y >= region.height || x + kept >= region.width,
    ensures
        line_drawn(words, base, region, x, y, tiles, count) == line_drawn(
            words,
            base,
            region,
            x,
            y,
            tiles,
            kept,
        ),
    decreases count,
{
    if count > kept {
        lemma_line_drawn(words, base, region, x, y, tiles, count - 1, kept);
    }
}

/// Drawing a line keeps the size of memory.
pub proof fn lemma_line_drawn_len(
    words: Seq<u16>,
    base: int,
    region: Rect,
    x: int,
    y: int,
    tiles: Seq<Tile>,
    count: int,
)
    requires
        0 <= base,
        base + region.width * region.height <= words.len(),
    ensures
        line_drawn(words, base, region, x, y, tiles, count).len() == words.len(),
    decreases count,
{
    if count > 0 {
        lemma_line_drawn_len(words, base, region, x, y, tiles, count - 1);
        if 0 <= x + count - 1 < region.width && 0 <= y < region.height {
            lemma_cell(region.width as int, region.height as int, x + count - 1, y);
        }
    }
}

/// Drawing keeps the size of memory.
pub proof fn lemma_drawn_len(
    words: Seq<u16>,
    base: int,
    region: Rect,
    offset: Pos,
    lines: Seq<(Pos, Seq<Tile>)>,
    count: int,
)
    requires
        0 <= base,
        base + region.width * region.height <= words.len(),
    ensures
        drawn(words, base, region, offset, lines, count).len() == words.len(),
    decreases count,
{
    if count > 0 {
        lemma_drawn_len(words, base, region, offset, lines, count - 1);
        lemma_line_drawn_len(
            drawn(words, base, region, offset, lines, count - 1),
            base,
            region,
            offset.x + lines[count - 1].0.x,
            offset.y + lines[count - 1].0.y,
            lines[count - 1].1,
            lines[count - 1].1.len() as int,
        );
    }
}

/// A handle to write tiles to the tile map of a text layer.
///
/// The map lies in background memory from the screen block `sbb` on, row after row. An entry
/// is one word: a tile, whether it is flipped, and its palette bank.
pub struct TextHandle<'a> {
    /// The display that the map belongs to.
    pub memory: &'a mut VideoMemory,
    /// The size of the map.
    pub size: TextSize,
    /// The screen block at which the map starts.
    pub sbb: Slot,
}

impl<'a> TextHandle<'a> {
    /// The index of the first word of the map in background memory.
    pub open spec fn base(&self) -> int {
        self.sbb.index() * SBB_SIZE
    }

    /// The display is well formed, and the map lies within background memory.
    pub open spec fn wf(&self) -> bool {
        &&& self.memory.wf()
        &&& self.sbb.wf()
        &&& self.base() + self.size.bounds().width * self.size.bounds().height <= VRAM_LEN
    }

    /// Background memory as it is now.
    pub open spec fn words(&self) -> Seq<u16> {
        self.memory.backgrounds@
    }

    /// The entry at `pos`, which lies on the map.
    pub fn get_tile(&self, pos: Pos) -> (tile: Tile)
        requires
            self.wf(),
            self.size.bounds().holds(pos),
        ensures
            tile.raw() == self.words()[self.base() + cell(
                self.size.bounds().width as int,
                pos.x as int,
                pos.y as int,
            )],
    {
        let region = self.size.region();
        proof {
            lemma_cell(region.width as int, region.height as int, pos.x as int, pos.y as int);
        }
        let index = self.sbb.index_volmatrix(screen_blocks()) + (pos.x as usize + pos.y as usize
            * region.width as usize);
        Tile(self.memory.backgrounds[index])
    }

    /// Writes `tile` at `pos`, which lies on the map.
    pub fn set_tile(&mut self, tile: Tile, pos: Pos)
        requires
            old(self).wf(),
            old(self).size.bounds().holds(pos),
        ensures
            final(self).wf(),
            final(self).size == old(self).size,
            final(self).sbb == old(self).sbb,
            final(self).memory.backgrounds@ == put(
                old(self).memory.backgrounds@,
                old(self).base(),
                old(self).size.bounds(),
                pos.x as int,
                pos.y as int,
                tile.raw(),
            ),
            final(self).memory.same_but_backgrounds(old(self).memory),
            *final(final(self).memory) == *final(old(self).memory),
    {
        let region = self.size.region();
        proof {
            lemma_cell(region.width as int, region.height as int, pos.x as int, pos.y as int);
        }
        let index = self.sbb.index_volmatrix(screen_blocks()) + (pos.x as usize + pos.y as usize
            * region.width as usize);
        self.memory.backgrounds.set(index, tile.get());
    }

    /// Draws `lines`, each moved by `offset`, and leaves out what falls outside of the map.
    pub fn set_lines(&mut self, offset: Pos, lines: &Vec<Line>)
        requires
            old(self).wf(),
        ensures
            final(self).wf(),
            final(self).size == old(self).size,
            final(self).sbb == old(self).sbb,
            final(self).memory.backgrounds@ == drawn(
                old(self).memory.backgrounds@,
                old(self).base(),
                old(self).size.bounds(),
                offset,
                lines_of(lines@),
                lines@.len() as int,
            ),
            final(self).memory.same_but_backgrounds(old(self).memory),
            *final(final(self).memory) == *final(old(self).memory),
    {
        let region = self.size.region();
        let ghost start = self.memory.backgrounds@;
        let ghost base = self.base();
        let ghost all = lines_of(lines@);
        let mut at: usize = 0;
        while at < lines.len()
            invariant
                at <= lines@.len(),
                all == lines_of(lines@),
                self.wf(),
                self.size == old(self).size,
                self.sbb == old(self).sbb,
                region == self.size.bounds(),
                base == self.base(),
                start == old(self).memory.backgrounds@,
                self.memory.backgrounds@ == drawn(start, base, region, offset, all, at as int),
                self.memory.same_but_backgrounds(old(self).memory),
                *final(self.memory) == *final(old(self).memory),
            decreases lines@.len() - at,
        {
            let line = &lines[at];
            let ghost before = self.memory.backgrounds@;
            let ghost tiles = line.tiles@;
            let x: u32 = offset.x as u32 + line.pos.x as u32;
            let y: u32 = offset.y as u32 + line.pos.y as u32;
            assert(all[at as int] == (line.pos, tiles));
            if y < region.height as u32 && x < region.width as u32 {
                let room: usize = (region.width as u32 - x) as usize;
                let count: usize = if line.tiles.len() < room {
                    line.tiles.len()
                } else {
                    room
                };
                let mut done: usize = 0;
                while done < count
                    invariant
                        done <= count,
                        count <= tiles.len(),
                        tiles == line.tiles@,
                        x + count <= region.width,
                        y < region.height,
                        self.wf(),
                        self.size == old(self).size,
                        self.sbb == old(self).sbb,
                        region == self.size.bounds(),
                        base == self.base(),
                        self.memory.backgrounds@ == line_drawn(
                            before,
                            base,
                            region,
                            x as int,
                            y as int,
                            tiles,
                            done as int,
                        ),
                        self.memory.same_but_backgrounds(old(self).memory),
                        *final(self.memory) == *final(old(self).memory),
                    decreases count - done,
                {
                    let pos = Pos { x: (x + done as u32) as u16, y: y as u16 };
                    self.set_tile(line.tiles[done], pos);
                    done = done + 1;
                }
                proof {
                    if count < tiles.len() {
                        lemma_line_drawn(
                            before,
                            base,
                            region,
                            x as int,
                            y as int,
                            tiles,
                            tiles.len() as int,
                            count as int,
                        );
                    }
                }
            } else {
                proof {
                    lemma_line_drawn(
                        before,
                        base,
                        region,
                        x as int,
                        y as int,
                        tiles,
                        tiles.len() as int,
                        0,
                    );
                }
            }
            at = at + 1;
        }
    }

    /// Draws `drawable` with its origin at `offset`. What falls outside of the map is left
    /// out.
    pub fn set_tiles<D: Drawable>(&mut self, offset: Pos, drawable: &D)
        requires
            old(self).wf(),
        ensures
            final(self).wf(),
            final(self).size == old(self).size,
            final(self).sbb == old(self).sbb,
            final(self).memory.backgrounds@ == drawn(
                old(self).memory.backgrounds@,
                old(self).base(),
                old(self).size.bounds(),
                offset,
                drawable.lines(),
                drawable.lines().len() as int,
            ),
            final(self).memory.same_but_backgrounds(old(self).memory),
            *final(final(self).memory) == *final(old(self).memory),
    {
        let lines = drawable.for_each_line();
        self.set_lines(offset, &lines);
    }

    /// Writes the empty tile over what `drawable` covers when drawn at `offset`. What falls
    /// outside of the map is left out.
    pub fn clear_tiles<D: Drawable>(&mut self, offset: Pos, drawable: &D)
        requires
            old(self).wf(),
        ensures
            final(self).wf(),
            final(self).size == old(self).size,
            final(self).sbb == old(self).sbb,
            final(self).memory.backgrounds@ == drawn(
                old(self).memory.backgrounds@,
                old(self).base(),
                old(self).size.bounds(),
                offset,
                blanked(drawable.cover()),
                drawable.cover().len() as int,
            ),
            forall|x: int, y: int|
                0 <= x < old(self).size.bounds().width && 0 <= y < old(self).size.bounds().height
                    ==> final(self).memory.backgrounds@[old(self).base() + cell(
                    old(self).size.bounds().width as int,
                    x,
                    y,
                )] == if #[trigger] covered(
                    offset,
                    drawable.cover(),
                    drawable.cover().len() as int,
                    x,
                    y,
                ) {
                    0u16
                } else {
                    old(self).memory.backgrounds@[old(self).base() + cell(
                        old(self).size.bounds().width as int,
                        x,
                        y,
                    )]
                },
            forall|index: int|
                0 <= index < old(self).base() || old(self).base() + old(self).size.bounds().width
                    * old(self).size.bounds().height <= index < VRAM_LEN
                    ==> #[trigger] final(self).memory.backgrounds@[index] == old(
                    self,
                ).memory.backgrounds@[index],
            final(self).memory.same_but_backgrounds(old(self).memory),
            *final(final(self).memory) == *final(old(self).memory),
    {
        let lines = drawable.all_tiles();
        let blanks = crate::video::tile::drawable::blank_out(&lines);
        let ghost words = self.memory.backgrounds@;
        let ghost base = self.base();
        let ghost region = self.size.bounds();
        let ghost cover = drawable.cover();
        proof {
            assert(lines_of(blanks@).len() == lines_of(lines@).len());
            assert forall|x: int, y: int| 0 <= x < region.width && 0 <= y < region.height implies drawn(
                words,
                base,
                region,
                offset,
                blanked(cover),
                cover.len() as int,
            )[base + cell(region.width as int, x, y)] == if #[trigger] covered(
                offset,
                cover,
                cover.len() as int,
                x,
                y,
            ) {
                0u16
            } else {
                words[base + cell(region.width as int, x, y)]
            } by {
                lemma_cleared(words, base, region, offset, cover, cover.len() as int, x, y);
            }
            assert forall|index: int|
                0 <= index < base || base + region.width * region.height <= index
                    < VRAM_LEN implies #[trigger] drawn(
                words,
                base,
                region,
                offset,
                blanked(cover),
                cover.len() as int,
            )[index] == words[index] by {
                lemma_drawn_outside(
                    words,
                    base,
                    region,
                    offset,
                    blanked(cover),
                    cover.len() as int,
                    index,
                );
            }
        }
        self.set_lines(offset, &blanks);
    }
}

/// Whether some tile of the first `count` lines of `lines`, moved by `offset`, lands on
/// column `x`, row `y`.
pub open spec fn covered(
    offset: Pos,
    lines: Seq<(Pos, Seq<Tile>)>,
    count: int,
    x: int,
    y: int,
) -> bool {
    exists|line: int, tile: int|
        0 <= line < count && 0 <= tile < lines[line].1.len() && #[trigger] hits(
            offset,
            lines,
            line,
            tile,
            x,
            y,
        )
}

/// A line of empty tiles leaves the empty tile where it lands and nothing else changed.
pub proof fn lemma_line_blank(
    words: Seq<u16>,
    base: int,
    region: Rect,
    x: int,
    y: int,
    len: nat,
    count: int,
    at_x: int,
    at_y: int,
)
    requires
        0 <= base,
        base + region.width * region.height <= words.len(),
        0 <= count <= len,
        0 <= x,
        0 <= at_x < region.width,
        0 <= at_y < region.height,
    ensures
        line_drawn(words, base, region, x, y, blank(len), count)[base + cell(
            region.width as int,
            at_x,
            at_y,
        )] == if at_y == y && x <= at_x < x + count {
            0u16
        } else {
            words[base + cell(region.width as int, at_x, at_y)]
        },
    decreases count,
{
    if count > 0 {
        lemma_line_blank(words, base, region, x, y, len, count - 1, at_x, at_y);
        lemma_line_drawn_len(words, base, region, x, y, blank(len), count - 1);
        lemma_cell(region.width as int, region.height as int, at_x, at_y);
        if x + count - 1 < region.width && 0 <= y < region.height {
            lemma_cell(region.width as int, region.height as int, x + count - 1, y);
            if at_x != x + count - 1 || at_y != y {
                assert(cell(region.width as int, x + count - 1, y) != cell(
                    region.width as int,
                    at_x,
                    at_y,
                ));
            }
        }
    }
}

/// What was cleared holds the empty tile: after the lines of a drawing were drawn with the
/// empty tile in place of each tile, an entry of the map holds the empty tile if a tile of
/// the drawing lands on it, and is as it was if none does.
pub proof fn lemma_cleared(
    words: Seq<u16>,
    base: int,
    region: Rect,
    offset: Pos,
    lines: Seq<(Pos, Seq<Tile>)>,
    count: int,
    x: int,
    y: int,
)
    requires
        0 <= base,
        base + region.width * region.height <= words.len(),
        0 <= count <= lines.len(),
        0 <= x < region.width,
        0 <= y < region.height,
    ensures
        drawn(words, base, region, offset, blanked(lines), count)[base + cell(
            region.width as int,
            x,
            y,
        )] == if covered(offset, lines, count, x, y) {
            0u16
        } else {
            words[base + cell(region.width as int, x, y)]
        },
    decreases count,
{
    if count > 0 {
        let last = lines[count - 1];
        let before = drawn(words, base, region, offset, blanked(lines), count - 1);
        let from_x = offset.x + last.0.x;
        let from_y = offset.y + last.0.y;
        lemma_cleared(words, base, region, offset, lines, count - 1, x, y);
        lemma_drawn_len(words, base, region, offset, blanked(lines), count - 1);
        lemma_line_blank(before, base, region, from_x, from_y, last.1.len(), last.1.len() as int, x, y);
        assert(blanked(lines)[count - 1] == (last.0, blank(last.1.len())));
        if from_y == y && from_x <= x < from_x + last.1.len() {
            assert(hits(offset, lines, count - 1, x - from_x, x, y));
        } else {
            if covered(offset, lines, count, x, y) {
                let (line, tile) = choose|line: int, tile: int|
                    0 <= line < count && 0 <= tile < lines[line].1.len() && #[trigger] hits(
                        offset,
                        lines,
                        line,
                        tile,
                        x,
                        y,
                    );
                assert(line < count - 1);
                assert(hits(offset, lines, line, tile, x, y));
            }
            if covered(offset, lines, count - 1, x, y) {
                let (line, tile) = choose|line: int, tile: int|
                    0 <= line < count - 1 && 0 <= tile < lines[line].1.len() && #[trigger] hits(
                        offset,
                        lines,
                        line,
                        tile,
                        x,
                        y,
                    );
                assert(hits(offset, lines, line, tile, x, y));
            }
        }
    }
}

/// Drawing on a map changes nothing outside of the map.
pub proof fn lemma_drawn_outside(
    words: Seq<u16>,
    base: int,
    region: Rect,
    offset: Pos,
    lines: Seq<(Pos, Seq<Tile>)>,
    count: int,
    index: int,
)
    requires
        0 <= base,
        base + region.width * region.height <= words.len(),
        0 <= index < words.len(),
        index < base || index >= base + region.width * region.height,
    ensures
        drawn(words, base, region, offset, lines, count)[index] == words[index],
    decreases count,
{
    if count > 0 {
        let before = drawn(words, base, region, offset, lines, count - 1);
        lemma_drawn_outside(words, base, region, offset, lines, count - 1, index);
        lemma_drawn_len(words, base, region, offset, lines, count - 1);
        lemma_line_drawn_outside(
            before,
            base,
            region,
            offset.x + lines[count - 1].0.x,
            offset.y + lines[count - 1].0.y,
            lines[count - 1].1,
            lines[count - 1].1.len() as int,
            index,
        );
    }
}

/// Drawing a line on a map changes nothing outside of the map.
pub proof fn lemma_line_drawn_outside(
    words: Seq<u16>,
    base: int,
    region: Rect,
    x: int,
    y: int,
    tiles: Seq<Tile>,
    count: int,
    index: int,
)
    requires
        0 <= base,
        base + region.width * region.height <= words.len(),
        0 <= index < words.len(),
        index < base || index >= base + region.width * region.height,
    ensures
        line_drawn(words, base, region, x, y, tiles, count)[index] == words[index],
    decreases count,
{
    if count > 0 {
        lemma_line_drawn_outside(words, base, region, x, y, tiles, count - 1, index);
        lemma_line_drawn_len(words, base, region, x, y, tiles, count - 1);
        if 0 <= x + count - 1 < region.width && 0 <= y < region.height {
            lemma_cell(region.width as int, region.height as int, x + count - 1, y);
        }
    }
}


/// Whether tile `tile` of line `line` of `lines`, moved by `offset`, lands on column `x`, row
/// `y`.
pub open spec fn hits(
    offset: Pos,
    lines: Seq<(Pos, Seq<Tile>)>,
    line: int,
    tile: int,
    x: int,
    y: int,
) -> bool {
    offset.x + lines[line].0.x + tile == x && offset.y + lines[line].0.y == y
}

/// A tile of a line that lands on the map reads back as it was written.
pub proof fn lemma_line_reads_back(
    words: Seq<u16>,
    base: int,
    region: Rect,
    x: int,
    y: int,
    tiles: Seq<Tile>,
    count: int,
    tile: int,
)
    requires
        0 <= base,
        base + region.width * region.height <= words.len(),
        0 <= tile < count <= tiles.len(),
        0 <= x,
        x + tile < region.width,
        0 <= y < region.height,
    ensures
        line_drawn(words, base, region, x, y, tiles, count)[base + cell(
            region.width as int,
            x + tile,
            y,
        )] == tiles[tile].raw(),
    decreases count,
{
    let before = line_drawn(words, base, region, x, y, tiles, count - 1);
    lemma_line_drawn_len(words, base, region, x, y, tiles, count - 1);
    lemma_cell(region.width as int, region.height as int, x + tile, y);
    if tile < count - 1 {
        lemma_line_reads_back(words, base, region, x, y, tiles, count - 1, tile);
        if x + count - 1 < region.width {
            lemma_cell(region.width as int, region.height as int, x + count - 1, y);
            assert(cell(region.width as int, x + count - 1, y) != cell(
                region.width as int,
                x + tile,
                y,
            ));
        }
    }
}

/// A word that no tile of a line lands on stays as it was.
pub proof fn lemma_line_keeps(
    words: Seq<u16>,
    base: int,
    region: Rect,
    x: int,
    y: int,
    tiles: Seq<Tile>,
    count: int,
    kept_x: int,
    kept_y: int,
)
    requires
        0 <= base,
        base + region.width * region.height <= words.len(),
        0 <= x,
        0 <= kept_x < region.width,
        0 <= kept_y < region.height,
        kept_y != y || kept_x < x || kept_x >= x + count,
    ensures
        line_drawn(words, base, region, x, y, tiles, count)[base + cell(
            region.width as int,
            kept_x,
            kept_y,
        )] == words[base + cell(region.width as int, kept_x, kept_y)],
    decreases count,
{
    if count > 0 {
        lemma_line_keeps(words, base, region, x, y, tiles, count - 1, kept_x, kept_y);
        lemma_line_drawn_len(words, base, region, x, y, tiles, count - 1);
        lemma_cell(region.width as int, region.height as int, kept_x, kept_y);
        if x + count - 1 < region.width && 0 <= y < region.height {
            lemma_cell(region.width as int, region.height as int, x + count - 1, y);
            assert(cell(region.width as int, x + count - 1, y) != cell(
                region.width as int,
                kept_x,
                kept_y,
            ));
        }
    }
}

/// What was drawn reads back: a tile of a drawing that lands on the map, and on which no
/// later line of the drawing lands, is in memory as it was given.
pub proof fn lemma_drawn_reads_back(
    words: Seq<u16>,
    base: int,
    region: Rect,
    offset: Pos,
    lines: Seq<(Pos, Seq<Tile>)>,
    count: int,
    line: int,
    tile: int,
)
    requires
        0 <= base,
        base + region.width * region.height <= words.len(),
        0 <= line < count <= lines.len(),
        0 <= tile < lines[line].1.len(),
        offset.x + lines[line].0.x + tile < region.width,
        offset.y + lines[line].0.y < region.height,
        forall|later: int, other: int|
            line < later < count && 0 <= other < lines[later].1.len() ==> !#[trigger] hits(
                offset,
                lines,
                later,
                other,
                offset.x + lines[line].0.x + tile,
                offset.y + lines[line].0.y,
            ),
    ensures
        drawn(words, base, region, offset, lines, count)[base + cell(
            region.width as int,
            offset.x + lines[line].0.x + tile,
            offset.y + lines[line].0.y,
        )] == lines[line].1[tile].raw(),
    decreases count,
{
    let x = offset.x + lines[line].0.x + tile;
    let y = offset.y + lines[line].0.y;
    let before = drawn(words, base, region, offset, lines, count - 1);
    let last = lines[count - 1];
    lemma_drawn_len(words, base, region, offset, lines, count - 1);
    if line == count - 1 {
        lemma_line_reads_back(
            before,
            base,
            region,
            offset.x + last.0.x,
            y,
            last.1,
            last.1.len() as int,
            tile,
        );
    } else {
        lemma_drawn_reads_back(words, base, region, offset, lines, count - 1, line, tile);
        let last_x = offset.x + last.0.x;
        let last_y = offset.y + last.0.y;
        if last_y == y && last_x <= x < last_x + last.1.len() {
            assert(hits(offset, lines, count - 1, x - last_x, x, y));
        }
        lemma_line_keeps(before, base, region, last_x, last_y, last.1, last.1.len() as int, x, y);
    }
}

/// The byte at `at` of memory taken as bytes: the low byte of a word comes first.
pub open spec fn byte_at(words: Seq<u16>, at: int) -> u8 {
    if at % 2 == 0 {
        left_of(words[at / 2])
    } else {
        right_of(words[at / 2])
    }
}

/// Memory after the byte at `at` was replaced: the other byte of its word stays.
pub open spec fn byte_put(words: Seq<u16>, at: int, byte: u8) -> Seq<u16> {
    words.update(
        at / 2,
        if at % 2 == 0 {
            packed(byte, right_of(words[at / 2]))
        } else {
            packed(left_of(words[at / 2]), byte)
        },
    )
}

/// Memory after the first `count` of `tiles` were written as bytes from byte `start` on.
pub open spec fn row_put(words: Seq<u16>, start: int, tiles: Seq<u8>, count: int) -> Seq<u16>
    decreases count,
{
    if count <= 0 {
        words
    } else {
        byte_put(row_put(words, start, tiles, count - 1), start + count - 1, tiles[count - 1])
    }
}

/// How many tiles of a line of `len` tiles that starts at column `x` lie on a map `width`
/// tiles wide.
pub open spec fn cropped(width: int, x: int, len: int) -> int {
    if len < width - x {
        len
    } else {
        width - x
    }
}

/// Memory after a line of an affine map was written from column `x`, row `y` on. The map
/// starts at byte `base`. A line that starts outside of `region` is left out, and one that
/// passes its right border is cut there.
pub open spec fn affine_line(
    words: Seq<u16>,
    base: int,
    region: Rect,
    x: int,
    y: int,
    tiles: Seq<u8>,
) -> Seq<u16> {
    if 0 <= x < region.width && 0 <= y < region.height {
        row_put(
            words,
            base + cell(region.width as int, x, y),
            tiles,
            cropped(region.width as int, x, tiles.len() as int),
        )
    } else {
        words
    }
}

/// The tiles of a line as an affine map names them.
pub open spec fn affine_tiles(tiles: Seq<Tile>) -> Seq<u8> {
    Seq::new(tiles.len(), |i: int| tiles[i].affine_index())
}

/// Memory after the first `count` lines of `lines` were drawn on an affine map, each moved by
/// `offset`.
pub open spec fn affine_drawn(
    words: Seq<u16>,
    base: int,
    region: Rect,
    offset: Pos,
    lines: Seq<(Pos, Seq<Tile>)>,
    count: int,
) -> Seq<u16>
    decreases count,
{
    if count <= 0 {
        words
    } else {
        affine_line(
            affine_drawn(words, base, region, offset, lines, count - 1),
            base,
            region,
            offset.x + lines[count - 1].0.x,
            offset.y + lines[count - 1].0.y,
            affine_tiles(lines[count - 1].1),
        )
    }
}

/// After a byte was written it reads back, and every other byte is as it was.
pub proof fn lemma_byte_put(words: Seq<u16>, at: int, byte: u8, other: int)
    requires
        0 <= at < 2 * words.len(),
        0 <= other < 2 * words.len(),
    ensures
        byte_put(words, at, byte).len() == words.len(),
        byte_at(byte_put(words, at, byte), other) == if other == at {
            byte
        } else {
            byte_at(words, other)
        },
{
    let word = words[at / 2];
    if at % 2 == 0 {
        lemma_packing(byte, right_of(word), word);
    } else {
        lemma_packing(left_of(word), byte, word);
    }
}

/// Tiles written at consecutive offsets lie in memory as consecutive bytes, the one at an
/// even offset in the low byte of its word, and every other byte is as it was.
pub proof fn lemma_row_put(words: Seq<u16>, start: int, tiles: Seq<u8>, count: int, at: int)
    requires
        0 <= start,
        0 <= count <= tiles.len(),
        start + count <= 2 * words.len(),
        0 <= at < 2 * words.len(),
    ensures
        row_put(words, start, tiles, count).len() == words.len(),
        byte_at(row_put(words, start, tiles, count), at) == if start <= at < start + count {
            tiles[at - start]
        } else {
            byte_at(words, at)
        },
    decreases count,
{
    if count > 0 {
        lemma_row_put(words, start, tiles, count - 1, at);
        lemma_byte_put(row_put(words, start, tiles, count - 1), start + count - 1, tiles[count - 1], at);
    }
}

/// Two tiles written at an even offset and the one behind it are one word with both.
pub proof fn lemma_couple(words: Seq<u16>, at: int, left: u8, right: u8)
    requires
        0 <= at,
        at % 2 == 0,
        at + 1 < 2 * words.len(),
    ensures
        byte_put(byte_put(words, at, left), at + 1, right) == words.update(at / 2, packed(left, right)),
{
    lemma_packing(left, right_of(words[at / 2]), words[at / 2]);
    assert(byte_put(byte_put(words, at, left), at + 1, right) =~= words.update(
        at / 2,
        packed(left, right),
    ));
}

/// A handle to write tiles to the tile map of an affine layer.
///
/// The map lies in background memory from the screen block `sbb` on, row after row. A tile
/// is one byte, and memory takes writes of whole words only: to write a single tile, the
/// word is read, one of its bytes replaced, and the word written back.
pub struct AffineHandle<'a> {
    /// The display that the map belongs to.
    pub memory: &'a mut VideoMemory,
    /// The size of the map.
    pub size: AffineSize,
    /// The screen block at which the map starts.
    pub sbb: Slot,
}

impl<'a> AffineHandle<'a> {
    /// The index of the first byte of the map in background memory taken as bytes.
    pub open spec fn base(&self) -> int {
        2 * self.sbb.index() * SBB_SIZE
    }

    /// The display is well formed, and the map lies within background memory.
    pub open spec fn wf(&self) -> bool {
        &&& self.memory.wf()
        &&& self.sbb.wf()
        &&& self.base() + self.size.bounds().width * self.size.bounds().height <= 2 * VRAM_LEN
    }

    /// Background memory as it is now.
    pub open spec fn words(&self) -> Seq<u16> {
        self.memory.backgrounds@
    }

    /// The size of the map.
    pub fn size(&self) -> (size: AffineSize)
        ensures
            size == self.size,
    {
        self.size
    }

    /// The tile at `pos`, which lies on the map.
    pub fn get_tile(&self, pos: Pos) -> (tile: u8)
        requires
            self.wf(),
            self.size.bounds().holds(pos),
        ensures
            tile == byte_at(
                self.words(),
                self.base() + cell(self.size.bounds().width as int, pos.x as int, pos.y as int),
            ),
    {
        let region = self.size.region();
        proof {
            lemma_cell(region.width as int, region.height as int, pos.x as int, pos.y as int);
        }
        let offset: usize = pos.x as usize + pos.y as usize * region.width as usize;
        let word = self.memory.backgrounds[affine_sbb_at(self.sbb, offset)];
        if offset % 2 == 0 {
            (word & 0xff) as u8
        } else {
            (word >> 8) as u8
        }
    }

    /// Writes the word of two tiles at the even byte offset `offset` of the map.
    fn set_couple_unchecked(&mut self, to_set: AffineEntry, offset: u16)
        requires
            old(self).wf(),
            offset % 2 == 0,
            offset + 1 < old(self).size.bounds().width * old(self).size.bounds().height,
        ensures
            final(self).wf(),
            final(self).size == old(self).size,
            final(self).sbb == old(self).sbb,
            final(self).memory.backgrounds@ == old(self).memory.backgrounds@.update(
                (old(self).base() + offset) / 2,
                to_set.0,
            ),
            final(self).memory.same_but_backgrounds(old(self).memory),
            *final(final(self).memory) == *final(old(self).memory),
    {
        let index = affine_sbb_at(self.sbb, offset as usize);
        self.memory.backgrounds.set(index, to_set.0);
    }

    /// Writes one tile at byte offset `offset` of the map and keeps the tile that shares its
    /// word.
    fn set_unique_unchecked(&mut self, to_set: u8, offset: u16)
        requires
            old(self).wf(),
            offset < old(self).size.bounds().width * old(self).size.bounds().height,
        ensures
            final(self).wf(),
            final(self).size == old(self).size,
            final(self).sbb == old(self).sbb,
            final(self).memory.backgrounds@ == byte_put(
                old(self).memory.backgrounds@,
                old(self).base() + offset,
                to_set,
            ),
            final(self).memory.same_but_backgrounds(old(self).memory),
            *final(final(self).memory) == *final(old(self).memory),
    {
        let index = affine_sbb_at(self.sbb, offset as usize);
        let mut previous = AffineEntry(self.memory.backgrounds[index]);
        if offset % 2 == 0 {
            previous.set_left(to_set);
        } else {
            previous.set_right(to_set);
        }
        self.memory.backgrounds.set(index, previous.0);
    }

    /// Writes `tiles` from `pos` on to the right. A line that starts outside of the map is
    /// left out, and one that passes the right border of the map is cut there.
    pub fn set_line(&mut self, pos: Pos, tiles: &[u8])
        requires
            old(self).wf(),
        ensures
            final(self).wf(),
            final(self).size == old(self).size,
            final(self).sbb == old(self).sbb,
            final(self).memory.backgrounds@ == affine_line(
                old(self).memory.backgrounds@,
                old(self).base(),
                old(self).size.bounds(),
                pos.x as int,
                pos.y as int,
                tiles@,
            ),
            final(self).memory.same_but_backgrounds(old(self).memory),
            *final(final(self).memory) == *final(old(self).memory),
    {
        let region = self.size.region();
        let y_oob = pos.y >= region.height;
        let x_oob = pos.x >= region.width;
        if y_oob || x_oob {
            return ;
        }
        let max_line_len = (region.width - pos.x) as usize;
        let count: usize = if tiles.len() < max_line_len {
            tiles.len()
        } else {
            max_line_len
        };
        let ghost before = self.memory.backgrounds@;
        let ghost base = self.base();
        proof {
            lemma_cell(region.width as int, region.height as int, pos.x as int, pos.y as int);
            assert(pos.y * region.width + region.width <= region.height * region.width)
                by (nonlinear_arith)
                requires
                    pos.y < region.height,
                    0 <= region.width,
            ;
            assert(region.width * region.height == region.height * region.width)
                by (nonlinear_arith);
            assert(region.width * region.height <= 0x4000) by (nonlinear_arith)
                requires
                    region.width <= 128,
                    region.height <= 128,
            ;
        }
        let start: u16 = pos.x + pos.y * region.width;
        let mut offset: u16 = start;
        let mut lead: usize = 0;
        let is_even = offset % 2 == 0;
        if !is_even {
            if count == 0 {
                return ;
            }
            self.set_unique_unchecked(tiles[0], offset);
            offset = offset + 1;
            lead = 1;
            proof {
                reveal_with_fuel(row_put, 2);
            }
        }
        let rest = slice_subrange(tiles, lead, count);
        let entries = entrify(rest);
        let mut at: usize = 0;
        while at < entries.len()
            invariant
                at <= entries@.len(),
                entries@ == entrified(rest@),
                rest@ == tiles@.subrange(lead as int, count as int),
                lead <= 1,
                lead <= count <= tiles@.len(),
                start + count <= region.width * region.height,
                region.width * region.height <= 0x4000,
                offset == start + lead + 2 * at,
                offset % 2 == 0,
                lead + 2 * at <= count + 1,
                self.wf(),
                self.size == old(self).size,
                self.sbb == old(self).sbb,
                region == self.size.bounds(),
                base == self.base(),
                before == old(self).memory.backgrounds@,
                self.memory.backgrounds@ == row_put(
                    before,
                    base + start,
                    tiles@,
                    if lead + 2 * at < count {
                        lead + 2 * at
                    } else {
                        count as int
                    },
                ),
                self.memory.same_but_backgrounds(old(self).memory),
                *final(self.memory) == *final(old(self).memory),
            decreases entries@.len() - at,
        {
            let ghost now = self.memory.backgrounds@;
            let ghost written = lead + 2 * at;
            assert(written < count);
            match entries[at] {
                Ok(entry) => {
                    proof {
                        assert(rest@[2 * at] == tiles@[written]);
                        assert(rest@[2 * at + 1] == tiles@[written + 1]);
                        lemma_couple(now, base + offset, tiles@[written], tiles@[written + 1]);
                        assert(row_put(before, base + start, tiles@, written + 1) == byte_put(
                            now,
                            base + start + written,
                            tiles@[written],
                        ));
                        assert(row_put(before, base + start, tiles@, written + 2) == byte_put(
                            row_put(before, base + start, tiles@, written + 1),
                            base + start + written + 1,
                            tiles@[written + 1],
                        ));
                    }
                    self.set_couple_unchecked(entry, offset);
                },
                Err(left) => {
                    proof {
                        assert(rest@[2 * at] == tiles@[written]);
                        assert(row_put(before, base + start, tiles@, written + 1) == byte_put(
                            now,
                            base + start + written,
                            tiles@[written],
                        ));
                    }
                    self.set_unique_unchecked(left, offset);
                },
            }
            offset = offset + 2;
            at = at + 1;
        }
    }

    /// Draws `lines`, each moved by `offset`, and leaves out what falls outside of the map.
    pub fn set_lines(&mut self, offset: Pos, lines: &Vec<Line>)
        requires
            old(self).wf(),
        ensures
            final(self).wf(),
            final(self).size == old(self).size,
            final(self).sbb == old(self).sbb,
            final(self).memory.backgrounds@ == affine_drawn(
                old(self).memory.backgrounds@,
                old(self).base(),
                old(self).size.bounds(),
                offset,
                lines_of(lines@),
                lines@.len() as int,
            ),
            final(self).memory.same_but_backgrounds(old(self).memory),
            *final(final(self).memory) == *final(old(self).memory),
    {
        let ghost start = self.memory.backgrounds@;
        let ghost base = self.base();
        let ghost region = self.size.bounds();
        let ghost all = lines_of(lines@);
        let mut at: usize = 0;
        while at < lines.len()
            invariant
                at <= lines@.len(),
                all == lines_of(lines@),
                self.wf(),
                self.size == old(self).size,
                self.sbb == old(self).sbb,
                region == self.size.bounds(),
                base == self.base(),
                start == old(self).memory.backgrounds@,
                self.memory.backgrounds@ == affine_drawn(start, base, region, offset, all, at as int),
                self.memory.same_but_backgrounds(old(self).memory),
                *final(self.memory) == *final(old(self).memory),
            decreases lines@.len() - at,
        {
            let line = &lines[at];
            assert(all[at as int] == (line.pos, line.tiles@));
            let x: u32 = offset.x as u32 + line.pos.x as u32;
            let y: u32 = offset.y as u32 + line.pos.y as u32;
            if x <= 0xffff && y <= 0xffff {
                let mut bytes: Vec<u8> = Vec::new();
                let mut done: usize = 0;
                while done < line.tiles.len()
                    invariant
                        done <= line.tiles@.len(),
                        bytes@.len() == done,
                        forall|i: int| 0 <= i < done ==> bytes@[i] == line.tiles@[i].affine_index(),
                    decreases line.tiles@.len() - done,
                {
                    bytes.push(line.tiles[done].affine_tile());
                    done = done + 1;
                }
                assert(bytes@ =~= affine_tiles(line.tiles@));
                self.set_line(Pos { x: x as u16, y: y as u16 }, bytes.as_slice());
            }
            at = at + 1;
        }
    }

    /// Draws `drawable` with its origin at `offset`. What falls outside of the map is left
    /// out.
    pub fn set_tiles<D: Drawable>(&mut self, offset: Pos, drawable: &D)
        requires
            old(self).wf(),
        ensures
            final(self).wf(),
            final(self).size == old(self).size,
            final(self).sbb == old(self).sbb,
            final(self).memory.backgrounds@ == affine_drawn(
                old(self).memory.backgrounds@,
                old(self).base(),
                old(self).size.bounds(),
                offset,
                drawable.lines(),
                drawable.lines().len() as int,
            ),
            final(self).memory.same_but_backgrounds(old(self).memory),
            *final(final(self).memory) == *final(old(self).memory),
    {
        let lines = drawable.for_each_line();
        self.set_lines(offset, &lines);
    }

    /// Draws `drawable` with its origin at `offset` and the empty tile in place of each of
    /// its tiles. What falls outside of the map is left out.
    pub fn clear_tiles<D: Drawable>(&mut self, offset: Pos, drawable: &D)
        requires
            old(self).wf(),
        ensures
            final(self).wf(),
            final(self).size == old(self).size,
            final(self).sbb == old(self).sbb,
            final(self).memory.backgrounds@ == affine_drawn(
                old(self).memory.backgrounds@,
                old(self).base(),
                old(self).size.bounds(),
                offset,
                blanked(drawable.lines()),
                drawable.lines().len() as int,
            ),
            final(self).memory.same_but_backgrounds(old(self).memory),
            *final(final(self).memory) == *final(old(self).memory),
    {
        let lines = drawable.for_each_line();
        let blanks = crate::video::tile::drawable::blank_out(&lines);
        assert(lines_of(blanks@).len() == lines_of(lines@).len());
        self.set_lines(offset, &blanks);
    }
}

} // verus!
