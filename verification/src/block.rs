//! Free and taken space on a line.
//!
//! A [`Block`] is either a span that an id owns or a gap left by one that was removed.
//! [`Blocks`] keeps the spans in the order in which they lie, first fit, and merges
//! neighbouring gaps.
use arrayvec::ArrayVec;
use vstd::prelude::*;

verus! {

/// The most entries that a [`Blocks`] can hold.
pub const MAX_BLOCKS: usize = 512;

/// A span of the line.
#[derive(Clone, Copy, Debug, PartialEq, Eq, Structural)]
pub enum Block {
    /// A void of the given size, left by something that was removed.
    Gap(u16),
    /// Something with the given id that takes the given size.
    Full(u64, u16),
}

impl Block {
    /// The space that the span takes.
    pub open spec fn extent(self) -> int {
        match self {
            Block::Gap(size) => size as int,
            Block::Full(_, size) => size as int,
        }
    }

    /// Whether the span is owned by `id`.
    pub open spec fn holds(self, id: u64) -> bool {
        self matches Block::Full(owner, _) && owner == id
    }

    /// Whether the span is a gap with room for `size`.
    pub open spec fn fits(self, size: u16) -> bool {
        self matches Block::Gap(room) && room >= size
    }

    /// The space that the span takes.
    pub fn size(&self) -> (size: u16)
        ensures
            size == self.extent(),
    {
        match self {
            Block::Gap(size) => *size,
            Block::Full(_, size) => *size,
        }
    }

    /// Whether the span is owned by `id`.
    pub fn has_id(&self, id: &u64) -> (owned: bool)
        ensures
            owned == self.holds(*id),
    {
        match self {
            Block::Gap(_) => false,
            Block::Full(owner, _) => *owner == *id,
        }
    }
}

/// The space taken by the first `count` spans of `line`.
pub open spec fn span(line: Seq<Block>, count: int) -> int
    decreases count,
{
    if count <= 0 {
        0
    } else {
        span(line, count - 1) + line[count - 1].extent()
    }
}

/// The index of the first span at or after `from` that `id` owns; the length of `line` if
/// there is none.
pub open spec fn first_holder(line: Seq<Block>, id: u64, from: int) -> int
    decreases line.len() - from,
{
    if from >= line.len() {
        line.len() as int
    } else if from >= 0 && line[from].holds(id) {
        from
    } else {
        first_holder(line, id, from + 1)
    }
}

/// The index of the first gap at or after `from` with room for `size`; the length of `line`
/// if there is none.
pub open spec fn first_fit(line: Seq<Block>, size: u16, from: int) -> int
    decreases line.len() - from,
{
    if from >= line.len() {
        line.len() as int
    } else if from >= 0 && line[from].fits(size) {
        from
    } else {
        first_fit(line, size, from + 1)
    }
}

/// The index of the first span at or after `from` that equals `wanted`; the length of `line`
/// if there is none.
pub open spec fn first_equal(line: Seq<Block>, wanted: Block, from: int) -> int
    decreases line.len() - from,
{
    if from >= line.len() {
        line.len() as int
    } else if from >= 0 && line[from] == wanted {
        from
    } else {
        first_equal(line, wanted, from + 1)
    }
}

/// `line` with `next` put behind it: a gap that follows a gap is added to it.
pub open spec fn coalesce(line: Seq<Block>, next: Block) -> Seq<Block> {
    match next {
        Block::Full(_, _) => line.push(next),
        Block::Gap(size) => if line.len() > 0 && line.last() is Gap {
            line.drop_last().push(Block::Gap((line.last().extent() + size) as u16))
        } else {
            line.push(next)
        },
    }
}

/// `line` with every run of neighbouring gaps replaced by one gap of their total size.
pub open spec fn merged(line: Seq<Block>) -> Seq<Block>
    decreases line.len(),
{
    if line.len() == 0 {
        line
    } else {
        coalesce(merged(line.drop_last()), line.last())
    }
}

/// The spans at `at` and behind it are both gaps.
pub open spec fn gap_pair(line: Seq<Block>, at: int) -> bool {
    line[at] is Gap && line[at + 1] is Gap
}

/// No two neighbouring spans of `line` are gaps.
pub open spec fn compact(line: Seq<Block>) -> bool {
    forall|i: int| 0 <= i && i + 1 < line.len() ==> !#[trigger] gap_pair(line, i)
}

/// How many of the first `count` spans of `line` are owned by `id`.
pub open spec fn owned(line: Seq<Block>, id: u64, count: int) -> int
    decreases count,
{
    if count <= 0 {
        0
    } else {
        owned(line, id, count - 1) + if line[count - 1].holds(id) {
            1int
        } else {
            0int
        }
    }
}

/// No id owns more than one span of `line`.
pub open spec fn unique_ids(line: Seq<Block>) -> bool {
    forall|id: u64| #[trigger] owned(line, id, line.len() as int) <= 1
}

/// What inserting `id` with `size` makes of `line`, and the offset it reports.
///
/// An id that is present keeps its place. Otherwise the first gap with room takes it, and
/// what is left of the gap stays behind it as a smaller gap. With no such gap it goes to the
/// end. Where the entry limit or the capacity would be passed, the line stays as it is.
pub open spec fn inserted(line: Seq<Block>, full_size: u16, id: u64, size: u16) -> (
    Seq<Block>,
    Option<u16>,
) {
    let held = first_holder(line, id, 0);
    let gap = first_fit(line, size, 0);
    if held < line.len() {
        (line, Some(span(line, held) as u16))
    } else if gap < line.len() {
        if line[gap].extent() == size {
            (line.update(gap, Block::Full(id, size)), Some(span(line, gap) as u16))
        } else if line.len() < MAX_BLOCKS {
            (
                line.update(gap, Block::Full(id, size)).insert(
                    gap + 1,
                    Block::Gap((line[gap].extent() - size) as u16),
                ),
                Some(span(line, gap) as u16),
            )
        } else {
            (line, None)
        }
    } else if line.len() < MAX_BLOCKS && span(line, line.len() as int) + size <= full_size {
        (line.push(Block::Full(id, size)), Some(span(line, line.len() as int) as u16))
    } else {
        (line, None)
    }
}

/// The space that the first span of `id` takes.
pub open spec fn room_of(line: Seq<Block>, id: u64) -> int {
    line[first_holder(line, id, 0)].extent()
}

/// What removing `id` makes of `line`: its first span becomes a gap, and gaps are merged.
pub open spec fn removed(line: Seq<Block>, id: u64) -> Seq<Block> {
    let held = first_holder(line, id, 0);
    if held < line.len() {
        merged(line.update(held, Block::Gap(line[held].extent() as u16)))
    } else {
        line
    }
}


/// The space before a span does not depend on the spans behind it.
proof fn lemma_span_agrees(a: Seq<Block>, b: Seq<Block>, count: int)
    requires
        0 <= count <= a.len(),
        count <= b.len(),
        forall|i: int| 0 <= i < count ==> a[i] == b[i],
    ensures
        span(a, count) == span(b, count),
    decreases count,
{
    if count > 0 {
        lemma_span_agrees(a, b, count - 1);
    }
}

/// The space before a span grows along the line and never is negative.
proof fn lemma_span_grows(line: Seq<Block>, low: int, high: int)
    requires
        0 <= low <= high <= line.len(),
    ensures
        0 <= span(line, low) <= span(line, high),
        low < high ==> span(line, low) + line[low].extent() <= span(line, high),
    decreases high,
{
    if high > 0 {
        if low < high {
            lemma_span_grows(line, low, high - 1);
        } else {
            lemma_span_grows(line, low - 1, high - 1);
        }
    }
}

/// Replacing one span changes the space taken from there on by the difference in size.
proof fn lemma_span_update(line: Seq<Block>, at: int, with: Block, count: int)
    requires
        0 <= at < line.len(),
        0 <= count <= line.len(),
    ensures
        span(line.update(at, with), count) == if at < count {
            span(line, count) + with.extent() - line[at].extent()
        } else {
            span(line, count)
        },
    decreases count,
{
    if count > 0 {
        lemma_span_update(line, at, with, count - 1);
    }
}

/// A span put into the line adds its size to the space taken from there on.
proof fn lemma_span_insert(line: Seq<Block>, at: int, new: Block, count: int)
    requires
        0 <= at <= line.len(),
        0 <= count <= line.len() + 1,
    ensures
        span(line.insert(at, new), count) == if at < count {
            span(line, count - 1) + new.extent()
        } else {
            span(line, count)
        },
    decreases count,
{
    if count > 0 {
        lemma_span_insert(line, at, new, count - 1);
    }
}

/// What `first_holder` finds is the first span that `id` owns.
proof fn lemma_first_holder(line: Seq<Block>, id: u64, from: int)
    requires
        0 <= from <= line.len(),
    ensures
        from <= first_holder(line, id, from) <= line.len(),
        first_holder(line, id, from) < line.len() ==> line[first_holder(line, id, from)].holds(id),
        forall|i: int| from <= i < first_holder(line, id, from) ==> !(#[trigger] line[i]).holds(id),
    decreases line.len() - from,
{
    if from < line.len() && !line[from].holds(id) {
        lemma_first_holder(line, id, from + 1);
    }
}

/// What `first_fit` finds is the first gap with room.
proof fn lemma_first_fit(line: Seq<Block>, size: u16, from: int)
    requires
        0 <= from <= line.len(),
    ensures
        from <= first_fit(line, size, from) <= line.len(),
        first_fit(line, size, from) < line.len() ==> line[first_fit(line, size, from)].fits(size),
        forall|i: int| from <= i < first_fit(line, size, from) ==> !(#[trigger] line[i]).fits(size),
    decreases line.len() - from,
{
    if from < line.len() && !line[from].fits(size) {
        lemma_first_fit(line, size, from + 1);
    }
}

/// A span that `id` owns at `at`, with none before it, is what `first_holder` finds.
proof fn lemma_first_holder_is(line: Seq<Block>, id: u64, from: int, at: int)
    requires
        0 <= from <= at <= line.len(),
        at < line.len() ==> line[at].holds(id),
        forall|i: int| from <= i < at ==> !(#[trigger] line[i]).holds(id),
    ensures
        first_holder(line, id, from) == at,
    decreases at - from,
{
    if from < at {
        lemma_first_holder_is(line, id, from + 1, at);
    }
}

/// Merging keeps the space taken, never adds an entry, and leaves no two gaps side by side.
pub proof fn lemma_merged(line: Seq<Block>)
    requires
        span(line, line.len() as int) <= u16::MAX,
    ensures
        merged(line).len() <= line.len(),
        span(merged(line), merged(line).len() as int) == span(line, line.len() as int),
        compact(merged(line)),
        line.len() > 0 ==> merged(line).len() > 0 && (merged(line).last() is Gap <==> line.last() is Gap),
    decreases line.len(),
{
    if line.len() > 0 {
        let front = line.drop_last();
        let last = line.last();
        let done = merged(front);
        lemma_span_agrees(line, front, front.len() as int);
        lemma_span_grows(line, 0, front.len() as int);
        lemma_merged(front);
        let out = coalesce(done, last);
        assert(merged(line) == out);
        if last is Gap && done.len() > 0 && done.last() is Gap {
            let sum = Block::Gap((done.last().extent() + last.extent()) as u16);
            lemma_span_grows(done, done.len() - 1, done.len() as int);
            lemma_span_grows(done, 0, done.len() - 1);
            assert(out == done.drop_last().push(sum));
            assert(out == done.update(done.len() - 1, sum));
            lemma_span_update(done, done.len() - 1, sum, done.len() as int);
            assert forall|i: int| 0 <= i && i + 1 < out.len() implies !#[trigger] gap_pair(out, i) by {
                assert(out[i] == done[i]);
                assert(out[i + 1] is Gap == done[i + 1] is Gap);
                assert(!gap_pair(done, i));
            }
        } else {
            assert(out == done.push(last));
            lemma_span_agrees(out, done, done.len() as int);
            assert forall|i: int| 0 <= i && i + 1 < out.len() implies !#[trigger] gap_pair(out, i) by {
                assert(out[i] == done[i]);
                if i + 1 < done.len() {
                    assert(out[i + 1] == done[i + 1]);
                    assert(!gap_pair(done, i));
                }
            }
        }
    }
}

/// Merging changes nothing where no two gaps lie side by side.
pub proof fn lemma_merged_of_compact(line: Seq<Block>)
    requires
        compact(line),
    ensures
        merged(line) == line,
    decreases line.len(),
{
    if line.len() > 0 {
        let front = line.drop_last();
        assert forall|i: int| 0 <= i && i + 1 < front.len() implies !#[trigger] gap_pair(front, i) by {
            assert(front[i] == line[i]);
            assert(front[i + 1] == line[i + 1]);
            assert(!gap_pair(line, i));
        }
        lemma_merged_of_compact(front);
        if front.len() > 0 {
            assert(front.last() == line[line.len() - 2]);
            assert(!gap_pair(line, line.len() - 2));
        }
        assert(front.push(line.last()) =~= line);
    } else {
        assert(merged(line) =~= line);
    }
}

/// Merging twice is merging once.
pub proof fn lemma_merged_idempotent(line: Seq<Block>)
    requires
        span(line, line.len() as int) <= u16::MAX,
    ensures
        merged(merged(line)) == merged(line),
{
    lemma_merged(line);
    lemma_merged_of_compact(merged(line));
}

/// `arrayvec::ArrayVec`: a vector of at most `CAP` elements that lies in place. Nothing inside
/// it is visible here: what it holds is told by [`held`].
#[verifier::external_type_specification]
#[verifier::external_body]
#[verifier::reject_recursive_types(T)]
pub struct ExArrayVec<T, const CAP: usize>(ArrayVec<T, CAP>);

/// The spans that an `ArrayVec` holds, first to last.
pub uninterp spec fn held(entries: ArrayVec<Block, MAX_BLOCKS>) -> Seq<Block>;

/// `ArrayVec::new`: a vector that holds nothing.
#[verifier::external_body]
fn entries_new() -> (entries: ArrayVec<Block, MAX_BLOCKS>)
    ensures
        held(entries) == Seq::<Block>::empty(),
{
    ArrayVec::new()
}

/// `ArrayVec::len`: how many elements the vector holds.
#[verifier::external_body]
fn entries_len(entries: &ArrayVec<Block, MAX_BLOCKS>) -> (len: usize)
    ensures
        len == held(*entries).len(),
{
    entries.len()
}

/// Indexing an `ArrayVec` through its slice: the element at `index`. An index at or past the
/// length panics, so it is left out.
#[verifier::external_body]
fn entries_get(entries: &ArrayVec<Block, MAX_BLOCKS>, index: usize) -> (block: Block)
    requires
        index < held(*entries).len(),
    ensures
        block == held(*entries)[index as int],
{
    entries[index]
}

/// Assigning through an `ArrayVec`'s mutable slice: the element at `index` is replaced, the
/// others stay. An index at or past the length panics, so it is left out.
#[verifier::external_body]
fn entries_set(entries: &mut ArrayVec<Block, MAX_BLOCKS>, index: usize, block: Block)
    requires
        index < held(*old(entries)).len(),
    ensures
        held(*final(entries)) == held(*old(entries)).update(index as int, block),
{
    entries[index] = block;
}

/// `ArrayVec::try_push`: below capacity the element goes to the end and the call succeeds; at
/// capacity the vector stays as it is and the call fails.
#[verifier::external_body]
fn entries_try_push(entries: &mut ArrayVec<Block, MAX_BLOCKS>, block: Block) -> (pushed: bool)
    ensures
        pushed == (held(*old(entries)).len() < MAX_BLOCKS),
        held(*final(entries)) == if pushed {
            held(*old(entries)).push(block)
        } else {
            held(*old(entries))
        },
{
    entries.try_push(block).is_ok()
}

/// `ArrayVec::try_insert`: below capacity the element goes to `index`, what was there and
/// behind it moves up by one, and the call succeeds; at capacity the vector stays as it is and
/// the call fails. An index past the length panics, so it is left out.
#[verifier::external_body]
fn entries_try_insert(entries: &mut ArrayVec<Block, MAX_BLOCKS>, index: usize, block: Block) -> (inserted: bool)
    requires
        index <= held(*old(entries)).len(),
    ensures
        inserted == (held(*old(entries)).len() < MAX_BLOCKS),
        held(*final(entries)) == if inserted {
            held(*old(entries)).insert(index as int, block)
        } else {
            held(*old(entries))
        },
{
    entries.try_insert(index, block).is_ok()
}

/// `ArrayVec::truncate`: the first `len` elements stay; a `len` at or past the length changes
/// nothing.
#[verifier::external_body]
fn entries_truncate(entries: &mut ArrayVec<Block, MAX_BLOCKS>, len: usize)
    ensures
        held(*final(entries)) == if len < held(*old(entries)).len() {
            held(*old(entries)).take(len as int)
        } else {
            held(*old(entries))
        },
{
    entries.truncate(len);
}

/// A first-fit allocator of spans on a line of fixed length.
///
/// Every span has an id. Inserting an id that is present gives back where it lies. What is
/// removed leaves a gap, and gaps that touch are merged.
pub struct Blocks {
    blocks: ArrayVec<Block, MAX_BLOCKS>,
    /// The length of the line.
    full_size: u16,
}

impl View for Blocks {
    type V = Seq<Block>;

    /// The spans, in the order in which they lie on the line.
    closed spec fn view(&self) -> Seq<Block> {
        held(self.blocks)
    }
}

impl Blocks {
    /// The length of the line.
    pub closed spec fn capacity(&self) -> u16 {
        self.full_size
    }

    /// The spans fit the line, and the entries fit the table.
    pub open spec fn is_bounded(&self) -> bool {
        &&& self@.len() <= MAX_BLOCKS
        &&& span(self@, self@.len() as int) <= self.capacity()
    }

    /// The allocator is bounded and no two gaps lie side by side.
    pub open spec fn wf(&self) -> bool {
        &&& self.is_bounded()
        &&& compact(self@)
    }

    /// An allocator without spans over a line of length `full_size`.
    pub fn new(full_size: u16) -> (blocks: Self)
        ensures
            blocks@ == Seq::<Block>::empty(),
            blocks.capacity() == full_size,
            blocks.wf(),
    {
        Blocks { blocks: entries_new(), full_size }
    }

    /// The length of the line.
    pub fn full_size(&self) -> (size: u16)
        ensures
            size == self.capacity(),
    {
        self.full_size
    }

    /// How many entries, spans and gaps, the allocator holds.
    pub fn len(&self) -> (len: usize)
        ensures
            len == self@.len(),
    {
        entries_len(&self.blocks)
    }

    /// The entry at `index`, or `None` past the last.
    pub fn get(&self, index: usize) -> (block: Option<Block>)
        ensures
            block == if index < self@.len() {
                Some(self@[index as int])
            } else {
                None
            },
    {
        if index < entries_len(&self.blocks) {
            Some(entries_get(&self.blocks, index))
        } else {
            None
        }
    }

    /// The first gap with room for `size`: its index and the offset at which it lies.
    pub fn first_gap_of_size(&self, size: u16) -> (found: Option<(usize, u16)>)
        requires
            self.is_bounded(),
        ensures
            match found {
                Some((index, offset)) => index == first_fit(self@, size, 0) && index < self@.len()
                    && offset == span(self@, index as int),
                None => first_fit(self@, size, 0) == self@.len(),
            },
    {
        let len = entries_len(&self.blocks);
        let mut index: usize = 0;
        let mut offset: u16 = 0;
        while index < len
            invariant
                len == self@.len(),
                index <= len,
                self.is_bounded(),
                offset == span(self@, index as int),
                first_fit(self@, size, 0) == first_fit(self@, size, index as int),
            decreases len - index,
        {
            let block = entries_get(&self.blocks, index);
            match block {
                Block::Gap(room) => {
                    if room >= size {
                        return Some((index, offset));
                    }
                },
                Block::Full(_, _) => {},
            }
            proof {
                lemma_span_grows(self@, index as int + 1, len as int);
            }
            offset = offset + block.size();
            index = index + 1;
        }
        None
    }

    /// The offset at which the first span of `id` lies, or `None` if `id` owns none.
    pub fn offset_of(&self, id: u64) -> (offset: Option<u16>)
        requires
            self.is_bounded(),
        ensures
            offset == if first_holder(self@, id, 0) < self@.len() {
                Some(span(self@, first_holder(self@, id, 0)) as u16)
            } else {
                None
            },
            offset is Some ==> offset->0 == span(self@, first_holder(self@, id, 0)),
    {
        let len = entries_len(&self.blocks);
        let mut index: usize = 0;
        let mut offset: u16 = 0;
        while index < len
            invariant
                len == self@.len(),
                index <= len,
                self.is_bounded(),
                offset == span(self@, index as int),
                first_holder(self@, id, 0) == first_holder(self@, id, index as int),
            decreases len - index,
        {
            let block = entries_get(&self.blocks, index);
            if block.has_id(&id) {
                return Some(offset);
            }
            proof {
                lemma_span_grows(self@, index as int + 1, len as int);
            }
            offset = offset + block.size();
            index = index + 1;
        }
        None
    }

    /// Puts `id` with `size` into the first gap with room, or behind the last entry, and gives
    /// the index of its entry. `None`, with nothing changed, where that would take one entry
    /// more than the table holds or more space than the line has.
    pub fn replace_gap(&mut self, id: u64, size: u16) -> (index: Option<usize>)
        requires
            old(self).wf(),
            first_holder(old(self)@, id, 0) == old(self)@.len(),
        ensures
            final(self)@ == inserted(old(self)@, old(self).capacity(), id, size).0,
            final(self).capacity() == old(self).capacity(),
            final(self).wf(),
            index is Some <==> inserted(old(self)@, old(self).capacity(), id, size).1 is Some,
            index matches Some(at) ==> at < final(self)@.len() && final(self)@[at as int]
                == Block::Full(id, size) && span(final(self)@, at as int) == inserted(
                old(self)@,
                old(self).capacity(),
                id,
                size,
            ).1->0,
    {
        let to_insert = Block::Full(id, size);
        let len = entries_len(&self.blocks);
        let ghost line = self@;
        proof {
            lemma_first_fit(line, size, 0);
        }
        match self.first_gap_of_size(size) {
            Some((index, offset)) => {
                let room = entries_get(&self.blocks, index).size();
                proof {
                    lemma_span_update(line, index as int, to_insert, len as int);
                    lemma_span_update(line, index as int, to_insert, index as int);
                }
                if room > size {
                    if len >= MAX_BLOCKS {
                        return None;
                    }
                    entries_set(&mut self.blocks, index, to_insert);
                    let rest = Block::Gap(room - size);
                    let fits = entries_try_insert(&mut self.blocks, index + 1, rest);
                    proof {
                        let filled = line.update(index as int, to_insert);
                        let split = filled.insert(index as int + 1, rest);
                        assert(self@ == split);
                        lemma_span_insert(filled, index as int + 1, rest, len as int + 1);
                        lemma_span_insert(filled, index as int + 1, rest, index as int);
                        assert forall|i: int| 0 <= i && i + 1 < split.len() implies !#[trigger] gap_pair(split, i) by {
                            if i < index {
                                assert(split[i] == line[i]);
                                if i + 1 < index {
                                    assert(split[i + 1] == line[i + 1]);
                                    assert(!gap_pair(line, i));
                                }
                            } else if i > index + 1 {
                                assert(split[i] == line[i - 1]);
                                assert(split[i + 1] == line[i]);
                                assert(!gap_pair(line, i - 1));
                            } else if i == index + 1 {
                                assert(split[i + 1] == line[i]);
                                assert(line[i - 1] is Gap);
                                assert(!gap_pair(line, i - 1));
                            }
                        }
                        lemma_merged_of_compact(split);
                    }
                    self.cleanup();
                    Some(index)
                } else {
                    entries_set(&mut self.blocks, index, to_insert);
                    proof {
                        let filled = line.update(index as int, to_insert);
                        assert forall|i: int| 0 <= i && i + 1 < filled.len() implies !#[trigger] gap_pair(filled, i) by {
                            if i != index && i + 1 != index {
                                assert(filled[i] == line[i]);
                                assert(filled[i + 1] == line[i + 1]);
                                assert(!gap_pair(line, i));
                            }
                        }
                    }
                    Some(index)
                }
            },
            None => {
                let end = self.extent();
                if len >= MAX_BLOCKS || size > self.full_size - end {
                    return None;
                }
                let pushed = entries_try_push(&mut self.blocks, to_insert);
                proof {
                    let longer = line.push(to_insert);
                    lemma_span_agrees(longer, line, len as int);
                    assert forall|i: int| 0 <= i && i + 1 < longer.len() implies !#[trigger] gap_pair(longer, i) by {
                        assert(longer[i] == line[i]);
                        if i + 1 < len {
                            assert(longer[i + 1] == line[i + 1]);
                            assert(!gap_pair(line, i));
                        }
                    }
                }
                Some(len)
            },
        }
    }

    /// The space that all entries take together.
    pub fn extent(&self) -> (total: u16)
        requires
            self.is_bounded(),
        ensures
            total == span(self@, self@.len() as int),
    {
        let len = entries_len(&self.blocks);
        let mut index: usize = 0;
        let mut total: u16 = 0;
        while index < len
            invariant
                len == self@.len(),
                index <= len,
                self.is_bounded(),
                total == span(self@, index as int),
            decreases len - index,
        {
            proof {
                lemma_span_grows(self@, index as int + 1, len as int);
            }
            total = total + entries_get(&self.blocks, index).size();
            index = index + 1;
        }
        total
    }

    /// Gives `id` a span of `size` and tells the offset at which it lies.
    ///
    /// An id that owns a span keeps it: the call tells where it lies and changes nothing.
    /// Otherwise the span goes into the first gap with room, or behind the last entry.
    /// `None`, with nothing changed, if there is no room or no entry left.
    pub fn insert_sized(&mut self, id: u64, size: u16) -> (offset: Option<u16>)
        requires
            old(self).wf(),
        ensures
            (final(self)@, offset) == inserted(old(self)@, old(self).capacity(), id, size),
            final(self).capacity() == old(self).capacity(),
            final(self).wf(),
            offset matches Some(at) ==> first_holder(final(self)@, id, 0) < final(self)@.len()
                && at == span(final(self)@, first_holder(final(self)@, id, 0)) && at + room_of(
                final(self)@,
                id,
            ) <= final(self).capacity(),
            unique_ids(old(self)@) ==> unique_ids(final(self)@),
    {
        let ghost line = self@;
        proof {
            lemma_first_holder(line, id, 0);
            lemma_first_fit(line, size, 0);
            if unique_ids(line) {
                lemma_inserted_keeps_ids_unique(line, self.full_size, id, size);
            }
        }
        let already_existing = self.offset_of(id);
        if already_existing.is_some() {
            proof {
                lemma_inserted_places(line, self.full_size, id, size);
            }
            return already_existing;
        }
        let insert_index = match self.replace_gap(id, size) {
            Some(index) => index,
            None => {
                return None;
            },
        };
        proof {
            lemma_inserted_places(line, self.full_size, id, size);
        }
        let mut index: usize = 0;
        let mut offset: u16 = 0;
        while index < insert_index
            invariant
                index <= insert_index < self@.len(),
                self.is_bounded(),
                offset == span(self@, index as int),
            decreases insert_index - index,
        {
            proof {
                lemma_span_grows(self@, index as int + 1, self@.len() as int);
            }
            offset = offset + entries_get(&self.blocks, index).size();
            index = index + 1;
        }
        Some(offset)
    }

    /// Frees the first span of `id` and tells whether there was one. The gap it leaves is
    /// merged with the gaps beside it.
    pub fn remove(&mut self, id: u64) -> (found: bool)
        requires
            old(self).wf(),
        ensures
            found == (first_holder(old(self)@, id, 0) < old(self)@.len()),
            final(self)@ == removed(old(self)@, id),
            final(self).capacity() == old(self).capacity(),
            final(self).wf(),
            unique_ids(old(self)@) ==> unique_ids(final(self)@),
    {
        let len = entries_len(&self.blocks);
        let ghost line = self@;
        proof {
            if unique_ids(line) {
                lemma_removed_keeps_ids_unique(line, id);
            }
        }
        let mut index: usize = 0;
        while index < len
            invariant
                len == self@.len(),
                index <= len,
                self@ == line,
                line == old(self)@,
                self.wf(),
                self.capacity() == old(self).capacity(),
                first_holder(line, id, 0) == first_holder(line, id, index as int),
                unique_ids(line) ==> unique_ids(removed(line, id)),
            decreases len - index,
        {
            let block = entries_get(&self.blocks, index);
            if block.has_id(&id) {
                assert(first_holder(line, id, index as int) == index);
                let gap = Block::Gap(block.size());
                entries_set(&mut self.blocks, index, gap);
                proof {
                    lemma_span_update(line, index as int, gap, len as int);
                }
                self.cleanup();
                return true;
            }
            index = index + 1;
        }
        false
    }

    /// Hands the first span that `old_id` owns with exactly `size` to `new_id`, where it lies,
    /// and tells its offset. `None`, with nothing changed, if there is no such span.
    pub fn replace_id(&mut self, old_id: u64, new_id: u64, size: u16) -> (offset: Option<u16>)
        requires
            old(self).wf(),
        ensures
            final(self).capacity() == old(self).capacity(),
            final(self).wf(),
            match offset {
                Some(at) => {
                    let index = first_equal(old(self)@, Block::Full(old_id, size), 0);
                    &&& index < old(self)@.len()
                    &&& at == span(old(self)@, index)
                    &&& at + size <= old(self).capacity()
                    &&& final(self)@ == old(self)@.update(index, Block::Full(new_id, size))
                },
                None => {
                    &&& first_equal(old(self)@, Block::Full(old_id, size), 0) == old(self)@.len()
                    &&& final(self)@ == old(self)@
                },
            },
            unique_ids(old(self)@) && (new_id == old_id || first_holder(old(self)@, new_id, 0)
                == old(self)@.len()) ==> unique_ids(final(self)@),
    {
        let expected = Block::Full(old_id, size);
        let len = entries_len(&self.blocks);
        let ghost line = self@;
        proof {
            if unique_ids(line) && (new_id == old_id || first_holder(line, new_id, 0) == line.len())
                && first_equal(line, expected, 0) < line.len() {
                lemma_replaced_keeps_ids_unique(line, old_id, new_id, size);
            }
        }
        let mut index: usize = 0;
        let mut offset: u16 = 0;
        while index < len
            invariant
                len == self@.len(),
                index <= len,
                self@ == line,
                line == old(self)@,
                self.wf(),
                self.capacity() == old(self).capacity(),
                expected == Block::Full(old_id, size),
                unique_ids(line) && (new_id == old_id || first_holder(line, new_id, 0)
                    == line.len()) && first_equal(line, expected, 0) < line.len() ==> unique_ids(
                    line.update(first_equal(line, expected, 0), Block::Full(new_id, size)),
                ),
                offset == span(line, index as int),
                first_equal(line, expected, 0) == first_equal(line, expected, index as int),
            decreases len - index,
        {
            let block = entries_get(&self.blocks, index);
            if block == expected {
                assert(first_equal(line, expected, index as int) == index);
                let renamed = Block::Full(new_id, size);
                entries_set(&mut self.blocks, index, renamed);
                proof {
                    let after = line.update(index as int, renamed);
                    lemma_span_update(line, index as int, renamed, len as int);
                    lemma_span_grows(line, index as int, len as int);

                    assert forall|i: int| 0 <= i && i + 1 < after.len() implies !#[trigger] gap_pair(after, i) by {
                        if i != index && i + 1 != index {
                            assert(after[i] == line[i]);
                            assert(after[i + 1] == line[i + 1]);
                            assert(!gap_pair(line, i));
                        }
                    }
                }
                return Some(offset);
            }
            proof {
                lemma_span_grows(line, index as int + 1, len as int);
            }
            offset = offset + block.size();
            index = index + 1;
        }
        None
    }

    /// Merges every run of gaps that lie side by side into one gap of their total size.
    pub fn cleanup(&mut self)
        requires
            old(self).is_bounded(),
        ensures
            final(self)@ == merged(old(self)@),
            final(self).capacity() == old(self).capacity(),
            final(self).wf(),
            unique_ids(old(self)@) ==> unique_ids(final(self)@),
    {
        let len = entries_len(&self.blocks);
        let ghost line = self@;
        proof {
            if unique_ids(line) {
                lemma_merged_keeps_ids_unique(line);
            }
        }
        // From the right: every gap takes the size of the gaps from it to the next span.
        let mut cur_gap: u16 = 0;
        let mut index: usize = len;
        while index > 0
            invariant
                len == line.len(),
                self@.len() == len,
                index <= len,
                line == old(self)@,
                self.capacity() == old(self).capacity(),
                span(line, len as int) <= self.capacity(),
                cur_gap == gap_run(line, index as int),
                forall|i: int| 0 <= i < index ==> self@[i] == line[i],
                forall|i: int| index <= i < len ==> self@[i] == summed(line, i),
            decreases index,
        {
            index = index - 1;
            let block = entries_get(&self.blocks, index);
            proof {
                lemma_gap_run(line, index as int);
                lemma_gap_run(line, index as int + 1);
                lemma_span_grows(line, index as int, len as int);
                lemma_span_grows(line, index as int + 1, len as int);
            }
            match block {
                Block::Full(_, _) => {
                    cur_gap = 0;
                },
                Block::Gap(size) => {
                    cur_gap = cur_gap + size;
                    entries_set(&mut self.blocks, index, Block::Gap(cur_gap));
                },
            }
        }
        // From the left: of the gaps that lie side by side, all but the first go.
        let mut previous_was_gap = false;
        let mut read: usize = 0;
        let mut write: usize = 0;
        proof {
            assert(line.take(0) =~= Seq::<Block>::empty());
            assert(self@.take(0) =~= Seq::<Block>::empty());
        }
        while read < len
            invariant
                len == line.len(),
                self@.len() == len,
                write <= read <= len,
                line == old(self)@,
                self.capacity() == old(self).capacity(),
                span(line, len as int) <= self.capacity(),
                previous_was_gap == (read > 0 && line[read - 1] is Gap),
                forall|i: int| read <= i < len ==> self@[i] == summed(line, i),
                self@.take(write as int) == merged(line.take(reach(line, read as int))),
            decreases len - read,
        {
            let block = entries_get(&self.blocks, read);
            let current_is_gap = match block {
                Block::Gap(_) => true,
                Block::Full(_, _) => false,
            };
            let should_remove = previous_was_gap && current_is_gap;
            let ghost before = self@;
            proof {
                assert(block == summed(line, read as int));
                assert(current_is_gap == (line[read as int] is Gap));
                lemma_run_end(line, read as int);
                lemma_run_end(line, read as int + 1);
                if current_is_gap && !previous_was_gap {
                    lemma_run_merged(line, read as int, run_end(line, read as int));
                } else if !current_is_gap {
                    let next = line.take(read as int + 1);
                    assert(next.drop_last() == line.take(read as int));
                    assert(next.last() == line[read as int]);
                }
            }
            if !should_remove {
                entries_set(&mut self.blocks, write, block);
                proof {
                    assert(self@.take(write as int + 1) == before.take(write as int).push(block));
                }
                write = write + 1;
            } else {
                proof {
                    assert(self@.take(write as int) == before.take(write as int));
                }
            }
            previous_was_gap = current_is_gap;
            read = read + 1;
        }
        proof {
            assert(line.take(len as int) == line);
            lemma_merged(line);
        }
        entries_truncate(&mut self.blocks, write);
        proof {
            assert(self@ == merged(line));
        }
    }
}

/// The total size of the gaps that lie side by side from `at` on: 0 where a span lies at
/// `at`.
pub open spec fn gap_run(line: Seq<Block>, at: int) -> int
    decreases line.len() - at,
{
    if at < 0 || at >= line.len() || line[at] is Full {
        0
    } else {
        line[at].extent() + gap_run(line, at + 1)
    }
}

/// The entry at `at` after every gap took the size of the gaps from it to the next span.
pub open spec fn summed(line: Seq<Block>, at: int) -> Block {
    if line[at] is Gap {
        Block::Gap(gap_run(line, at) as u16)
    } else {
        line[at]
    }
}

/// The index of the first span at or after `at`: where the gaps that lie side by side from
/// `at` on end.
pub open spec fn run_end(line: Seq<Block>, at: int) -> int
    decreases line.len() - at,
{
    if at < 0 || at >= line.len() || line[at] is Full {
        at
    } else {
        run_end(line, at + 1)
    }
}

/// How far the line is settled when the entries before `at` were gone through: a run of gaps
/// that has begun is settled to its end.
pub open spec fn reach(line: Seq<Block>, at: int) -> int {
    if 0 < at <= line.len() && line[at - 1] is Gap {
        run_end(line, at)
    } else {
        at
    }
}

/// A run of gaps takes no more space than the line has behind its start.
proof fn lemma_gap_run(line: Seq<Block>, at: int)
    requires
        0 <= at <= line.len(),
    ensures
        0 <= gap_run(line, at) <= span(line, line.len() as int) - span(line, at),
    decreases line.len() - at,
{
    lemma_span_grows(line, at, line.len() as int);
    if at < line.len() && line[at] is Gap {
        lemma_gap_run(line, at + 1);
    }
}

/// A run of gaps ends within the line, at a span or at the end, and holds gaps only.
proof fn lemma_run_end(line: Seq<Block>, at: int)
    requires
        0 <= at <= line.len(),
    ensures
        at <= run_end(line, at) <= line.len(),
        run_end(line, at) < line.len() ==> line[run_end(line, at)] is Full,
        forall|i: int| at <= i < run_end(line, at) ==> (#[trigger] line[i]) is Gap,
        gap_run(line, at) == span(line, run_end(line, at)) - span(line, at),
    decreases line.len() - at,
{
    if at < line.len() && line[at] is Gap {
        lemma_run_end(line, at + 1);
    }
}

/// Merging a line up to some place within a run of gaps gives what comes before the run, and
/// one gap of the size of the run so far.
proof fn lemma_run_merged(line: Seq<Block>, start: int, upto: int)
    requires
        0 <= start < upto <= line.len(),
        start == 0 || line[start - 1] is Full,
        forall|i: int| start <= i < upto ==> (#[trigger] line[i]) is Gap,
        span(line, line.len() as int) <= u16::MAX,
    ensures
        merged(line.take(upto)) == merged(line.take(start)).push(
            Block::Gap((span(line, upto) - span(line, start)) as u16),
        ),
    decreases upto - start,
{
    let front = line.take(upto - 1);
    let next = line.take(upto);
    let base = merged(line.take(start));
    assert(next.drop_last() == front);
    assert(next.last() == line[upto - 1]);
    assert(line[upto - 1] is Gap);
    lemma_span_grows(line, start, upto - 1);
    lemma_span_grows(line, upto, line.len() as int);
    lemma_span_grows(line, 0, start);
    if upto - 1 == start {
        lemma_span_agrees(line, front, start);
        lemma_merged(front);
        if start > 0 {
            assert(front.last() == line[start - 1]);
        }
    } else {
        lemma_run_merged(line, start, upto - 1);
        let so_far = Block::Gap((span(line, upto - 1) - span(line, start)) as u16);
        assert(merged(front) == base.push(so_far));
        assert(base.push(so_far).drop_last() == base);
    }
}

/// Where `inserted` reports an offset, the id owns the span at that offset, and the span ends
/// within the line.
pub proof fn lemma_inserted_places(line: Seq<Block>, full_size: u16, id: u64, size: u16)
    requires
        line.len() <= MAX_BLOCKS,
        span(line, line.len() as int) <= full_size,
    ensures
        ({
            let (after, offset) = inserted(line, full_size, id, size);
            &&& span(after, after.len() as int) <= full_size
            &&& after.len() <= MAX_BLOCKS
            &&& offset matches Some(at) ==> first_holder(after, id, 0) < after.len() && at == span(
                after,
                first_holder(after, id, 0),
            ) && at + room_of(after, id) <= full_size
        }),
{
    let (after, offset) = inserted(line, full_size, id, size);
    lemma_first_holder(after, id, 0);
    if first_holder(after, id, 0) < after.len() {
        lemma_span_grows(after, first_holder(after, id, 0), after.len() as int);
    }
    let held = first_holder(line, id, 0);
    let gap = first_fit(line, size, 0);
    let entry = Block::Full(id, size);
    lemma_first_holder(line, id, 0);
    lemma_first_fit(line, size, 0);
    if held < line.len() {
        lemma_span_grows(line, held, line.len() as int);
    } else if gap < line.len() {
        lemma_span_grows(line, gap, line.len() as int);
        let filled = line.update(gap, entry);
        lemma_span_update(line, gap, entry, line.len() as int);
        lemma_span_update(line, gap, entry, gap);
        if line[gap].extent() == size {
            lemma_first_holder_is(filled, id, 0, gap);
        } else if line.len() < MAX_BLOCKS {
            let rest = Block::Gap((line[gap].extent() - size) as u16);
            let split = filled.insert(gap + 1, rest);
            lemma_span_insert(filled, gap + 1, rest, line.len() as int + 1);
            lemma_span_insert(filled, gap + 1, rest, gap);
            lemma_first_holder_is(split, id, 0, gap);
        }
    } else if line.len() < MAX_BLOCKS && span(line, line.len() as int) + size <= full_size {
        let longer = line.push(entry);
        lemma_span_agrees(longer, line, line.len() as int);
        lemma_span_grows(line, 0, line.len() as int);
        lemma_first_holder_is(longer, id, 0, line.len() as int);
    }
}


/// Inserting the same id with the same size a second time gives the answer of the first time
/// and leaves the line as the first time left it.
pub proof fn lemma_insert_twice(line: Seq<Block>, full_size: u16, id: u64, size: u16)
    requires
        line.len() <= MAX_BLOCKS,
        span(line, line.len() as int) <= full_size,
    ensures
        ({
            let (once, first) = inserted(line, full_size, id, size);
            inserted(once, full_size, id, size) == (once, first)
        }),
{
    lemma_inserted_places(line, full_size, id, size);
}


/// What `first_equal` finds is the first span equal to `wanted`.
proof fn lemma_first_equal(line: Seq<Block>, wanted: Block, from: int)
    requires
        0 <= from <= line.len(),
    ensures
        from <= first_equal(line, wanted, from) <= line.len(),
        first_equal(line, wanted, from) < line.len() ==> line[first_equal(line, wanted, from)]
            == wanted,
    decreases line.len() - from,
{
    if from < line.len() && line[from] != wanted {
        lemma_first_equal(line, wanted, from + 1);
    }
}

/// What an id owns among the first spans does not depend on the spans behind them.
proof fn lemma_owned_agrees(a: Seq<Block>, b: Seq<Block>, id: u64, count: int)
    requires
        0 <= count <= a.len(),
        count <= b.len(),
        forall|i: int| 0 <= i < count ==> a[i] == b[i],
    ensures
        owned(a, id, count) == owned(b, id, count),
    decreases count,
{
    if count > 0 {
        lemma_owned_agrees(a, b, id, count - 1);
    }
}

/// An id owns no span exactly when `first_holder` finds none, and never fewer than none.
proof fn lemma_owned_none(line: Seq<Block>, id: u64, count: int)
    requires
        0 <= count <= line.len(),
    ensures
        0 <= owned(line, id, count),
        (owned(line, id, count) == 0) == (forall|i: int| 0 <= i < count ==> !(#[trigger] line[i]).holds(
            id,
        )),
    decreases count,
{
    if count > 0 {
        lemma_owned_none(line, id, count - 1);
        if owned(line, id, count) == 0 {
            assert forall|i: int| 0 <= i < count implies !(#[trigger] line[i]).holds(id) by {
                if i < count - 1 {
                    assert(!line[i].holds(id));
                }
            }
        }
    }
}

/// Replacing one span changes what an id owns by what the two spans differ in.
proof fn lemma_owned_update(line: Seq<Block>, at: int, with: Block, id: u64, count: int)
    requires
        0 <= at < line.len(),
        0 <= count <= line.len(),
    ensures
        owned(line.update(at, with), id, count) == if at < count {
            owned(line, id, count) + (if with.holds(id) {
                1int
            } else {
                0int
            }) - (if line[at].holds(id) {
                1int
            } else {
                0int
            })
        } else {
            owned(line, id, count)
        },
    decreases count,
{
    if count > 0 {
        lemma_owned_update(line, at, with, id, count - 1);
    }
}

/// A span put into the line adds to what an id owns if the id owns it.
proof fn lemma_owned_insert(line: Seq<Block>, at: int, new: Block, id: u64, count: int)
    requires
        0 <= at <= line.len(),
        0 <= count <= line.len() + 1,
    ensures
        owned(line.insert(at, new), id, count) == if at < count {
            owned(line, id, count - 1) + if new.holds(id) {
                1int
            } else {
                0int
            }
        } else {
            owned(line, id, count)
        },
    decreases count,
{
    if count > 0 {
        lemma_owned_insert(line, at, new, id, count - 1);
    }
}

/// Merging gaps changes nothing in what an id owns.
pub proof fn lemma_merged_keeps_ids(line: Seq<Block>, id: u64)
    ensures
        owned(merged(line), id, merged(line).len() as int) == owned(line, id, line.len() as int),
    decreases line.len(),
{
    if line.len() > 0 {
        let front = line.drop_last();
        let last = line.last();
        let done = merged(front);
        let out = coalesce(done, last);
        lemma_merged_keeps_ids(front, id);
        lemma_owned_agrees(line, front, id, front.len() as int);
        if last is Gap && done.len() > 0 && done.last() is Gap {
            lemma_owned_agrees(out, done, id, done.len() - 1);
        } else {
            assert(out == done.push(last));
            lemma_owned_agrees(out, done, id, done.len() as int);
        }
    }
}

/// Where no id owns two spans, none does after gaps were merged.
pub proof fn lemma_merged_keeps_ids_unique(line: Seq<Block>)
    requires
        unique_ids(line),
    ensures
        unique_ids(merged(line)),
{
    assert forall|id: u64| #[trigger] owned(merged(line), id, merged(line).len() as int) <= 1 by {
        lemma_merged_keeps_ids(line, id);
        assert(owned(line, id, line.len() as int) <= 1);
    }
}

/// Where no id owns two spans, none does after an insertion.
pub proof fn lemma_inserted_keeps_ids_unique(
    line: Seq<Block>,
    full_size: u16,
    id: u64,
    size: u16,
)
    requires
        unique_ids(line),
    ensures
        unique_ids(inserted(line, full_size, id, size).0),
{
    let after = inserted(line, full_size, id, size).0;
    let held = first_holder(line, id, 0);
    let gap = first_fit(line, size, 0);
    let entry = Block::Full(id, size);
    lemma_first_holder(line, id, 0);
    lemma_first_fit(line, size, 0);
    assert forall|other: u64| #[trigger] owned(after, other, after.len() as int) <= 1 by {
        assert(owned(line, other, line.len() as int) <= 1);
        lemma_owned_none(line, id, line.len() as int);
        if held < line.len() {
        } else if gap < line.len() {
            let filled = line.update(gap, entry);
            lemma_owned_update(line, gap, entry, other, line.len() as int);
            if line[gap].extent() == size {
            } else if line.len() < MAX_BLOCKS {
                let rest = Block::Gap((line[gap].extent() - size) as u16);
                lemma_owned_insert(filled, gap + 1, rest, other, line.len() as int + 1);
            }
        } else if line.len() < MAX_BLOCKS && span(line, line.len() as int) + size <= full_size {
            let longer = line.push(entry);
            lemma_owned_agrees(longer, line, other, line.len() as int);
        }
    }
}

/// Where no id owns two spans, none does after a removal.
pub proof fn lemma_removed_keeps_ids_unique(line: Seq<Block>, id: u64)
    requires
        unique_ids(line),
    ensures
        unique_ids(removed(line, id)),
{
    let held = first_holder(line, id, 0);
    lemma_first_holder(line, id, 0);
    if held < line.len() {
        let gap = Block::Gap(line[held].extent() as u16);
        let freed = line.update(held, gap);
        assert forall|other: u64| #[trigger] owned(freed, other, freed.len() as int) <= 1 by {
            assert(owned(line, other, line.len() as int) <= 1);
            lemma_owned_update(line, held, gap, other, line.len() as int);
        }
        lemma_merged_keeps_ids_unique(freed);
    }
}

/// Where no id owns two spans, none does after a span was handed to an id that owns none, or
/// back to its owner.
pub proof fn lemma_replaced_keeps_ids_unique(
    line: Seq<Block>,
    old_id: u64,
    new_id: u64,
    size: u16,
)
    requires
        unique_ids(line),
        first_equal(line, Block::Full(old_id, size), 0) < line.len(),
        new_id == old_id || first_holder(line, new_id, 0) == line.len(),
    ensures
        unique_ids(
            line.update(first_equal(line, Block::Full(old_id, size), 0), Block::Full(new_id, size)),
        ),
{
    let at = first_equal(line, Block::Full(old_id, size), 0);
    let renamed = Block::Full(new_id, size);
    let after = line.update(at, renamed);
    lemma_first_equal(line, Block::Full(old_id, size), 0);
    lemma_first_holder(line, new_id, 0);
    assert forall|other: u64| #[trigger] owned(after, other, after.len() as int) <= 1 by {
        assert(owned(line, other, line.len() as int) <= 1);
        lemma_owned_update(line, at, renamed, other, line.len() as int);
        if new_id != old_id {
            lemma_owned_none(line, new_id, line.len() as int);
        }
    }
}

} // verus!
