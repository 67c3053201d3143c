//! Grouping the reader's highlights for painting: per block of a chapter,
//! and per chapter of the loaded range.
use vstd::prelude::*;
use std::collections::HashMap;

verus! {

broadcast use vstd::std_specs::hash::group_hash_axioms;

#[derive(Clone, Copy, Debug, PartialEq, Eq, Structural)]
pub enum HighlightColor {
    Yellow,
    Green,
    Blue,
    Pink,
}

/// A highlighted passage, as painting needs it: it starts in block
/// `start_block` of `chapter` at `start_offset` and ends at `end_offset`.
#[derive(Clone, Copy, Debug)]
pub struct Highlight {
    pub chapter: usize,
    pub start_block: usize,
    pub start_offset: usize,
    pub end_offset: usize,
    pub color: HighlightColor,
}

pub type Range = (usize, usize, HighlightColor);

pub open spec fn range_of(h: Highlight) -> Range {
    (h.start_offset, h.end_offset, h.color)
}

/// The ranges of the highlights of `chapter` that start in `block`, in the
/// order of `hs`.
pub open spec fn block_ranges(hs: Seq<Highlight>, chapter: usize, block: usize) -> Seq<Range>
    decreases hs.len(),
{
    if hs.len() == 0 {
        Seq::empty()
    } else {
        let prev = block_ranges(hs.drop_last(), chapter, block);
        if hs.last().chapter == chapter && hs.last().start_block == block {
            prev.push(range_of(hs.last()))
        } else {
            prev
        }
    }
}

/// Some highlight of `chapter` starts in `block`.
pub open spec fn has_block(hs: Seq<Highlight>, chapter: usize, block: usize) -> bool {
    exists|j: int| 0 <= j < hs.len() && hs[j].chapter == chapter && #[trigger] hs[j].start_block == block
}

/// Some highlight lies in `chapter`.
pub open spec fn has_chapter(hs: Seq<Highlight>, chapter: usize) -> bool {
    exists|j: int| 0 <= j < hs.len() && #[trigger] hs[j].chapter == chapter
}

/// `groups` maps each block of `chapter` where a highlight starts, and only
/// those, to the ranges of the highlights starting there.
pub open spec fn groups_blocks(hs: Seq<Highlight>, chapter: usize, groups: Map<usize, Vec<Range>>) -> bool {
    &&& forall|b: usize| groups.contains_key(b) <==> has_block(hs, chapter, b)
    &&& forall|b: usize| #[trigger] groups.contains_key(b) ==> groups[b]@ == block_ranges(hs, chapter, b)
}

/// `chapters` maps each chapter in `[start, end)` that has a highlight, and
/// only those, to its highlights grouped by block.
pub open spec fn chapters_grouped(
    hs: Seq<Highlight>,
    start: usize,
    end: usize,
    chapters: Map<usize, HashMap<usize, Vec<Range>>>,
) -> bool {
    &&& forall|c: usize| chapters.contains_key(c) <==> (start <= c < end && has_chapter(hs, c))
    &&& forall|c: usize| #[trigger] chapters.contains_key(c) ==> groups_blocks(hs, c, chapters[c]@)
}

proof fn lemma_block_ranges_empty(hs: Seq<Highlight>, chapter: usize, block: usize)
    requires
        !has_block(hs, chapter, block),
    ensures
        block_ranges(hs, chapter, block).len() == 0,
    decreases hs.len(),
{
    if hs.len() > 0 {
        let s = hs.drop_last();
        assert(!has_block(s, chapter, block)) by {
            if has_block(s, chapter, block) {
                let j = choose|j: int| 0 <= j < s.len() && s[j].chapter == chapter && #[trigger] s[j].start_block == block;
                assert(hs[j] == s[j]);
            }
        }
        lemma_block_ranges_empty(s, chapter, block);
        assert(!(hs.last().chapter == chapter && hs.last().start_block == block)) by {
            if hs.last().chapter == chapter && hs.last().start_block == block {
                assert(hs[hs.len() - 1].start_block == block);
            }
        }
    }
}

/// One more highlight `h` adds its range to its own block and nothing else.
proof fn lemma_push_highlight(pre: Seq<Highlight>, h: Highlight, chapter: usize, b: usize)
    ensures
        block_ranges(pre.push(h), chapter, b) == (if h.chapter == chapter && h.start_block == b {
            block_ranges(pre, chapter, b).push(range_of(h))
        } else {
            block_ranges(pre, chapter, b)
        }),
        has_block(pre.push(h), chapter, b) <==> (has_block(pre, chapter, b) || (h.chapter == chapter
            && h.start_block == b)),
        has_chapter(pre.push(h), chapter) <==> (has_chapter(pre, chapter) || h.chapter == chapter),
{
    let post = pre.push(h);
    assert(post.drop_last() =~= pre);
    if has_block(post, chapter, b) && !(h.chapter == chapter && h.start_block == b) {
        let j = choose|j: int| 0 <= j < post.len() && post[j].chapter == chapter && #[trigger] post[j].start_block == b;
        assert(j < pre.len());
        assert(pre[j] == post[j]);
    }
    if has_block(pre, chapter, b) {
        let j = choose|j: int| 0 <= j < pre.len() && pre[j].chapter == chapter && #[trigger] pre[j].start_block == b;
        assert(post[j] == pre[j]);
    }
    if h.chapter == chapter && h.start_block == b {
        assert(post[pre.len() as int].start_block == b);
    }
    if has_chapter(post, chapter) && h.chapter != chapter {
        let j = choose|j: int| 0 <= j < post.len() && #[trigger] post[j].chapter == chapter;
        assert(j < pre.len());
        assert(pre[j] == post[j]);
    }
    if has_chapter(pre, chapter) {
        let j = choose|j: int| 0 <= j < pre.len() && #[trigger] pre[j].chapter == chapter;
        assert(post[j] == pre[j]);
    }
    if h.chapter == chapter {
        assert(post[pre.len() as int].chapter == chapter);
    }
}

/// The highlights of `chapter` grouped by the block they start in, each
/// block's ranges in the order of `highlights`.
pub fn chapter_highlight_ranges(highlights: &[Highlight], chapter: usize) -> (groups: HashMap<usize, Vec<Range>>)
    ensures
        groups_blocks(highlights@, chapter, groups@),
{
    let ghost hs = highlights@;
    let mut groups: HashMap<usize, Vec<Range>> = HashMap::new();
    let mut k: usize = 0;
    while k < highlights.len()
        invariant
            k <= highlights.len(),
            hs == highlights@,
            groups_blocks(hs.take(k as int), chapter, groups@),
        decreases highlights.len() - k,
    {
        let ghost pre = hs.take(k as int);
        let h = highlights[k];
        assert(hs.take(k + 1) =~= pre.push(h));
        let ghost before = groups@;
        if h.chapter == chapter {
            let mut ranges = match groups.remove(&h.start_block) {
                Some(v) => v,
                None => Vec::new(),
            };
            proof {
                if !before.contains_key(h.start_block) {
                    lemma_block_ranges_empty(pre, chapter, h.start_block);
                }
            }
            ranges.push((h.start_offset, h.end_offset, h.color));
            assert(ranges@ =~= block_ranges(pre, chapter, h.start_block).push(range_of(h)));
            groups.insert(h.start_block, ranges);
        }
        proof {
            assert forall|b: usize| groups@.contains_key(b) <==> has_block(pre.push(h), chapter, b) by {
                lemma_push_highlight(pre, h, chapter, b);
            }
            assert forall|b: usize| #[trigger] groups@.contains_key(b) implies groups@[b]@ == block_ranges(
                pre.push(h),
                chapter,
                b,
            ) by {
                lemma_push_highlight(pre, h, chapter, b);
            }
        }
        k = k + 1;
    }
    assert(hs.take(highlights.len() as int) =~= hs);
    groups
}

/// The highlights of the loaded chapters `[start_chapter, loaded_end)`, per
/// chapter and within it per block (see `chapter_highlight_ranges`).
pub fn loaded_chapter_highlight_ranges(highlights: &[Highlight], start_chapter: usize, loaded_end: usize)
    -> (chapters: HashMap<usize, HashMap<usize, Vec<Range>>>)
    ensures
        chapters_grouped(highlights@, start_chapter, loaded_end, chapters@),
{
    let ghost hs = highlights@;
    let mut chapters: HashMap<usize, HashMap<usize, Vec<Range>>> = HashMap::new();
    let mut k: usize = 0;
    while k < highlights.len()
        invariant
            k <= highlights.len(),
            hs == highlights@,
            forall|c: usize| chapters@.contains_key(c) <==> (start_chapter <= c < loaded_end && has_chapter(
                hs.take(k as int),
                c,
            )),
            forall|c: usize| #[trigger] chapters@.contains_key(c) ==> groups_blocks(hs, c, chapters@[c]@),
        decreases highlights.len() - k,
    {
        let ghost pre = hs.take(k as int);
        let h = highlights[k];
        assert(hs.take(k + 1) =~= pre.push(h));
        if start_chapter <= h.chapter && h.chapter < loaded_end && !chapters.contains_key(&h.chapter) {
            let g = chapter_highlight_ranges(highlights, h.chapter);
            chapters.insert(h.chapter, g);
        }
        proof {
            assert forall|c: usize| chapters@.contains_key(c) <==> (start_chapter <= c < loaded_end
                && has_chapter(pre.push(h), c)) by {
                lemma_push_highlight(pre, h, c, 0);
            }
        }
        k = k + 1;
    }
    assert(hs.take(highlights.len() as int) =~= hs);
    chapters
}

} // verus!
