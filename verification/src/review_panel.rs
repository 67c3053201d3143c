//! The review-card panel: which blocks of a review chapter it shows when it
//! was opened from a link to one anchor, and how opening, drawing and closing
//! change its state.
use vstd::prelude::*;
use crate::text::{chars_eq, chars_of, opt_view, split_chars, split_on, string_of, views};

verus! {

/// A block of a review chapter, reduced to what the anchor filter reads.
#[derive(Clone, Debug)]
pub enum AnchoredBlock {
    Heading { anchor_id: Option<String> },
    Paragraph { anchor_id: Option<String> },
    /// Any other block (separator, image, blank line).
    Other,
}

/// The block is a heading or a paragraph that carries the anchor `anchor`.
pub open spec fn carries_anchor(b: AnchoredBlock, anchor: Seq<char>) -> bool {
    match b {
        AnchoredBlock::Heading { anchor_id: Some(id) } => id@ == anchor,
        AnchoredBlock::Paragraph { anchor_id: Some(id) } => id@ == anchor,
        _ => false,
    }
}

/// The block closes the group of `anchor`: a heading that does not carry it.
pub open spec fn ends_anchor_group(b: AnchoredBlock, anchor: Seq<char>) -> bool {
    b is Heading && !carries_anchor(b, anchor)
}

/// The first index at or after `k` whose block carries `anchor`, else the
/// number of blocks.
pub open spec fn first_carrying(blocks: Seq<AnchoredBlock>, anchor: Seq<char>, k: int) -> int
    decreases blocks.len() - k,
{
    if k < 0 || k >= blocks.len() {
        blocks.len() as int
    } else if carries_anchor(blocks[k], anchor) {
        k
    } else {
        first_carrying(blocks, anchor, k + 1)
    }
}

/// The first index at or after `k` whose block closes the group of
/// `anchor`, else the number of blocks.
pub open spec fn group_end(blocks: Seq<AnchoredBlock>, anchor: Seq<char>, k: int) -> int
    decreases blocks.len() - k,
{
    if k < 0 || k >= blocks.len() {
        blocks.len() as int
    } else if ends_anchor_group(blocks[k], anchor) {
        k
    } else {
        group_end(blocks, anchor, k + 1)
    }
}

/// The indices `0..n`.
pub open spec fn all_block_indices(n: nat) -> Seq<usize> {
    Seq::new(n, |j: int| j as usize)
}

/// The indices of the blocks the panel shows: all of them when there is no
/// anchor, when everything is asked for, or when no heading or paragraph
/// carries the anchor; otherwise the group of the anchor, from the first
/// heading or paragraph that carries it up to the next heading that does not.
pub open spec fn review_filter_spec(blocks: Seq<AnchoredBlock>, anchor: Option<Seq<char>>, show_all: bool) -> Seq<usize> {
    if show_all || anchor is None {
        all_block_indices(blocks.len())
    } else {
        let a = anchor.unwrap();
        let s = first_carrying(blocks, a, 0);
        if s >= blocks.len() {
            all_block_indices(blocks.len())
        } else {
            let e = group_end(blocks, a, s + 1);
            Seq::new((e - s) as nat, |j: int| (s + j) as usize)
        }
    }
}

/// Whether `b` carries the anchor whose characters are `a`.
fn block_carries(b: &AnchoredBlock, a: &Vec<char>) -> (r: bool)
    ensures
        r == carries_anchor(*b, a@),
{
    match b {
        AnchoredBlock::Heading { anchor_id: Some(id) } => chars_eq(&chars_of(id.as_str()), a),
        AnchoredBlock::Paragraph { anchor_id: Some(id) } => chars_eq(&chars_of(id.as_str()), a),
        _ => false,
    }
}

/// The indices `from..to`.
fn index_range(from: usize, to: usize) -> (r: Vec<usize>)
    requires
        from <= to,
    ensures
        r@ == Seq::new((to - from) as nat, |j: int| (from + j) as usize),
{
    let mut r: Vec<usize> = Vec::new();
    let mut k = from;
    while k < to
        invariant
            from <= k <= to,
            r@ == Seq::new((k - from) as nat, |j: int| (from + j) as usize),
        decreases to - k,
    {
        r.push(k);
        k = k + 1;
        assert(r@ =~= Seq::new((k - from) as nat, |j: int| (from + j) as usize));
    }
    r
}

/// The indices of `blocks` that the review panel shows (see
/// `review_filter_spec`).
pub fn review_filtered_blocks(blocks: &[AnchoredBlock], anchor: Option<&str>, show_all: bool) -> (r: Vec<usize>)
    ensures
        r@ == review_filter_spec(
            blocks@,
            match anchor {
                Some(a) => Some(a@),
                None => None,
            },
            show_all,
        ),
{
    let n = blocks.len();
    let everything = index_range(0, n);
    assert(everything@ =~= all_block_indices(n as nat));
    if show_all {
        return everything;
    }
    let a = match anchor {
        Some(a) => chars_of(a),
        None => {
            return everything;
        },
    };
    let mut s: usize = 0;
    while s < n
        invariant
            s <= n,
            n == blocks.len(),
            first_carrying(blocks@, a@, 0) == first_carrying(blocks@, a@, s as int),
        ensures
            s <= n,
            first_carrying(blocks@, a@, 0) == first_carrying(blocks@, a@, s as int),
            s < n ==> carries_anchor(blocks@[s as int], a@),
        decreases n - s,
    {
        if block_carries(&blocks[s], &a) {
            break;
        }
        s = s + 1;
    }
    if s == n {
        return everything;
    }
    assert(first_carrying(blocks@, a@, 0) == s);
    let mut e: usize = s + 1;
    while e < n
        invariant
            s < e <= n,
            n == blocks.len(),
            group_end(blocks@, a@, s + 1) == group_end(blocks@, a@, e as int),
        ensures
            s < e <= n,
            group_end(blocks@, a@, s + 1) == group_end(blocks@, a@, e as int),
            e < n ==> ends_anchor_group(blocks@[e as int], a@),
        decreases n - e,
    {
        let ends = match &blocks[e] {
            AnchoredBlock::Heading { .. } => !block_carries(&blocks[e], &a),
            _ => false,
        };
        if ends {
            break;
        }
        e = e + 1;
    }
    assert(group_end(blocks@, a@, s + 1) == e);
    index_range(s, e)
}

/// The anchor of a link: the text after its first `#` (up to a second one),
/// if it has one.
pub open spec fn link_anchor(url: Seq<char>) -> Option<Seq<char>> {
    let pieces = split_on(url, '#');
    if pieces.len() >= 2 {
        Some(pieces[1])
    } else {
        None
    }
}

/// Whether the review panel is shown, and what it shows.
pub struct ReviewPanel {
    pub open: bool,
    /// The review chapter shown.
    pub chapter: Option<usize>,
    /// The anchor of the link that opened the panel.
    pub anchor: Option<String>,
    /// Show the whole chapter rather than the anchor's group.
    pub show_all: bool,
    /// Opened since the last frame was drawn.
    pub just_opened: bool,
}

/// Opening the panel on `chapter` from the link `url` changes `before`
/// into `after`: it is open on that chapter with the link's anchor, and the
/// next frame is its first.
pub open spec fn opened_from_link(before: ReviewPanel, chapter: usize, url: Seq<char>, after: ReviewPanel) -> bool {
    &&& after.open
    &&& after.chapter == Some(chapter)
    &&& opt_view(after.anchor) == link_anchor(url)
    &&& after.just_opened
    &&& after.show_all == before.show_all
}

/// Drawing a frame changes `before` into `after`: the opening is consumed,
/// and a panel just opened from a link with an anchor shows that anchor's
/// group; the rest stays.
pub open spec fn frame_begun(before: ReviewPanel, after: ReviewPanel) -> bool {
    &&& !after.just_opened
    &&& after.show_all == (before.show_all && !(before.just_opened && before.anchor is Some))
    &&& after.open == before.open
    &&& after.chapter == before.chapter
    &&& opt_view(after.anchor) == opt_view(before.anchor)
}

impl ReviewPanel {
    /// A closed panel.
    pub fn new() -> (p: Self)
        ensures
            !p.open,
            p.chapter is None,
            p.anchor is None,
            !p.show_all,
            !p.just_opened,
    {
        ReviewPanel { open: false, chapter: None, anchor: None, show_all: false, just_opened: false }
    }

    /// Open the panel on review chapter `chapter` from the link `url`.
    pub fn open_from_link(&mut self, chapter: usize, url: &str)
        ensures
            opened_from_link(*old(self), chapter, url@, *final(self)),
    {
        let pieces = split_chars(&chars_of(url), '#');
        proof {
            assert(views(pieces@).len() == pieces@.len());
        }
        self.anchor = if pieces.len() >= 2 {
            assert(views(pieces@)[1] == pieces@[1]@);
            Some(string_of(&pieces[1]))
        } else {
            None
        };
        self.open = true;
        self.chapter = Some(chapter);
        self.just_opened = true;
    }

    /// Begin drawing a frame (see `frame_begun`).
    pub fn begin_frame(&mut self)
        ensures
            frame_begun(*old(self), *final(self)),
    {
        let was_just_opened = self.just_opened;
        self.just_opened = false;
        if was_just_opened && self.anchor.is_some() {
            self.show_all = false;
        }
    }

    /// Switch between the anchor's group and the whole chapter.
    pub fn toggle_show_all(&mut self)
        ensures
            final(self).show_all == !old(self).show_all,
            final(self).open == old(self).open,
            final(self).chapter == old(self).chapter,
            opt_view(final(self).anchor) == opt_view(old(self).anchor),
            final(self).just_opened == old(self).just_opened,
    {
        self.show_all = !self.show_all;
    }

    /// Close the panel and forget its chapter and anchor.
    pub fn close(&mut self)
        ensures
            !final(self).open,
            final(self).chapter is None,
            final(self).anchor is None,
            final(self).show_all == old(self).show_all,
            final(self).just_opened == old(self).just_opened,
    {
        self.open = false;
        self.chapter = None;
        self.anchor = None;
    }

    /// The indices of `blocks` that the panel shows now.
    pub fn visible_blocks(&self, blocks: &[AnchoredBlock]) -> (r: Vec<usize>)
        ensures
            r@ == review_filter_spec(blocks@, opt_view(self.anchor), self.show_all),
    {
        let anchor = match &self.anchor {
            Some(a) => Some(a.as_str()),
            None => None,
        };
        review_filtered_blocks(blocks, anchor, self.show_all)
    }
}

/// Opening the panel from a link that carries an anchor and drawing the
/// next frame shows the anchor's group, whatever was shown before.
pub proof fn law_anchor_link_opens_filtered(
    p: ReviewPanel,
    opened: ReviewPanel,
    drawn: ReviewPanel,
    chapter: usize,
    url: Seq<char>,
)
    requires
        opened_from_link(p, chapter, url, opened),
        frame_begun(opened, drawn),
        link_anchor(url) is Some,
    ensures
        !drawn.show_all,
        opt_view(drawn.anchor) == link_anchor(url),
        drawn.open,
        drawn.chapter == Some(chapter),
{
}

} // verus!
