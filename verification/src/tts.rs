//! Read-aloud navigation: which blocks of a book are read, where reading
//! continues, and which page shows the block being read.
use vstd::prelude::*;
use crate::text::{chars_of, string_of, slice_range};
use crate::reading::ReadingPosition;

verus! {

/// A block of chapter content, reduced to what reading aloud needs.
#[derive(Clone, Debug)]
pub enum ContentBlock {
    Heading { text: String },
    Paragraph { text: String },
    Separator,
    BlankLine,
    /// Images and other blocks without text.
    Other,
}

/// Headings and paragraphs are read aloud; other blocks are skipped.
pub open spec fn is_readable(b: ContentBlock) -> bool {
    b is Heading || b is Paragraph
}

/// The block range `[r.0, r.1)` holds `block`.
pub open spec fn range_holds(r: (usize, usize), block: usize) -> bool {
    r.0 <= block < r.1
}

/// The page (index into `ranges`, the `[start, end)` block ranges of the
/// pages) that shows `block`, if any; in dual-column mode the left page of the
/// spread.
pub open spec fn page_for_block_spec(ranges: Seq<(usize, usize)>, block: usize, dual_column: bool) -> Option<int> {
    if exists|i: int| 0 <= i < ranges.len() && #[trigger] range_holds(ranges[i], block) {
        let page = choose|i: int|
            0 <= i < ranges.len() && range_holds(ranges[i], block) && forall|j: int|
                0 <= j < i ==> !(range_holds(ranges[j], block));
        Some(if dual_column { page - page % 2 } else { page })
    } else {
        None
    }
}

/// The page showing `block`: the first range that contains it.
pub fn page_for_block(ranges: &[(usize, usize)], block: usize, dual_column: bool) -> (r: Option<usize>)
    ensures
        r matches Some(p) ==> page_for_block_spec(ranges@, block, dual_column) == Some(p as int),
        r is None ==> page_for_block_spec(ranges@, block, dual_column) is None,
{
    let mut i: usize = 0;
    while i < ranges.len()
        invariant
            i <= ranges.len(),
            forall|j: int| 0 <= j < i ==> !range_holds(#[trigger] ranges@[j], block),
        decreases ranges.len() - i,
    {
        let (start, end) = ranges[i];
        if start <= block && block < end {
            proof {
                let w = choose|x: int|
                    0 <= x < ranges@.len() && range_holds(ranges@[x], block) && forall|j: int|
                        0 <= j < x ==> !(range_holds(ranges@[j], block));
                assert(0 <= i < ranges@.len() && range_holds(ranges@[i as int], block)
                    && forall|j: int| 0 <= j < i ==> !(range_holds(ranges@[j], block)));
                if w < i {
                } else if w > i {
                    assert(!(range_holds(ranges@[i as int], block)));
                }
            }
            return Some(if dual_column { i - i % 2 } else { i });
        }
        i = i + 1;
    }
    None
}

/// The first readable block at or after `from` (clamped to the chapter), or
/// the number of blocks when there is none.
pub open spec fn next_readable_spec(blocks: Seq<ContentBlock>, from: int) -> int {
    let start = if from < blocks.len() { from } else { blocks.len() as int };
    if exists|i: int| start <= i < blocks.len() && is_readable(blocks[i]) {
        choose|i: int|
            start <= i < blocks.len() && is_readable(blocks[i]) && forall|j: int|
                start <= j < i ==> !is_readable(blocks[j])
    } else {
        blocks.len() as int
    }
}

/// Starting from `from`, the index of the next heading or paragraph.
pub fn next_readable_block(blocks: &[ContentBlock], from: usize) -> (r: usize)
    ensures
        r == next_readable_spec(blocks@, from as int),
        r <= blocks.len(),
{
    let start = if from < blocks.len() { from } else { blocks.len() };
    let mut i = start;
    while i < blocks.len()
        invariant
            start <= i <= blocks.len(),
            start == (if from < blocks.len() { from } else { blocks.len() }),
            forall|j: int| start <= j < i ==> !is_readable(#[trigger] blocks@[j]),
        decreases blocks.len() - i,
    {
        let readable = match &blocks[i] {
            ContentBlock::Heading { .. } => true,
            ContentBlock::Paragraph { .. } => true,
            _ => false,
        };
        if readable {
            proof {
                let w = choose|x: int|
                    start <= x < blocks@.len() && is_readable(blocks@[x]) && forall|j: int|
                        start <= j < x ==> !is_readable(blocks@[j]);
                assert(start <= i < blocks@.len() && is_readable(blocks@[i as int]) && forall|j: int|
                    start <= j < i ==> !is_readable(blocks@[j]));
                if w < i {
                } else if w > i {
                    assert(!is_readable(blocks@[i as int]));
                }
            }
            return i;
        }
        i = i + 1;
    }
    blocks.len()
}

/// `text` without its first `char_offset` characters.
pub fn text_from_char(text: &str, char_offset: usize) -> (s: String)
    ensures
        s@ == (if char_offset < text@.len() { text@.skip(char_offset as int) } else { Seq::empty() }),
{
    let v = chars_of(text);
    if char_offset >= v.len() {
        return String::new();
    }
    string_of(&slice_range(&v, char_offset, v.len()))
}

/// The first readable position `(chapter, block)` at or after block `from` of
/// `chapter`, moving on to the start of later chapters; `None` at the end of
/// the book.
pub open spec fn next_readable_position_spec(chapters: Seq<Seq<ContentBlock>>, chapter: int, from: int) -> Option<(int, int)>
    decreases chapters.len() - chapter,
{
    if chapter < 0 || chapter >= chapters.len() {
        None
    } else if next_readable_spec(chapters[chapter], from) < chapters[chapter].len() {
        Some((chapter, next_readable_spec(chapters[chapter], from)))
    } else {
        next_readable_position_spec(chapters, chapter + 1, 0)
    }
}

/// The chapters of a book, as sequences of blocks.
pub open spec fn book_view(chapters: Seq<Vec<ContentBlock>>) -> Seq<Seq<ContentBlock>> {
    chapters.map_values(|c: Vec<ContentBlock>| c@)
}

/// Where reading continues from block `from` of `chapter`.
pub fn next_readable_position(chapters: &Vec<Vec<ContentBlock>>, chapter: usize, from: usize) -> (r: Option<(usize, usize)>)
    ensures
        r matches Some((c, b)) ==> next_readable_position_spec(book_view(chapters@), chapter as int, from as int) == Some((c as int, b as int)),
        r is None ==> next_readable_position_spec(book_view(chapters@), chapter as int, from as int) is None,
{
    let ghost book = book_view(chapters@);
    let mut c = chapter;
    let mut f = from;
    while c < chapters.len()
        invariant
            book == book_view(chapters@),
            chapter <= c,
            next_readable_position_spec(book, chapter as int, from as int)
                == next_readable_position_spec(book, c as int, f as int),
        decreases chapters.len() - c,
    {
        assert(book[c as int] == chapters@[c as int]@);
        let block = next_readable_block(&chapters[c], f);
        if block < chapters[c].len() {
            return Some((c, block));
        }
        c = c + 1;
        f = 0;
    }
    None
}

/// The text read aloud for a block: its text for headings and paragraphs,
/// nothing for other blocks.
pub open spec fn block_text_spec(b: ContentBlock) -> Seq<char> {
    match b {
        ContentBlock::Heading { text } => text@,
        ContentBlock::Paragraph { text } => text@,
        _ => Seq::empty(),
    }
}

/// The text read aloud for block `block` of `chapter`; empty when there is no
/// such block.
pub fn block_text(chapters: &Vec<Vec<ContentBlock>>, chapter: usize, block: usize) -> (s: String)
    ensures
        s@ == (if chapter < chapters.len() && block < chapters@[chapter as int].len() {
            block_text_spec(chapters@[chapter as int]@[block as int])
        } else {
            Seq::empty()
        }),
{
    if chapter < chapters.len() && block < chapters[chapter].len() {
        match &chapters[chapter][block] {
            ContentBlock::Heading { text } => text.clone(),
            ContentBlock::Paragraph { text } => text.clone(),
            _ => String::new(),
        }
    } else {
        String::new()
    }
}

/// The block being read aloud, and the character in it where reading starts.
#[derive(Clone, Copy, Debug, PartialEq, Eq, Structural)]
pub struct TtsCursor {
    pub chapter: usize,
    pub block: usize,
    pub char_offset: usize,
}

/// Where the audio prepared in advance for a block stands.
#[derive(Clone, Debug)]
pub enum PrefetchStatus {
    /// The audio is ready.
    Ready,
    /// Synthesis failed with this message.
    Failed(String),
    /// Synthesis is still running.
    Pending,
}

/// What moving on to the next block comes to.
#[derive(Clone, Debug)]
pub enum TtsAdvance {
    /// The end of the book: stop reading.
    BookFinished,
    /// Play the audio prepared for the new block, and prepare the next one.
    PlayPrefetched,
    /// The audio prepared for the new block failed: stop with this message.
    PrefetchFailed(String),
    /// Wait for the synthesis already running for the new block, and prepare
    /// the next one.
    AwaitPrefetch,
    /// Synthesize the new block (audio prepared for another block is dropped).
    Synthesize,
}

/// Moves reading on to the next readable block after the current one (in
/// this chapter or a later one), from its first character, and says what to
/// do with `prefetch`, the audio prepared for the block at `(chapter,
/// block)`; at the end of the book the cursor stays.
pub fn tts_advance_to_next_block(
    cursor: &mut TtsCursor,
    chapters: &Vec<Vec<ContentBlock>>,
    prefetch: Option<(usize, usize, PrefetchStatus)>,
) -> (a: TtsAdvance)
    requires
        old(cursor).block < usize::MAX,
    ensures
        match next_readable_position_spec(book_view(chapters@), old(cursor).chapter as int, old(cursor).block + 1) {
            None => a is BookFinished && *final(cursor) == *old(cursor),
            Some((c, b)) => *final(cursor) == (TtsCursor { chapter: c as usize, block: b as usize, char_offset: 0 })
                && match prefetch {
                    Some((pc, pb, st)) if pc == c && pb == b => match st {
                        PrefetchStatus::Ready => a is PlayPrefetched,
                        PrefetchStatus::Failed(e) => a matches TtsAdvance::PrefetchFailed(m) && m@ == e@,
                        PrefetchStatus::Pending => a is AwaitPrefetch,
                    },
                    _ => a is Synthesize,
                },
        },
{
    let next = next_readable_position(chapters, cursor.chapter, cursor.block + 1);
    let (c, b) = match next {
        Some(p) => p,
        None => {
            return TtsAdvance::BookFinished;
        },
    };
    cursor.chapter = c;
    cursor.block = b;
    cursor.char_offset = 0;
    match prefetch {
        Some((pc, pb, st)) => {
            if pc == c && pb == b {
                match st {
                    PrefetchStatus::Ready => TtsAdvance::PlayPrefetched,
                    PrefetchStatus::Failed(e) => TtsAdvance::PrefetchFailed(e),
                    PrefetchStatus::Pending => TtsAdvance::AwaitPrefetch,
                }
            } else {
                TtsAdvance::Synthesize
            }
        },
        None => TtsAdvance::Synthesize,
    }
}

proof fn lemma_first_readable_exists(blocks: Seq<ContentBlock>, start: int, i: int)
    requires
        start <= i < blocks.len(),
        is_readable(blocks[i]),
    ensures
        exists|m: int| start <= m < blocks.len() && is_readable(blocks[m])
            && forall|j: int| start <= j < m ==> !is_readable(blocks[j]),
    decreases i - start,
{
    if exists|j: int| start <= j < i && is_readable(blocks[j]) {
        let j = choose|j: int| start <= j < i && is_readable(blocks[j]);
        lemma_first_readable_exists(blocks, start, j);
    } else {
        assert(forall|j: int| start <= j < i ==> !is_readable(blocks[j]));
    }
}

/// The search for the next readable block finds the first heading or
/// paragraph at or after `from` (clamped to the chapter), or the number of
/// blocks when there is none: the index found lies between the clamped start
/// and the length, is readable when it is a block, and no readable block lies
/// between `from` and it.
pub proof fn law_next_readable_is_first(blocks: Seq<ContentBlock>, from: int)
    requires
        0 <= from,
    ensures
        (if from < blocks.len() { from } else { blocks.len() as int }) <= next_readable_spec(blocks, from),
        next_readable_spec(blocks, from) <= blocks.len(),
        next_readable_spec(blocks, from) < blocks.len() ==> from <= next_readable_spec(blocks, from)
            && is_readable(blocks[next_readable_spec(blocks, from)]),
        forall|j: int| from <= j < next_readable_spec(blocks, from) ==> !is_readable(#[trigger] blocks[j]),
{
    let start = if from < blocks.len() { from } else { blocks.len() as int };
    if exists|i: int| start <= i < blocks.len() && is_readable(blocks[i]) {
        let i = choose|i: int| start <= i < blocks.len() && is_readable(blocks[i]);
        lemma_first_readable_exists(blocks, start, i);
    }
}

/// Reading aloud only ever lands on a heading or paragraph that exists, at
/// or after the position it continues from, skipping no readable block of
/// that chapter on the way.
pub proof fn law_reading_lands_on_text(chapters: Seq<Seq<ContentBlock>>, chapter: int, from: int)
    requires
        0 <= from,
    ensures
        next_readable_position_spec(chapters, chapter, from) matches Some((c, b)) ==> {
            &&& chapter <= c < chapters.len()
            &&& 0 <= b < chapters[c].len()
            &&& is_readable(chapters[c][b])
            &&& c == chapter ==> from <= b
            &&& c == chapter ==> forall|j: int| from <= j < b ==> !is_readable(#[trigger] chapters[c][j])
        },
    decreases chapters.len() - chapter,
{
    if 0 <= chapter < chapters.len() {
        law_next_readable_is_first(chapters[chapter], from);
        if next_readable_spec(chapters[chapter], from) >= chapters[chapter].len() {
            law_reading_lands_on_text(chapters, chapter + 1, 0);
        }
    }
}

/// Where reading aloud starts when asked to start at `(chapter, block,
/// char_offset)`: the first readable block from `block` on (block 0 when the
/// chapter does not exist), at `char_offset` only when that is `block`
/// itself; None (stop) when the chapter has no readable block from there.
pub open spec fn start_cursor_spec(chapters: Seq<Seq<ContentBlock>>, chapter: usize, block: usize, char_offset: usize) -> Option<TtsCursor> {
    let first = if chapter < chapters.len() { next_readable_spec(chapters[chapter as int], block as int) } else { 0 };
    if chapter < chapters.len() && first >= chapters[chapter as int].len() {
        None
    } else {
        Some(TtsCursor {
            chapter,
            block: first as usize,
            char_offset: if first == block { char_offset } else { 0 },
        })
    }
}

/// The cursor reading aloud starts from (see `start_cursor_spec`).
pub fn tts_start_from_position(chapters: &Vec<Vec<ContentBlock>>, chapter: usize, block: usize, char_offset: usize) -> (r: Option<TtsCursor>)
    ensures
        r == start_cursor_spec(book_view(chapters@), chapter, block, char_offset),
{
    let ghost book = book_view(chapters@);
    if chapter < chapters.len() {
        assert(book[chapter as int] == chapters@[chapter as int]@);
        let first = next_readable_block(&chapters[chapter], block);
        if first >= chapters[chapter].len() {
            return None;
        }
        Some(TtsCursor { chapter, block: first, char_offset: if first == block { char_offset } else { 0 } })
    } else {
        Some(TtsCursor { chapter, block: 0, char_offset: if block == 0 { char_offset } else { 0 } })
    }
}

/// The block reading aloud starts from: the current block in scroll mode,
/// else the first block of the current page (the current block when there
/// is no such page).
pub fn tts_start_block(scroll_mode: bool, current_block: usize, ranges: &[(usize, usize)], current_page: usize) -> (b: usize)
    ensures
        b == (if !scroll_mode && current_page < ranges@.len() { ranges@[current_page as int].0 } else { current_block }),
{
    if !scroll_mode && current_page < ranges.len() {
        ranges[current_page].0
    } else {
        current_block
    }
}

/// How the view follows the block being read.
#[derive(Clone, Copy, Debug, PartialEq, Eq, Structural)]
pub enum FollowAction {
    /// The view stays.
    Nothing,
    /// Move to `chapter`, then bring `restore_block` into view once laid out.
    GoToChapter { chapter: usize, restore_block: usize },
    /// Bring this block into view once the pages are laid out.
    RestoreBlock(usize),
    /// Turn to this page.
    TurnToPage(usize),
}

/// What following the spoken block comes to: nothing unless the view
/// follows; another chapter is gone to first; in scroll mode or before the
/// pages are laid out the block is restored later; otherwise the page that
/// shows the block is turned to, if it is not the current one.
pub open spec fn follow_spec(follow_view: bool, pos: ReadingPosition, tts: TtsCursor, scroll_mode: bool,
    ranges: Seq<(usize, usize)>, dual_column: bool) -> FollowAction
{
    if !follow_view {
        FollowAction::Nothing
    } else if pos.chapter != tts.chapter {
        FollowAction::GoToChapter { chapter: tts.chapter, restore_block: tts.block }
    } else if scroll_mode || pos.pages_dirty {
        FollowAction::RestoreBlock(tts.block)
    } else {
        match page_for_block_spec(ranges, tts.block, dual_column) {
            Some(p) => if p != pos.page { FollowAction::TurnToPage(p as usize) } else { FollowAction::Nothing },
            None => FollowAction::Nothing,
        }
    }
}

/// Following the spoken block: nothing moves when the view does not follow;
/// in another chapter the view goes to that chapter and the spoken block;
/// in the same chapter, while scrolling or when the pages must be laid out
/// again, the spoken block is restored once laid out and no page is turned;
/// a page is turned to only on a current page layout, only to a page other
/// than the current one, and only to one that shows the spoken block (or,
/// two pages to a spread, whose spread shows it); and on a current layout a
/// page is turned to whenever some page shows the spoken block and the
/// current page (or spread) does not.
pub proof fn law_follow_restores_until_laid_out(
    follow_view: bool,
    pos: ReadingPosition,
    tts: TtsCursor,
    scroll_mode: bool,
    ranges: Seq<(usize, usize)>,
    dual_column: bool,
)
    requires
        ranges.len() <= usize::MAX,
    ensures
        !follow_view ==> follow_spec(follow_view, pos, tts, scroll_mode, ranges, dual_column) == FollowAction::Nothing,
        follow_view && pos.chapter != tts.chapter ==> follow_spec(follow_view, pos, tts, scroll_mode, ranges, dual_column)
            == (FollowAction::GoToChapter { chapter: tts.chapter, restore_block: tts.block }),
        follow_view && pos.chapter == tts.chapter && (scroll_mode || pos.pages_dirty) ==> follow_spec(
            follow_view,
            pos,
            tts,
            scroll_mode,
            ranges,
            dual_column,
        ) == FollowAction::RestoreBlock(tts.block),
        follow_spec(follow_view, pos, tts, scroll_mode, ranges, dual_column) matches FollowAction::TurnToPage(p) ==> {
            &&& follow_view && pos.chapter == tts.chapter && !scroll_mode && !pos.pages_dirty
            &&& p != pos.page
            &&& exists|q: int|
                (q == p || (dual_column && q == p + 1)) && 0 <= q < ranges.len() && ranges[q].0 <= tts.block
                    < #[trigger] ranges[q].1
        },
        (follow_view && pos.chapter == tts.chapter && !scroll_mode && !pos.pages_dirty && (exists|q: int|
            0 <= q < ranges.len() && #[trigger] range_holds(ranges[q], tts.block)) && forall|q: int|
            0 <= q < ranges.len() && #[trigger] range_holds(ranges[q], tts.block) ==> q != pos.page && !(
            dual_column && q == pos.page + 1)) ==> follow_spec(follow_view, pos, tts, scroll_mode, ranges, dual_column)
            is TurnToPage,
{
    if follow_view && pos.chapter == tts.chapter && !scroll_mode && !pos.pages_dirty && (exists|q: int|
        0 <= q < ranges.len() && #[trigger] range_holds(ranges[q], tts.block)) {
        let w = choose|i: int| 0 <= i < ranges.len() && #[trigger] range_holds(ranges[i], tts.block);
        lemma_first_page_exists(ranges, tts.block, w);
        let page = choose|i: int|
            0 <= i < ranges.len() && range_holds(ranges[i], tts.block) && forall|j: int|
                0 <= j < i ==> !(range_holds(ranges[j], tts.block));
        assert(range_holds(ranges[page], tts.block));
        assert(page - page % 2 >= 0);
    }
    if let FollowAction::TurnToPage(p) = follow_spec(follow_view, pos, tts, scroll_mode, ranges, dual_column) {
        let w = choose|i: int| 0 <= i < ranges.len() && #[trigger] range_holds(ranges[i], tts.block);
        lemma_first_page_exists(ranges, tts.block, w);
        let page = choose|i: int|
            0 <= i < ranges.len() && range_holds(ranges[i], tts.block) && forall|j: int|
                0 <= j < i ==> !(range_holds(ranges[j], tts.block));
        assert(ranges[page].0 <= tts.block < ranges[page].1);
        assert(page_for_block_spec(ranges, tts.block, dual_column) == Some(
            if dual_column { page - page % 2 } else { page },
        ));
        assert(page - page % 2 >= 0);
        assert(p == (if dual_column { page - page % 2 } else { page }));
        assert(page == p || (dual_column && page == p + 1));
    }
}

proof fn lemma_first_page_exists(ranges: Seq<(usize, usize)>, block: usize, i: int)
    requires
        0 <= i < ranges.len(),
        range_holds(ranges[i], block),
    ensures
        exists|m: int| 0 <= m < ranges.len() && range_holds(ranges[m], block)
            && forall|j: int| 0 <= j < m ==> !(range_holds(ranges[j], block)),
    decreases i,
{
    if exists|j: int| 0 <= j < i && range_holds(ranges[j], block) {
        let j = choose|j: int| 0 <= j < i && range_holds(ranges[j], block);
        lemma_first_page_exists(ranges, block, j);
    } else {
        assert(forall|j: int| 0 <= j < i ==> !(range_holds(ranges[j], block)));
    }
}

/// How the view follows the spoken block (see `follow_spec`).
pub fn tts_follow_current_position(follow_view: bool, pos: &ReadingPosition, tts: &TtsCursor, scroll_mode: bool,
    ranges: &[(usize, usize)], dual_column: bool) -> (a: FollowAction)
    ensures
        a == follow_spec(follow_view, *pos, *tts, scroll_mode, ranges@, dual_column),
{
    if !follow_view {
        FollowAction::Nothing
    } else if pos.chapter != tts.chapter {
        FollowAction::GoToChapter { chapter: tts.chapter, restore_block: tts.block }
    } else if scroll_mode || pos.pages_dirty {
        FollowAction::RestoreBlock(tts.block)
    } else {
        match page_for_block(ranges, tts.block, dual_column) {
            Some(p) => if p != pos.page { FollowAction::TurnToPage(p) } else { FollowAction::Nothing },
            None => FollowAction::Nothing,
        }
    }
}

} // verus!
