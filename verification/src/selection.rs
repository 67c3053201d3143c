use vstd::prelude::*;

verus! {

/// Which top-level screen the application shows.
#[derive(PartialEq, Eq, Structural)]
pub enum AppView {
    Library,
    Reader,
}

/// Text selection made by dragging across the blocks of a chapter.
#[derive(Clone, Debug)]
pub struct TextSelection {
    /// Chapter-level block index where the drag started.
    pub start_block: usize,
    /// Char offset within start_block.
    pub start_char: usize,
    /// Chapter-level block index where the drag currently ends.
    pub end_block: usize,
    /// Char offset within end_block.
    pub end_char: usize,
    /// True while the user is still dragging.
    pub is_dragging: bool,
}

/// Position `(block, char)` `a` comes no later than `b` in reading order.
pub open spec fn position_le(a: (usize, usize), b: (usize, usize)) -> bool {
    a.0 < b.0 || (a.0 == b.0 && a.1 <= b.1)
}

impl TextSelection {
    /// Whether the drag ran forwards (the start is not after the end).
    pub open spec fn is_forward(&self) -> bool {
        position_le((self.start_block, self.start_char), (self.end_block, self.end_char))
    }

    /// Returns (first_block, first_char) regardless of drag direction.
    pub fn normalized(&self) -> (r: (usize, usize))
        ensures
            r == (if self.is_forward() {
                (self.start_block, self.start_char)
            } else {
                (self.end_block, self.end_char)
            }),
    {
        if self.start_block < self.end_block || (self.start_block == self.end_block
            && self.start_char <= self.end_char) {
            (self.start_block, self.start_char)
        } else {
            (self.end_block, self.end_char)
        }
    }

    /// Returns (start_block, start_char, end_block, end_char) in order: start <= end.
    pub fn normalized_range(&self) -> (r: (usize, usize, usize, usize))
        ensures
            r == ordered_range(*self),
            position_le((r.0, r.1), (r.2, r.3)),
    {
        if self.start_block < self.end_block || (self.start_block == self.end_block
            && self.start_char <= self.end_char) {
            (self.start_block, self.start_char, self.end_block, self.end_char)
        } else {
            (self.end_block, self.end_char, self.start_block, self.start_char)
        }
    }
}

/// The selection's two ends, earlier first.
pub open spec fn ordered_range(s: TextSelection) -> (usize, usize, usize, usize) {
    if s.is_forward() {
        (s.start_block, s.start_char, s.end_block, s.end_char)
    } else {
        (s.end_block, s.end_char, s.start_block, s.start_char)
    }
}

/// The same selection dragged the other way.
pub open spec fn reversed(s: TextSelection) -> TextSelection {
    TextSelection {
        start_block: s.end_block,
        start_char: s.end_char,
        end_block: s.start_block,
        end_char: s.start_char,
        is_dragging: s.is_dragging,
    }
}

/// The normalized selection does not depend on the drag direction, and its
/// first position is what `normalized` returns.
pub proof fn law_selection_direction_irrelevant(s: TextSelection)
    ensures
        ordered_range(reversed(s)) == ordered_range(s),
        (ordered_range(s).0, ordered_range(s).1) == (if s.is_forward() {
            (s.start_block, s.start_char)
        } else {
            (s.end_block, s.end_char)
        }),
{
}

} // verus!
