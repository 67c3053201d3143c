use rust_epub_reader::highlights::{
    chapter_highlight_ranges, loaded_chapter_highlight_ranges, Highlight, HighlightColor,
};
use std::collections::HashMap;

fn h(chapter: usize, block: usize, s: usize, e: usize, color: HighlightColor) -> Highlight {
    Highlight { chapter, start_block: block, start_offset: s, end_offset: e, color }
}

fn sample() -> Vec<Highlight> {
    vec![
        h(1, 4, 0, 5, HighlightColor::Yellow),
        h(2, 0, 1, 2, HighlightColor::Blue),
        h(1, 2, 3, 9, HighlightColor::Green),
        h(1, 4, 6, 8, HighlightColor::Pink),
        h(5, 1, 0, 1, HighlightColor::Yellow),
    ]
}

#[test]
fn chapter_highlights_group_by_start_block() {
    let g = chapter_highlight_ranges(&sample(), 1);
    let mut expected = HashMap::new();
    expected.insert(4, vec![(0, 5, HighlightColor::Yellow), (6, 8, HighlightColor::Pink)]);
    expected.insert(2, vec![(3, 9, HighlightColor::Green)]);
    assert_eq!(g, expected);
    assert!(chapter_highlight_ranges(&sample(), 3).is_empty());
    assert!(chapter_highlight_ranges(&[], 1).is_empty());
}

#[test]
fn loaded_chapters_keep_only_the_range() {
    let all = loaded_chapter_highlight_ranges(&sample(), 1, 5);
    let mut chapters: Vec<usize> = all.keys().copied().collect();
    chapters.sort();
    assert_eq!(chapters, vec![1, 2]);
    let mut two = HashMap::new();
    two.insert(0, vec![(1, 2, HighlightColor::Blue)]);
    assert_eq!(all[&2], two);
    assert_eq!(all[&1], chapter_highlight_ranges(&sample(), 1));
    let wide = loaded_chapter_highlight_ranges(&sample(), 0, 6);
    assert_eq!(wide.len(), 3);
    assert!(loaded_chapter_highlight_ranges(&sample(), 3, 5).is_empty());
}
