use rust_epub_reader::reading::ReadingPosition;
use rust_epub_reader::tts::{
    block_text, next_readable_block, next_readable_position, page_for_block, text_from_char,
    tts_advance_to_next_block, tts_follow_current_position, tts_start_block,
    tts_start_from_position, ContentBlock, FollowAction, PrefetchStatus, TtsAdvance, TtsCursor,
};

fn para(t: &str) -> ContentBlock {
    ContentBlock::Paragraph { text: t.to_string() }
}

#[test]
fn maps_blocks_to_single_and_dual_pages() {
    let ranges = [(0, 3), (3, 6), (6, 9), (9, 12)];
    assert_eq!(page_for_block(&ranges, 7, false), Some(2));
    assert_eq!(page_for_block(&ranges, 10, true), Some(2));
    assert_eq!(page_for_block(&ranges, 12, false), None);
}

#[test]
fn skips_non_text_blocks() {
    let blocks = [
        ContentBlock::BlankLine,
        ContentBlock::Separator,
        ContentBlock::Paragraph { text: String::new() },
    ];
    assert_eq!(next_readable_block(&blocks, 0), 2);
    assert_eq!(next_readable_block(&blocks, 3), 3);
}

#[test]
fn starts_text_at_unicode_character_offset() {
    assert_eq!(text_from_char("中文，English!", 3), "English!");
}

#[test]
fn text_from_char_past_the_end_is_empty() {
    assert_eq!(text_from_char("abc", 3), "");
    assert_eq!(text_from_char("abc", 10), "");
    assert_eq!(text_from_char("abc", 0), "abc");
}

#[test]
fn next_position_moves_to_later_chapters() {
    let chapters = vec![
        vec![para("a"), ContentBlock::Separator],
        vec![ContentBlock::Other],
        vec![ContentBlock::BlankLine, ContentBlock::Heading { text: "h".to_string() }],
    ];
    assert_eq!(next_readable_position(&chapters, 0, 0), Some((0, 0)));
    assert_eq!(next_readable_position(&chapters, 0, 1), Some((2, 1)));
    assert_eq!(next_readable_position(&chapters, 2, 2), None);
    assert_eq!(block_text(&chapters, 2, 1), "h");
    assert_eq!(block_text(&chapters, 0, 1), "");
    assert_eq!(block_text(&chapters, 9, 0), "");
}

#[test]
fn advancing_uses_matching_prefetch_only() {
    let chapters = vec![vec![para("a"), ContentBlock::Separator, para("b")], vec![para("c")]];
    let mut cur = TtsCursor { chapter: 0, block: 0, char_offset: 4 };
    let a = tts_advance_to_next_block(&mut cur, &chapters, Some((0, 2, PrefetchStatus::Ready)));
    assert!(matches!(a, TtsAdvance::PlayPrefetched));
    assert_eq!(cur, TtsCursor { chapter: 0, block: 2, char_offset: 0 });

    let a = tts_advance_to_next_block(&mut cur, &chapters, Some((0, 2, PrefetchStatus::Pending)));
    assert!(matches!(a, TtsAdvance::Synthesize));
    assert_eq!(cur, TtsCursor { chapter: 1, block: 0, char_offset: 0 });

    let a = tts_advance_to_next_block(&mut cur, &chapters, None);
    assert!(matches!(a, TtsAdvance::BookFinished));
    assert_eq!(cur, TtsCursor { chapter: 1, block: 0, char_offset: 0 });
}

#[test]
fn advancing_reports_failed_prefetch() {
    let chapters = vec![vec![para("a"), para("b")]];
    let mut cur = TtsCursor { chapter: 0, block: 0, char_offset: 0 };
    let a = tts_advance_to_next_block(
        &mut cur,
        &chapters,
        Some((0, 1, PrefetchStatus::Failed("net down".to_string()))),
    );
    match a {
        TtsAdvance::PrefetchFailed(m) => assert_eq!(m, "net down"),
        _ => panic!("expected a failed prefetch"),
    }
    let mut cur = TtsCursor { chapter: 0, block: 0, char_offset: 0 };
    let a = tts_advance_to_next_block(&mut cur, &chapters, Some((0, 1, PrefetchStatus::Pending)));
    assert!(matches!(a, TtsAdvance::AwaitPrefetch));
}

#[test]
fn reading_starts_at_the_first_readable_block() {
    let chapters = vec![vec![ContentBlock::Separator, para("a"), para("b")], vec![ContentBlock::Other]];
    assert_eq!(
        tts_start_from_position(&chapters, 0, 2, 5),
        Some(TtsCursor { chapter: 0, block: 2, char_offset: 5 })
    );
    assert_eq!(
        tts_start_from_position(&chapters, 0, 0, 5),
        Some(TtsCursor { chapter: 0, block: 1, char_offset: 0 })
    );
    assert_eq!(tts_start_from_position(&chapters, 1, 0, 0), None);
    assert_eq!(
        tts_start_from_position(&chapters, 7, 0, 3),
        Some(TtsCursor { chapter: 7, block: 0, char_offset: 3 })
    );
    assert_eq!(tts_start_block(false, 9, &[(0, 4), (4, 8)], 1), 4);
    assert_eq!(tts_start_block(true, 9, &[(0, 4), (4, 8)], 1), 9);
    assert_eq!(tts_start_block(false, 9, &[(0, 4)], 3), 9);
}

#[test]
fn the_view_follows_the_spoken_block() {
    let ranges = [(0, 3), (3, 6), (6, 9)];
    let pos = ReadingPosition { chapter: 0, page: 0, scroll_to_top: false, pages_dirty: false };
    let cur = TtsCursor { chapter: 0, block: 7, char_offset: 0 };
    assert_eq!(tts_follow_current_position(true, &pos, &cur, false, &ranges, false), FollowAction::TurnToPage(2));
    assert_eq!(tts_follow_current_position(false, &pos, &cur, false, &ranges, false), FollowAction::Nothing);
    assert_eq!(tts_follow_current_position(true, &pos, &cur, true, &ranges, false), FollowAction::RestoreBlock(7));
    let other = TtsCursor { chapter: 2, block: 1, char_offset: 0 };
    assert_eq!(
        tts_follow_current_position(true, &pos, &other, false, &ranges, false),
        FollowAction::GoToChapter { chapter: 2, restore_block: 1 }
    );
    let on_page = TtsCursor { chapter: 0, block: 1, char_offset: 0 };
    assert_eq!(tts_follow_current_position(true, &pos, &on_page, false, &ranges, false), FollowAction::Nothing);
}
