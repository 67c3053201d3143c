use rust_epub_reader::review_panel::{review_filtered_blocks, AnchoredBlock, ReviewPanel};

fn heading(id: Option<&str>) -> AnchoredBlock {
    AnchoredBlock::Heading { anchor_id: id.map(|s| s.to_string()) }
}

fn paragraph(id: Option<&str>) -> AnchoredBlock {
    AnchoredBlock::Paragraph { anchor_id: id.map(|s| s.to_string()) }
}

fn chapter() -> Vec<AnchoredBlock> {
    vec![
        heading(Some("a1")),
        paragraph(None),
        AnchoredBlock::Other,
        heading(Some("a2")),
        paragraph(Some("a3")),
        paragraph(None),
        heading(None),
        paragraph(None),
    ]
}

#[test]
fn anchor_group_runs_to_the_next_heading() {
    let blocks = chapter();
    assert_eq!(review_filtered_blocks(&blocks, Some("a1"), false), vec![0, 1, 2]);
    assert_eq!(review_filtered_blocks(&blocks, Some("a2"), false), vec![3, 4, 5]);
    assert_eq!(review_filtered_blocks(&blocks, Some("a3"), false), vec![4, 5]);
}

#[test]
fn no_anchor_show_all_or_no_match_shows_everything() {
    let blocks = chapter();
    let all: Vec<usize> = (0..blocks.len()).collect();
    assert_eq!(review_filtered_blocks(&blocks, None, false), all);
    assert_eq!(review_filtered_blocks(&blocks, Some("a1"), true), all);
    assert_eq!(review_filtered_blocks(&blocks, Some("missing"), false), all);
    assert_eq!(review_filtered_blocks(&[], Some("a1"), false), Vec::<usize>::new());
}

#[test]
fn headings_with_the_same_anchor_stay_in_the_group() {
    let blocks = vec![
        paragraph(None),
        heading(Some("x")),
        paragraph(None),
        heading(Some("x")),
        paragraph(Some("x")),
        heading(Some("y")),
        paragraph(None),
    ];
    assert_eq!(review_filtered_blocks(&blocks, Some("x"), false), vec![1, 2, 3, 4]);
}

#[test]
fn opening_from_an_anchor_shows_the_filtered_view() {
    let mut panel = ReviewPanel::new();
    panel.show_all = true;
    panel.open_from_link(3, "reviews.xhtml#p12");
    assert!(panel.open);
    assert_eq!(panel.chapter, Some(3));
    assert_eq!(panel.anchor.as_deref(), Some("p12"));
    panel.begin_frame();
    assert!(!panel.show_all);
    assert!(!panel.just_opened);
    panel.toggle_show_all();
    panel.begin_frame();
    assert!(panel.show_all);
    let blocks = vec![heading(Some("p11")), paragraph(Some("p12")), paragraph(None)];
    assert_eq!(panel.visible_blocks(&blocks), vec![0, 1, 2]);
    panel.toggle_show_all();
    assert_eq!(panel.visible_blocks(&blocks), vec![1, 2]);
}

#[test]
fn link_without_anchor_keeps_the_view_and_close_forgets() {
    let mut panel = ReviewPanel::new();
    panel.show_all = true;
    panel.open_from_link(1, "reviews.xhtml");
    assert_eq!(panel.anchor, None);
    panel.begin_frame();
    assert!(panel.show_all);
    panel.open_from_link(2, "a#b#c");
    assert_eq!(panel.anchor.as_deref(), Some("b"));
    panel.close();
    assert!(!panel.open);
    assert_eq!(panel.chapter, None);
    assert_eq!(panel.anchor, None);
}
