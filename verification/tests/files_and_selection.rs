use rust_epub_reader::digest::sha256_hex;
use rust_epub_reader::files::{is_font_file, normalize_epub_href};
use rust_epub_reader::selection::{AppView, TextSelection};

#[test]
fn font_files_by_extension() {
    assert!(is_font_file("simsun.ttc"));
    assert!(is_font_file("Arial.TTF"));
    assert!(is_font_file("x.otf"));
    assert!(is_font_file("y.OTC"));
    assert!(!is_font_file("readme.txt"));
    assert!(!is_font_file("ttf"));
    assert!(!is_font_file("archive.ttf.zip"));
}

#[test]
fn epub_hrefs_are_normalized() {
    assert_eq!(normalize_epub_href(" ./OEBPS/ch1.xhtml#frag "), "OEBPS/ch1.xhtml");
    assert_eq!(normalize_epub_href("/text/a.html/"), "text/a.html");
    assert_eq!(normalize_epub_href("#only-fragment"), "");
    assert_eq!(normalize_epub_href("   "), "");
    assert_eq!(normalize_epub_href("./././x.html"), "x.html");
}

#[test]
fn selections_are_ordered() {
    let back = TextSelection { start_block: 5, start_char: 2, end_block: 3, end_char: 9, is_dragging: false };
    assert_eq!(back.normalized(), (3, 9));
    assert_eq!(back.normalized_range(), (3, 9, 5, 2));
    let fwd = TextSelection { start_block: 1, start_char: 4, end_block: 1, end_char: 7, is_dragging: true };
    assert_eq!(fwd.normalized(), (1, 4));
    assert_eq!(fwd.normalized_range(), (1, 4, 1, 7));
    let same_block_back = TextSelection { start_block: 2, start_char: 8, end_block: 2, end_char: 1, is_dragging: false };
    assert_eq!(same_block_back.normalized_range(), (2, 1, 2, 8));
}

#[test]
fn app_views_compare() {
    assert!(AppView::Library == AppView::Library);
    assert!(AppView::Library != AppView::Reader);
}

#[test]
fn sha256_as_lowercase_hex() {
    assert_eq!(sha256_hex(b"abc"), "ba7816bf8f01cfea414140de5dae2223b00361a396177a9cb410ff61f20015ad");
    assert_eq!(sha256_hex(b""), "e3b0c44298fc1c149afbf4c8996fb92427ae41e4649b934ca495991b7852b855");
}

#[test]
fn drag_direction_does_not_matter() {
    let a = TextSelection { start_block: 2, start_char: 5, end_block: 7, end_char: 1, is_dragging: false };
    let b = TextSelection { start_block: 7, start_char: 1, end_block: 2, end_char: 5, is_dragging: true };
    assert_eq!(a.normalized_range(), b.normalized_range());
    assert_eq!(a.normalized(), b.normalized());
}
