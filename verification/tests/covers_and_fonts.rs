use rust_epub_reader::cover::apply_rounded_corners_rgba;
use rust_epub_reader::fonts::{font_display_name_of, system_font_catalog};

fn image(w: u32, h: u32) -> Vec<u8> {
    let mut v = Vec::new();
    for i in 0..(w * h) {
        v.extend_from_slice(&[i as u8, 1, 2, 255]);
    }
    v
}

#[test]
fn corners_become_transparent() {
    let mut px = image(10, 10);
    apply_rounded_corners_rgba(&mut px, 10, 10, 5);
    let alpha = |x: usize, y: usize| px[4 * (y * 10 + x) + 3];
    for (x, y) in [(0, 0), (9, 0), (0, 9), (9, 9)] {
        assert_eq!(alpha(x, y), 0);
    }
    let cleared = (0..100).filter(|p| px[4 * p + 3] == 0).count();
    assert_eq!(cleared, 4);
    assert_eq!(alpha(1, 0), 255);
    assert_eq!(px[0], 0);
    assert_eq!(px[1], 1);
    assert_eq!(px[2], 2);
}

#[test]
fn larger_radius_clears_more_and_is_capped() {
    let mut a = image(20, 10);
    apply_rounded_corners_rgba(&mut a, 20, 10, 100);
    let mut b = image(20, 10);
    apply_rounded_corners_rgba(&mut b, 20, 10, 5);
    assert_eq!(a, b);
    let cleared = (0..200).filter(|p| a[4 * p + 3] == 0).count();
    assert_eq!(cleared, 4);
    let mut c = image(40, 40);
    apply_rounded_corners_rgba(&mut c, 40, 40, 20);
    let cleared = (0..1600).filter(|p| c[4 * p + 3] == 0).count();
    assert!(cleared > 4);
    assert_eq!(c[4 * (20 * 40 + 20) + 3], 255);
}

#[test]
fn zero_radius_or_empty_images_are_untouched() {
    let mut px = image(6, 6);
    let orig = px.clone();
    apply_rounded_corners_rgba(&mut px, 6, 6, 0);
    assert_eq!(px, orig);
    apply_rounded_corners_rgba(&mut px, 6, 6, 1);
    assert_eq!(px, orig);
    let mut empty: Vec<u8> = Vec::new();
    apply_rounded_corners_rgba(&mut empty, 0, 5, 3);
    assert!(empty.is_empty());
}

#[test]
fn font_names_are_friendly_or_cleaned() {
    assert_eq!(font_display_name_of("msyh").as_deref(), Some("微软雅黑"));
    assert_eq!(font_display_name_of("NotoSansCJKsc-Regular").as_deref(), Some("Noto Sans CJK SC"));
    assert_eq!(font_display_name_of("DejaVu_Sans-Bold").as_deref(), Some("DejaVu Sans Bold"));
    assert_eq!(font_display_name_of("_-_"), None);
}

#[test]
fn catalog_lists_cjk_first_then_alphabetically() {
    let files: Vec<(String, String)> = [
        ("zeta", "/f/zeta.ttf"),
        ("msyh", "/f/msyh.ttc"),
        ("Arial_Bold", "/f/arialbd.ttf"),
        ("__", "/f/blank.ttf"),
        ("msyh", "/g/msyh.ttc"),
        ("NotoSansCJKsc-Regular", "/f/noto.otf"),
        ("beta", "/f/beta.ttf"),
    ]
    .iter()
    .map(|(a, b)| (a.to_string(), b.to_string()))
    .collect();
    let (names, map) = system_font_catalog(&files);
    assert_eq!(names, vec!["Noto Sans CJK SC", "微软雅黑", "Arial Bold", "beta", "zeta"]);
    assert_eq!(map.len(), 5);
    assert!(map.contains(&("微软雅黑".to_string(), "/f/msyh.ttc".to_string())));
    assert!(!map.iter().any(|(_, p)| p == "/g/msyh.ttc"));
}

#[test]
fn rounding_twice_is_rounding_once() {
    let mut once = image(12, 8);
    apply_rounded_corners_rgba(&mut once, 12, 8, 4);
    let mut twice = once.clone();
    apply_rounded_corners_rgba(&mut twice, 12, 8, 4);
    assert_eq!(once, twice);
}
