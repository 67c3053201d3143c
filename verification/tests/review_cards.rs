use rust_epub_reader::review::{format_timestamp, format_unix_timestamp, is_leap_year, parse_review_card};

#[test]
fn leap_years() {
    assert!(is_leap_year(2000));
    assert!(is_leap_year(2024));
    assert!(!is_leap_year(1900));
    assert!(!is_leap_year(2023));
}

#[test]
fn unix_timestamps_format_as_utc_minutes() {
    assert_eq!(format_unix_timestamp(0), "1970-01-01 00:00");
    assert_eq!(format_unix_timestamp(1770036499), "2026-02-02 12:48");
    assert_eq!(format_unix_timestamp(951782400), "2000-02-29 00:00");
    assert_eq!(format_unix_timestamp(86399), "1970-01-01 23:59");
}

#[test]
fn non_numeric_timestamps_are_kept() {
    assert_eq!(format_timestamp("1770036499"), "2026-02-02 12:48");
    assert_eq!(format_timestamp("yesterday"), "yesterday");
    assert_eq!(format_timestamp(""), "");
}

#[test]
fn review_cards_parse_with_full_and_ascii_colons() {
    let card = parse_review_card("1. 【内容】 作者：吃草莓布丁吗 | 时间：1770036499 | 赞：52").unwrap();
    assert_eq!(card.index, 1);
    assert_eq!(card.content, "【内容】");
    assert_eq!(card.author, "吃草莓布丁吗");
    assert_eq!(card.timestamp, "1770036499");
    assert_eq!(card.likes, 52);

    let card = parse_review_card("  12. 好书 作者:someone ｜ 时间:123 ｜ 赞:0 ").unwrap();
    assert_eq!(card.index, 12);
    assert_eq!(card.content, "好书");
    assert_eq!(card.author, "someone");
    assert_eq!(card.timestamp, "123");
    assert_eq!(card.likes, 0);
}

#[test]
fn malformed_review_cards_are_rejected() {
    assert!(parse_review_card("no index here").is_none());
    assert!(parse_review_card("1. 内容 作者：a | 时间：1").is_none());
    assert!(parse_review_card("1. 内容 作者：a | 时间：1 | 赞：x").is_none());
    assert!(parse_review_card("1. 内容 没有作者 | 时间：1 | 赞：2").is_none());
    assert!(parse_review_card("x. 内容 作者：a | 时间：1 | 赞：2").is_none());
    assert!(parse_review_card("普通段落").is_none());
    assert!(parse_review_card("1. 内容 作者：a | 1 | 赞：2").is_none());
    assert!(parse_review_card("1. 内容 作者：a | 时间：1 | 2").is_none());
}
