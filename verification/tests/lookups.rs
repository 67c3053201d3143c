use rust_epub_reader::lookup::{dictionary_url, translate_url};

#[test]
fn translation_links_are_percent_encoded() {
    assert_eq!(
        translate_url("hello world!"),
        "https://translate.google.com/?sl=auto&tl=en&text=hello%20world%21"
    );
    assert_eq!(
        translate_url("中文-a_b.c~"),
        "https://translate.google.com/?sl=auto&tl=en&text=%E4%B8%AD%E6%96%87-a_b.c~"
    );
    assert_eq!(translate_url("😀"), "https://translate.google.com/?sl=auto&tl=en&text=%F0%9F%98%80");
    assert_eq!(translate_url("é"), "https://translate.google.com/?sl=auto&tl=en&text=%C3%A9");
}

#[test]
fn lookups_take_a_bounded_prefix() {
    let long: String = std::iter::repeat('字').take(30).collect();
    let expected: String = std::iter::repeat('字').take(20).collect();
    assert_eq!(dictionary_url(&long), format!("https://www.zdic.net/hans/{expected}"));
    assert_eq!(dictionary_url("书"), "https://www.zdic.net/hans/书");
    let many: String = std::iter::repeat('a').take(250).collect();
    let url = translate_url(&many);
    assert_eq!(url.len(), "https://translate.google.com/?sl=auto&tl=en&text=".len() + 200);
}
