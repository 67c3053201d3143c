use rust_epub_reader::settings::{
    debug_enabled_from_args, default_reader_toolbar_visible, default_text_indent, generate_pin,
    pin_from_random,
};

#[test]
fn debug_flag_should_be_detected() {
    assert!(debug_enabled_from_args(&["--debug"]));
    assert!(debug_enabled_from_args(&["-d"]));
    assert!(debug_enabled_from_args(&["--foo", "--debug"]));
}

#[test]
fn debug_flag_should_be_disabled_by_default() {
    assert!(!debug_enabled_from_args(&[]));
    assert!(!debug_enabled_from_args(&["--help"]));
}

#[test]
fn debug_flag_must_match_exactly() {
    assert!(!debug_enabled_from_args(&["--debugging"]));
    assert!(!debug_enabled_from_args(&["-D"]));
}

#[test]
fn settings_defaults() {
    assert_eq!(default_text_indent(), 2);
    assert!(!default_reader_toolbar_visible());
}

#[test]
fn pin_is_last_four_digits_zero_padded() {
    assert_eq!(pin_from_random(123), "0123");
    assert_eq!(pin_from_random(987654321), "4321");
    assert_eq!(pin_from_random(10000), "0000");
}

#[test]
fn generated_pin_has_four_digits() {
    let pin = generate_pin().expect("the operating system supplies randomness");
    assert_eq!(pin.len(), 4);
    assert!(pin.chars().all(|c| c.is_ascii_digit()));
}
