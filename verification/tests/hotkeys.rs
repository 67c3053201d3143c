use rust_epub_reader::boss_key::{
    boss_hotkey_spec_from_key, boss_key_modifiers, boss_key_token_to_vk, default_boss_key,
    is_low_conflict_single_boss_key, key_to_boss_token, normalize_boss_hotkey,
    normalize_boss_key_token, parse_boss_hotkey, BossKeySettings, BossKeyStatus, Key, KeyEvent,
    KeyModifiers, RebindStep, MOD_ALT, MOD_CONTROL, MOD_NOREPEAT, MOD_SHIFT, MOD_WIN,
};

fn no_mods() -> KeyModifiers {
    KeyModifiers { ctrl: false, alt: false, shift: false, mac_cmd: false, command: false }
}

#[test]
fn default_boss_key_is_f1() {
    assert_eq!(default_boss_key(), "F1");
}

#[test]
fn hotkey_text_lists_modifiers_in_fixed_order() {
    assert_eq!(normalize_boss_hotkey(true, true, true, true, "X"), "Ctrl+Alt+Shift+Win+X");
    assert_eq!(normalize_boss_hotkey(false, true, false, false, "F5"), "Alt+F5");
    assert_eq!(normalize_boss_hotkey(false, false, false, false, "Esc"), "Esc");
}

#[test]
fn key_tokens_are_normalized() {
    assert_eq!(normalize_boss_key_token(" f5 "), Some("F5".to_string()));
    assert_eq!(normalize_boss_key_token("escape"), Some("Esc".to_string()));
    assert_eq!(normalize_boss_key_token("PgDn"), Some("PageDown".to_string()));
    assert_eq!(normalize_boss_key_token("q"), Some("Q".to_string()));
    assert_eq!(normalize_boss_key_token("7"), Some("7".to_string()));
    assert_eq!(normalize_boss_key_token("F13"), None);
    assert_eq!(normalize_boss_key_token("F0"), None);
    assert_eq!(normalize_boss_key_token(""), None);
    assert_eq!(normalize_boss_key_token("é"), None);
}

#[test]
fn only_function_keys_are_low_conflict() {
    assert!(is_low_conflict_single_boss_key("F1"));
    assert!(is_low_conflict_single_boss_key("F12"));
    assert!(!is_low_conflict_single_boss_key("F13"));
    assert!(!is_low_conflict_single_boss_key("A"));
    assert!(!is_low_conflict_single_boss_key("f5"));
}

#[test]
fn hotkeys_parse_in_any_case_and_order() {
    let spec = parse_boss_hotkey(" shift + ctrl + q ").unwrap();
    assert_eq!(spec.normalized, "Ctrl+Shift+Q");
    assert!(spec.ctrl && spec.shift && !spec.alt && !spec.win);
    assert_eq!(spec.key_token, "Q");
    let spec = parse_boss_hotkey("Meta+Alt+pageup").unwrap();
    assert_eq!(spec.normalized, "Alt+Win+PageUp");
}

#[test]
fn invalid_hotkeys_are_rejected() {
    assert!(parse_boss_hotkey("Ctrl+A+B").is_none());
    assert!(parse_boss_hotkey("Ctrl+Alt").is_none());
    assert!(parse_boss_hotkey("").is_none());
    assert!(parse_boss_hotkey("Ctrl+Nope").is_none());
}

#[test]
fn parsing_the_normalized_text_gives_it_back() {
    for text in ["Ctrl+Alt+Shift+Win+F12", "Alt+Space", "Win+Left", "F3"] {
        let spec = parse_boss_hotkey(text).unwrap();
        assert_eq!(spec.normalized, text);
    }
}

#[test]
fn virtual_keys_and_modifiers() {
    assert_eq!(boss_key_token_to_vk("F1"), Some(0x70));
    assert_eq!(boss_key_token_to_vk("F12"), Some(0x7B));
    assert_eq!(boss_key_token_to_vk("A"), Some(65));
    assert_eq!(boss_key_token_to_vk("Esc"), Some(0x1B));
    assert_eq!(boss_key_token_to_vk("F13"), None);
    let spec = parse_boss_hotkey("Ctrl+Win+F2").unwrap();
    assert_eq!(boss_key_modifiers(&spec), MOD_NOREPEAT | MOD_CONTROL | MOD_WIN);
    let spec = parse_boss_hotkey("Alt+Shift+F2").unwrap();
    assert_eq!(boss_key_modifiers(&spec), MOD_NOREPEAT | MOD_ALT | MOD_SHIFT);
}

#[test]
fn keys_map_to_tokens() {
    assert_eq!(key_to_boss_token(Key::F5), Some("F5"));
    assert_eq!(key_to_boss_token(Key::Num5), Some("5"));
    assert_eq!(key_to_boss_token(Key::ArrowUp), Some("Up"));
    assert_eq!(key_to_boss_token(Key::Escape), Some("Esc"));
    let mods = KeyModifiers { ctrl: false, alt: false, shift: true, mac_cmd: false, command: true };
    let spec = boss_hotkey_spec_from_key(mods, Key::A).unwrap();
    assert_eq!(spec.normalized, "Shift+Win+A");
}

#[test]
fn single_letter_hotkey_is_refused() {
    let mut s = BossKeySettings::new("F1".to_string());
    s.input = "Q".to_string();
    let step = s.apply_boss_key_from_input(true);
    assert!(step.is_none());
    assert!(matches!(s.status, BossKeyStatus::SingleKeyLimited));
    assert_eq!(s.shortcut, "F1");
}

#[test]
fn garbage_input_is_invalid() {
    let mut s = BossKeySettings::new("F1".to_string());
    s.input = "Ctrl+".to_string();
    assert!(s.apply_boss_key_from_input(true).is_none());
    assert!(matches!(s.status, BossKeyStatus::Invalid));
}

#[test]
fn new_hotkey_is_tried_then_kept_or_reverted() {
    let mut s = BossKeySettings::new("F1".to_string());
    s.input = "ctrl+shift+b".to_string();
    let step = s.apply_boss_key_from_input(true).unwrap();
    let spec = match step {
        RebindStep::TryRegister { spec } => spec,
        _ => panic!("expected a registration attempt"),
    };
    assert_eq!(spec.normalized, "Ctrl+Shift+B");
    assert_eq!(s.shortcut, "Ctrl+Shift+B");

    let restore = s.finish_rebind("F1".to_string(), &spec, false);
    assert_eq!(s.shortcut, "F1");
    assert_eq!(s.input, "F1");
    assert!(matches!(s.status, BossKeyStatus::Conflict));
    assert_eq!(restore.unwrap().normalized, "F1");

    let restore = s.finish_rebind("F1".to_string(), &spec, true);
    assert!(restore.is_none());
    assert_eq!(s.shortcut, "Ctrl+Shift+B");
    match &s.status {
        BossKeyStatus::Active(t) => assert_eq!(t, "Ctrl+Shift+B"),
        _ => panic!("expected an active hotkey"),
    }
}

#[test]
fn hotkeys_are_unsupported_off_windows() {
    let mut s = BossKeySettings::new("F1".to_string());
    s.input = "Alt+F4".to_string();
    let step = s.apply_boss_key_from_input(false).unwrap();
    assert!(matches!(step, RebindStep::Done { .. }));
    assert!(matches!(s.status, BossKeyStatus::Unsupported));
}

#[test]
fn capture_takes_the_first_real_key_press() {
    let mut s = BossKeySettings::new("F1".to_string());
    assert!(s.poll_boss_key_capture(&[], true).is_none());
    s.begin_boss_key_capture();
    assert!(s.capturing);
    let events = [
        KeyEvent { key: Key::F6, pressed: false, repeat: false, modifiers: no_mods() },
        KeyEvent { key: Key::F7, pressed: true, repeat: true, modifiers: no_mods() },
        KeyEvent { key: Key::F8, pressed: true, repeat: false, modifiers: no_mods() },
    ];
    let (i, _step) = s.poll_boss_key_capture(&events, true).unwrap();
    assert_eq!(i, 2);
    assert!(!s.capturing);
    assert_eq!(s.shortcut, "F8");
}

#[test]
fn clearing_and_cancelling() {
    let mut s = BossKeySettings::new("F2".to_string());
    s.begin_boss_key_capture();
    s.cancel_boss_key_capture();
    assert!(!s.capturing);
    s.clear_boss_key();
    assert_eq!(s.shortcut, "");
    assert_eq!(s.input, "");
}

#[test]
fn plus_inside_a_function_key_does_not_read_back() {
    // `u8::from_str` accepts a leading `+`, so "F+5" is a valid key name,
    // but its hotkey text splits at that `+`.
    assert_eq!(normalize_boss_key_token("F+5"), Some("F+5".to_string()));
    let text = normalize_boss_hotkey(true, false, false, false, "F+5");
    assert_eq!(text, "Ctrl+F+5");
    assert!(parse_boss_hotkey(&text).is_none());
    assert_eq!(normalize_boss_key_token("f05"), Some("F05".to_string()));
    assert_eq!(parse_boss_hotkey("Ctrl+F05").unwrap().normalized, "Ctrl+F05");
}

#[test]
fn captured_key_applies_the_hotkey() {
    let mut s = BossKeySettings::new("F1".to_string());
    s.begin_boss_key_capture();
    let mods = KeyModifiers { ctrl: true, alt: false, shift: true, mac_cmd: false, command: false };
    let events = [KeyEvent { key: Key::Q, pressed: true, repeat: false, modifiers: mods }];
    let (i, step) = s.poll_boss_key_capture(&events, true).unwrap();
    assert_eq!(i, 0);
    assert_eq!(s.shortcut, "Ctrl+Shift+Q");
    assert_eq!(s.input, "Ctrl+Shift+Q");
    match step {
        Some(RebindStep::TryRegister { spec }) => assert_eq!(spec.normalized, "Ctrl+Shift+Q"),
        _ => panic!("expected a registration attempt"),
    }
    s.begin_boss_key_capture();
    let events = [KeyEvent { key: Key::Q, pressed: true, repeat: false, modifiers: no_mods() }];
    let (_, step) = s.poll_boss_key_capture(&events, true).unwrap();
    assert!(step.is_none());
    assert!(!s.capturing);
    assert!(matches!(s.status, BossKeyStatus::SingleKeyLimited));
    assert_eq!(s.shortcut, "Ctrl+Shift+Q");
}

#[test]
fn parsed_hotkeys_read_back_from_their_text() {
    for text in ["ctrl + shift + q", " alt+F5 ", "Win+pgdn", "F12", "control+Esc"] {
        let spec = parse_boss_hotkey(text).unwrap();
        let again = parse_boss_hotkey(&spec.normalized).unwrap();
        assert_eq!(again.normalized, spec.normalized);
        assert_eq!((again.ctrl, again.alt, again.shift, again.win), (spec.ctrl, spec.alt, spec.shift, spec.win));
        assert_eq!(again.key_token, spec.key_token);
    }
}

#[test]
fn captured_key_names_are_canonical() {
    for key in [Key::F1, Key::F10, Key::ArrowUp, Key::Num0, Key::PageDown, Key::Z, Key::Escape] {
        let name = key_to_boss_token(key).unwrap();
        assert_eq!(normalize_boss_key_token(name), Some(name.to_string()));
    }
    assert_eq!(key_to_boss_token(Key::F1), Some("F1"));
    assert_eq!(key_to_boss_token(Key::ArrowUp), Some("Up"));
    assert_eq!(key_to_boss_token(Key::Num0), Some("0"));
    assert_eq!(key_to_boss_token(Key::PageDown), Some("PageDown"));
}
