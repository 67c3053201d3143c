//! The "boss key": a global hotkey that hides the reader window.
//!
//! Hotkeys are written as `Ctrl+Alt+Shift+Win+Key`; this module parses such
//! text, normalizes key names, maps keys to Win32 virtual-key codes and decides
//! how the settings react when the user picks a new hotkey.
use vstd::prelude::*;
use crate::text::{
    all_digits, digit_value, digits_value, ascii_upper, ascii_upper_chars, trim_start, trim_end, is_white_space, free_of, chars_eq, chars_of, extend_chars, parse_u64, parse_unsigned,
    opt_view, slice_range, split_chars, split_on, string_of, trim, trim_chars, views,
};

verus! {

/// The hotkey bound when the user has not chosen one.
pub fn default_boss_key() -> (s: String)
    ensures
        s@ == "F1"@,
{
    String::from_str("F1")
}

/// `"Ctrl+"`, `"Alt+"`, ... for the modifiers that are set, followed by the key.
pub open spec fn hotkey_text(ctrl: bool, alt: bool, shift: bool, win: bool, key: Seq<char>) -> Seq<
    char,
> {
    (if ctrl {
        "Ctrl+"@
    } else {
        Seq::empty()
    }) + (if alt {
        "Alt+"@
    } else {
        Seq::empty()
    }) + (if shift {
        "Shift+"@
    } else {
        Seq::empty()
    }) + (if win {
        "Win+"@
    } else {
        Seq::empty()
    }) + key
}

/// The canonical text of a hotkey: set modifiers in the order
/// Ctrl, Alt, Shift, Win, then the key, joined by `+`.
pub fn normalize_boss_hotkey(ctrl: bool, alt: bool, shift: bool, win: bool, key_token: &str) -> (s:
    String)
    ensures
        s@ == hotkey_text(ctrl, alt, shift, win, key_token@),
{
    let mut v: Vec<char> = Vec::new();
    if ctrl {
        extend_chars(&mut v, &chars_of("Ctrl+"));
    }
    if alt {
        extend_chars(&mut v, &chars_of("Alt+"));
    }
    if shift {
        extend_chars(&mut v, &chars_of("Shift+"));
    }
    if win {
        extend_chars(&mut v, &chars_of("Win+"));
    }
    extend_chars(&mut v, &chars_of(key_token));
    string_of(&v)
}

/// An ASCII letter or digit.
pub open spec fn is_ascii_alnum(c: char) -> bool {
    ('0' <= c && c <= '9') || ('A' <= c && c <= 'Z') || ('a' <= c && c <= 'z')
}

/// `F1` ... `F12` as `from_str` reads the number after the `F` (so `F05`
/// and `F+5` count too).
pub open spec fn is_function_key_name(s: Seq<char>) -> bool {
    s.len() > 0 && s[0] == 'F' && match parse_unsigned(s.drop_first()) {
        Some(n) => 1 <= n <= 12,
        None => false,
    }
}

/// The canonical name of a key typed by the user, looked up after trimming
/// and upper-casing it (ASCII): named keys get their canonical spelling, a
/// single ASCII letter or digit and `F1`..`F12` are kept upper-cased, and
/// anything else is not a key.
pub open spec fn key_token_spec(token: Seq<char>) -> Option<Seq<char>> {
    let up = trim(token).map_values(|c: char| ascii_upper(c));
    if up.len() == 0 {
        None
    } else if up == "ESC"@ || up == "ESCAPE"@ {
        Some("Esc"@)
    } else if up == "SPACE"@ {
        Some("Space"@)
    } else if up == "ENTER"@ || up == "RETURN"@ {
        Some("Enter"@)
    } else if up == "TAB"@ {
        Some("Tab"@)
    } else if up == "BACKSPACE"@ {
        Some("Backspace"@)
    } else if up == "INSERT"@ || up == "INS"@ {
        Some("Insert"@)
    } else if up == "DELETE"@ || up == "DEL"@ {
        Some("Delete"@)
    } else if up == "HOME"@ {
        Some("Home"@)
    } else if up == "END"@ {
        Some("End"@)
    } else if up == "PAGEUP"@ || up == "PGUP"@ {
        Some("PageUp"@)
    } else if up == "PAGEDOWN"@ || up == "PGDN"@ {
        Some("PageDown"@)
    } else if up == "LEFT"@ {
        Some("Left"@)
    } else if up == "RIGHT"@ {
        Some("Right"@)
    } else if up == "UP"@ {
        Some("Up"@)
    } else if up == "DOWN"@ {
        Some("Down"@)
    } else if up.len() == 1 && is_ascii_alnum(up[0]) {
        Some(up)
    } else if is_function_key_name(up) {
        Some(up)
    } else {
        None
    }
}

/// Whether `v` is the text of `lit`.
fn is_lit(v: &Vec<char>, lit: &str) -> (b: bool)
    ensures
        b == (v@ == lit@),
{
    chars_eq(v, &chars_of(lit))
}

/// Whether `v` names one of the function keys F1..F12.
fn is_function_key_chars(v: &[char]) -> (b: bool)
    ensures
        b == is_function_key_name(v@),
{
    if v.len() == 0 || v[0] != 'F' {
        return false;
    }
    let rest = slice_range(v, 1, v.len());
    assert(rest@ == v@.drop_first());
    match parse_u64(&rest) {
        Some(n) => 1 <= n && n <= 12,
        None => false,
    }
}

/// The canonical name of the key the user typed, if it is one.
pub fn normalize_boss_key_token(token: &str) -> (r: Option<String>)
    ensures
        r matches Some(s) ==> key_token_spec(token@) == Some(s@),
        r is None ==> key_token_spec(token@) is None,
{
    let raw = chars_of(token);
    let trimmed = trim_chars(&raw);
    let up = ascii_upper_chars(&trimmed);
    if up.len() == 0 {
        None
    } else if is_lit(&up, "ESC") || is_lit(&up, "ESCAPE") {
        Some(String::from_str("Esc"))
    } else if is_lit(&up, "SPACE") {
        Some(String::from_str("Space"))
    } else if is_lit(&up, "ENTER") || is_lit(&up, "RETURN") {
        Some(String::from_str("Enter"))
    } else if is_lit(&up, "TAB") {
        Some(String::from_str("Tab"))
    } else if is_lit(&up, "BACKSPACE") {
        Some(String::from_str("Backspace"))
    } else if is_lit(&up, "INSERT") || is_lit(&up, "INS") {
        Some(String::from_str("Insert"))
    } else if is_lit(&up, "DELETE") || is_lit(&up, "DEL") {
        Some(String::from_str("Delete"))
    } else if is_lit(&up, "HOME") {
        Some(String::from_str("Home"))
    } else if is_lit(&up, "END") {
        Some(String::from_str("End"))
    } else if is_lit(&up, "PAGEUP") || is_lit(&up, "PGUP") {
        Some(String::from_str("PageUp"))
    } else if is_lit(&up, "PAGEDOWN") || is_lit(&up, "PGDN") {
        Some(String::from_str("PageDown"))
    } else if is_lit(&up, "LEFT") {
        Some(String::from_str("Left"))
    } else if is_lit(&up, "RIGHT") {
        Some(String::from_str("Right"))
    } else if is_lit(&up, "UP") {
        Some(String::from_str("Up"))
    } else if is_lit(&up, "DOWN") {
        Some(String::from_str("Down"))
    } else if up.len() == 1 && (('0' <= up[0] && up[0] <= '9') || ('A' <= up[0] && up[0] <= 'Z')
        || ('a' <= up[0] && up[0] <= 'z')) {
        Some(string_of(&up))
    } else if is_function_key_chars(&up) {
        Some(string_of(&up))
    } else {
        None
    }
}

/// Whether a hotkey without modifiers is allowed: only F1..F12, which rarely
/// clash with typing.
pub fn is_low_conflict_single_boss_key(token: &str) -> (b: bool)
    ensures
        b == is_function_key_name(token@),
{
    is_function_key_chars(&chars_of(token))
}


/// A parsed hotkey.
#[derive(Clone, Debug)]
pub struct BossHotkeySpec {
    /// Canonical text, as `normalize_boss_hotkey` writes it.
    pub normalized: String,
    pub ctrl: bool,
    pub alt: bool,
    pub shift: bool,
    pub win: bool,
    /// Canonical name of the non-modifier key.
    pub key_token: String,
}

/// Modifiers seen so far and the key, if any, while reading a hotkey.
pub type HotkeyScan = (bool, bool, bool, bool, Option<Seq<char>>);

/// Reading one `+`-separated piece of a hotkey: blank pieces are skipped,
/// modifier names (any ASCII case) set their flag, and any other piece is the
/// key; a second key piece after a recognised key makes the whole text invalid.
pub open spec fn hotkey_step(st: HotkeyScan, raw: Seq<char>) -> Option<HotkeyScan> {
    let token = trim(raw);
    let up = token.map_values(|c: char| ascii_upper(c));
    if token.len() == 0 {
        Some(st)
    } else if up == "CTRL"@ || up == "CONTROL"@ {
        Some((true, st.1, st.2, st.3, st.4))
    } else if up == "ALT"@ {
        Some((st.0, true, st.2, st.3, st.4))
    } else if up == "SHIFT"@ {
        Some((st.0, st.1, true, st.3, st.4))
    } else if up == "WIN"@ || up == "WINDOWS"@ || up == "META"@ {
        Some((st.0, st.1, st.2, true, st.4))
    } else if st.4 is Some {
        None
    } else {
        Some((st.0, st.1, st.2, st.3, key_token_spec(token)))
    }
}

/// Reading the pieces in order, from no modifiers and no key.
pub open spec fn hotkey_scan(pieces: Seq<Seq<char>>) -> Option<HotkeyScan>
    decreases pieces.len(),
{
    if pieces.len() == 0 {
        Some((false, false, false, false, None))
    } else {
        match hotkey_scan(pieces.drop_last()) {
            Some(st) => hotkey_step(st, pieces.last()),
            None => None,
        }
    }
}

/// The hotkey that `input` describes: `(ctrl, alt, shift, win, key)`, or
/// `None` when it names no valid key or two keys.
pub open spec fn parse_hotkey_spec(input: Seq<char>) -> Option<(bool, bool, bool, bool, Seq<char>)> {
    match hotkey_scan(split_on(input, '+')) {
        Some((c, a, s, w, Some(k))) => Some((c, a, s, w, k)),
        _ => None,
    }
}

impl BossHotkeySpec {
    /// The fields describe the hotkey `h` and `normalized` is its canonical text.
    pub open spec fn describes(&self, h: (bool, bool, bool, bool, Seq<char>)) -> bool {
        &&& self.ctrl == h.0
        &&& self.alt == h.1
        &&& self.shift == h.2
        &&& self.win == h.3
        &&& self.key_token@ == h.4
        &&& self.normalized@ == hotkey_text(h.0, h.1, h.2, h.3, h.4)
    }

    /// No modifier is set.
    pub open spec fn is_single_key(&self) -> bool {
        !self.ctrl && !self.alt && !self.shift && !self.win
    }
}

/// Parses hotkey text such as `ctrl + shift + q`.
pub fn parse_boss_hotkey(input: &str) -> (r: Option<BossHotkeySpec>)
    ensures
        r matches Some(spec) ==> parse_hotkey_spec(input@) matches Some(h) && spec.describes(h),
        r is None ==> parse_hotkey_spec(input@) is None,
{
    let chars = chars_of(input);
    let pieces = split_chars(&chars, '+');
    let mut ctrl = false;
    let mut alt = false;
    let mut shift = false;
    let mut win = false;
    let mut key_token: Option<String> = None;
    let ghost all = views(pieces@);
    let mut k: usize = 0;
    while k < pieces.len()
        invariant
            k <= pieces.len(),
            all == views(pieces@),
            all == split_on(input@, '+'),
            hotkey_scan(all.take(k as int)) == Some(
                (ctrl, alt, shift, win, opt_view(key_token)),
            ),
        decreases pieces.len() - k,
    {
        let ghost st: HotkeyScan = (ctrl, alt, shift, win, opt_view(key_token));
        assert(all.take(k + 1).drop_last() == all.take(k as int));
        assert(all.take(k + 1).last() == pieces@[k as int]@);
        let token = trim_chars(&pieces[k]);
        if token.len() == 0 {
        } else {
            let up = ascii_upper_chars(&token);
            if is_lit(&up, "CTRL") || is_lit(&up, "CONTROL") {
                ctrl = true;
            } else if is_lit(&up, "ALT") {
                alt = true;
            } else if is_lit(&up, "SHIFT") {
                shift = true;
            } else if is_lit(&up, "WIN") || is_lit(&up, "WINDOWS") || is_lit(&up, "META") {
                win = true;
            } else {
                if key_token.is_some() {
                    assert(hotkey_scan(all.take(k + 1)) is None);
                    assert(all.take(k + 1) == all.take(k + 1));
                    proof {
                        lemma_scan_stays_failed(all, k as int + 1);
                    }
                    return None;
                }
                let ts = string_of(&token);
                key_token = normalize_boss_key_token(ts.as_str());
            }
        }
        k = k + 1;
    }
    assert(all.take(pieces.len() as int) == all);
    match key_token {
        Some(key) => {
            let normalized = normalize_boss_hotkey(ctrl, alt, shift, win, key.as_str());
            Some(BossHotkeySpec { normalized, ctrl, alt, shift, win, key_token: key })
        },
        None => None,
    }
}

/// Once reading the pieces has failed, reading more of them cannot recover.
proof fn lemma_scan_stays_failed(all: Seq<Seq<char>>, k: int)
    requires
        0 <= k <= all.len(),
        hotkey_scan(all.take(k)) is None,
    ensures
        hotkey_scan(all) is None,
    decreases all.len() - k,
{
    if k < all.len() {
        assert(all.take(k + 1).drop_last() == all.take(k));
        lemma_scan_stays_failed(all, k + 1);
    } else {
        assert(all.take(k) == all);
    }
}

/// A key on the keyboard, as the window toolkit reports it.
#[derive(Clone, Copy, Debug, PartialEq, Eq, Structural)]
pub enum Key {
    ArrowDown,
    ArrowLeft,
    ArrowRight,
    ArrowUp,
    Escape,
    Tab,
    Backspace,
    Enter,
    Space,
    Insert,
    Delete,
    Home,
    End,
    PageUp,
    PageDown,
    Num0,
    Num1,
    Num2,
    Num3,
    Num4,
    Num5,
    Num6,
    Num7,
    Num8,
    Num9,
    A,
    B,
    C,
    D,
    E,
    F,
    G,
    H,
    I,
    J,
    K,
    L,
    M,
    N,
    O,
    P,
    Q,
    R,
    S,
    T,
    U,
    V,
    W,
    X,
    Y,
    Z,
    F1,
    F2,
    F3,
    F4,
    F5,
    F6,
    F7,
    F8,
    F9,
    F10,
    F11,
    F12,
    /// Any key that cannot be a hotkey.
    Other,
}

/// The hotkey name of a key, if it can be one.
pub open spec fn key_name(key: Key) -> Option<Seq<char>> {
    match key {
        Key::ArrowDown => Some("Down"@),
        Key::ArrowLeft => Some("Left"@),
        Key::ArrowRight => Some("Right"@),
        Key::ArrowUp => Some("Up"@),
        Key::Escape => Some("Esc"@),
        Key::Tab => Some("Tab"@),
        Key::Backspace => Some("Backspace"@),
        Key::Enter => Some("Enter"@),
        Key::Space => Some("Space"@),
        Key::Insert => Some("Insert"@),
        Key::Delete => Some("Delete"@),
        Key::Home => Some("Home"@),
        Key::End => Some("End"@),
        Key::PageUp => Some("PageUp"@),
        Key::PageDown => Some("PageDown"@),
        Key::Num0 => Some("0"@),
        Key::Num1 => Some("1"@),
        Key::Num2 => Some("2"@),
        Key::Num3 => Some("3"@),
        Key::Num4 => Some("4"@),
        Key::Num5 => Some("5"@),
        Key::Num6 => Some("6"@),
        Key::Num7 => Some("7"@),
        Key::Num8 => Some("8"@),
        Key::Num9 => Some("9"@),
        Key::A => Some("A"@),
        Key::B => Some("B"@),
        Key::C => Some("C"@),
        Key::D => Some("D"@),
        Key::E => Some("E"@),
        Key::F => Some("F"@),
        Key::G => Some("G"@),
        Key::H => Some("H"@),
        Key::I => Some("I"@),
        Key::J => Some("J"@),
        Key::K => Some("K"@),
        Key::L => Some("L"@),
        Key::M => Some("M"@),
        Key::N => Some("N"@),
        Key::O => Some("O"@),
        Key::P => Some("P"@),
        Key::Q => Some("Q"@),
        Key::R => Some("R"@),
        Key::S => Some("S"@),
        Key::T => Some("T"@),
        Key::U => Some("U"@),
        Key::V => Some("V"@),
        Key::W => Some("W"@),
        Key::X => Some("X"@),
        Key::Y => Some("Y"@),
        Key::Z => Some("Z"@),
        Key::F1 => Some("F1"@),
        Key::F2 => Some("F2"@),
        Key::F3 => Some("F3"@),
        Key::F4 => Some("F4"@),
        Key::F5 => Some("F5"@),
        Key::F6 => Some("F6"@),
        Key::F7 => Some("F7"@),
        Key::F8 => Some("F8"@),
        Key::F9 => Some("F9"@),
        Key::F10 => Some("F10"@),
        Key::F11 => Some("F11"@),
        Key::F12 => Some("F12"@),
        Key::Other => None,
    }
}

/// The hotkey name of a key, if it can be one.
pub fn key_to_boss_token(key: Key) -> (r: Option<&'static str>)
    ensures
        r matches Some(s) ==> key_name(key) == Some(s@),
        r is None ==> key_name(key) is None,
{
    match key {
        Key::ArrowDown => Some("Down"),
        Key::ArrowLeft => Some("Left"),
        Key::ArrowRight => Some("Right"),
        Key::ArrowUp => Some("Up"),
        Key::Escape => Some("Esc"),
        Key::Tab => Some("Tab"),
        Key::Backspace => Some("Backspace"),
        Key::Enter => Some("Enter"),
        Key::Space => Some("Space"),
        Key::Insert => Some("Insert"),
        Key::Delete => Some("Delete"),
        Key::Home => Some("Home"),
        Key::End => Some("End"),
        Key::PageUp => Some("PageUp"),
        Key::PageDown => Some("PageDown"),
        Key::Num0 => Some("0"),
        Key::Num1 => Some("1"),
        Key::Num2 => Some("2"),
        Key::Num3 => Some("3"),
        Key::Num4 => Some("4"),
        Key::Num5 => Some("5"),
        Key::Num6 => Some("6"),
        Key::Num7 => Some("7"),
        Key::Num8 => Some("8"),
        Key::Num9 => Some("9"),
        Key::A => Some("A"),
        Key::B => Some("B"),
        Key::C => Some("C"),
        Key::D => Some("D"),
        Key::E => Some("E"),
        Key::F => Some("F"),
        Key::G => Some("G"),
        Key::H => Some("H"),
        Key::I => Some("I"),
        Key::J => Some("J"),
        Key::K => Some("K"),
        Key::L => Some("L"),
        Key::M => Some("M"),
        Key::N => Some("N"),
        Key::O => Some("O"),
        Key::P => Some("P"),
        Key::Q => Some("Q"),
        Key::R => Some("R"),
        Key::S => Some("S"),
        Key::T => Some("T"),
        Key::U => Some("U"),
        Key::V => Some("V"),
        Key::W => Some("W"),
        Key::X => Some("X"),
        Key::Y => Some("Y"),
        Key::Z => Some("Z"),
        Key::F1 => Some("F1"),
        Key::F2 => Some("F2"),
        Key::F3 => Some("F3"),
        Key::F4 => Some("F4"),
        Key::F5 => Some("F5"),
        Key::F6 => Some("F6"),
        Key::F7 => Some("F7"),
        Key::F8 => Some("F8"),
        Key::F9 => Some("F9"),
        Key::F10 => Some("F10"),
        Key::F11 => Some("F11"),
        Key::F12 => Some("F12"),
        Key::Other => None,
    }
}


/// Modifier keys held with a key press.
#[derive(Clone, Copy, Debug)]
pub struct KeyModifiers {
    pub ctrl: bool,
    pub alt: bool,
    pub shift: bool,
    /// The macOS command key.
    pub mac_cmd: bool,
    /// The platform command modifier (Ctrl, or Cmd on macOS).
    pub command: bool,
}

/// The hotkey made of a pressed key and the modifiers held with it; the
/// command keys count as Win.
pub fn boss_hotkey_spec_from_key(modifiers: KeyModifiers, key: Key) -> (r: Option<BossHotkeySpec>)
    ensures
        r matches Some(spec) ==> key_name(key) matches Some(name) && spec.describes(
            (
                modifiers.ctrl,
                modifiers.alt,
                modifiers.shift,
                modifiers.mac_cmd || modifiers.command,
                name,
            ),
        ),
        r is None ==> key_name(key) is None,
{
    let name = key_to_boss_token(key)?;
    let key_token = String::from_str(name);
    let win = modifiers.mac_cmd || modifiers.command;
    Some(
        BossHotkeySpec {
            normalized: normalize_boss_hotkey(
                modifiers.ctrl,
                modifiers.alt,
                modifiers.shift,
                win,
                key_token.as_str(),
            ),
            ctrl: modifiers.ctrl,
            alt: modifiers.alt,
            shift: modifiers.shift,
            win,
            key_token,
        },
    )
}

/// The Win32 virtual-key code of a canonical key name: the named keys, a
/// single ASCII character (its code), or `F1`..`F12`.
pub open spec fn virtual_key_spec(token: Seq<char>) -> Option<u32> {
    if token == "Esc"@ {
        Some(0x1Bu32)
    } else if token == "Space"@ {
        Some(0x20u32)
    } else if token == "Enter"@ {
        Some(0x0Du32)
    } else if token == "Tab"@ {
        Some(0x09u32)
    } else if token == "Backspace"@ {
        Some(0x08u32)
    } else if token == "Insert"@ {
        Some(0x2Du32)
    } else if token == "Delete"@ {
        Some(0x2Eu32)
    } else if token == "Home"@ {
        Some(0x24u32)
    } else if token == "End"@ {
        Some(0x23u32)
    } else if token == "PageUp"@ {
        Some(0x21u32)
    } else if token == "PageDown"@ {
        Some(0x22u32)
    } else if token == "Left"@ {
        Some(0x25u32)
    } else if token == "Right"@ {
        Some(0x27u32)
    } else if token == "Up"@ {
        Some(0x26u32)
    } else if token == "Down"@ {
        Some(0x28u32)
    } else if token.len() == 1 && (token[0] as u32) < 128 {
        Some(token[0] as u32)
    } else if is_function_key_name(token) {
        Some((0x70 + parse_unsigned(token.drop_first()).unwrap() - 1) as u32)
    } else {
        None
    }
}

/// The Win32 virtual-key codes of hotkey names: each named key has its own
/// code (Esc 0x1B, Space 0x20, Enter 0x0D, Tab 0x09, Backspace 0x08,
/// Insert 0x2D, Delete 0x2E, Home 0x24, End 0x23, PageUp 0x21, PageDown
/// 0x22, Left 0x25, Right 0x27, Up 0x26, Down 0x28), a single ASCII digit or
/// upper-case letter is its own character code, and F1..F12 are 0x70..0x7B.
#[verifier::spinoff_prover]
#[verifier::rlimit(60)]
pub proof fn law_virtual_key_codes(c: char)
    ensures
        virtual_key_spec("Esc"@) == Some(0x1Bu32),
        virtual_key_spec("Space"@) == Some(0x20u32),
        virtual_key_spec("Enter"@) == Some(0x0Du32),
        virtual_key_spec("Tab"@) == Some(0x09u32),
        virtual_key_spec("Backspace"@) == Some(0x08u32),
        virtual_key_spec("Insert"@) == Some(0x2Du32),
        virtual_key_spec("Delete"@) == Some(0x2Eu32),
        virtual_key_spec("Home"@) == Some(0x24u32),
        virtual_key_spec("End"@) == Some(0x23u32),
        virtual_key_spec("PageUp"@) == Some(0x21u32),
        virtual_key_spec("PageDown"@) == Some(0x22u32),
        virtual_key_spec("Left"@) == Some(0x25u32),
        virtual_key_spec("Right"@) == Some(0x27u32),
        virtual_key_spec("Up"@) == Some(0x26u32),
        virtual_key_spec("Down"@) == Some(0x28u32),
        virtual_key_spec("F1"@) == Some(0x70u32),
        virtual_key_spec("F2"@) == Some(0x71u32),
        virtual_key_spec("F3"@) == Some(0x72u32),
        virtual_key_spec("F4"@) == Some(0x73u32),
        virtual_key_spec("F5"@) == Some(0x74u32),
        virtual_key_spec("F6"@) == Some(0x75u32),
        virtual_key_spec("F7"@) == Some(0x76u32),
        virtual_key_spec("F8"@) == Some(0x77u32),
        virtual_key_spec("F9"@) == Some(0x78u32),
        virtual_key_spec("F10"@) == Some(0x79u32),
        virtual_key_spec("F11"@) == Some(0x7Au32),
        virtual_key_spec("F12"@) == Some(0x7Bu32),
        ('0' <= c && c <= '9') || ('A' <= c && c <= 'Z') ==> virtual_key_spec(seq![c]) == Some(c as u32),
{
    reveal_strlit("Esc");
    reveal_strlit("Space");
    reveal_strlit("Enter");
    reveal_strlit("Tab");
    reveal_strlit("Backspace");
    reveal_strlit("Insert");
    reveal_strlit("Delete");
    reveal_strlit("Home");
    reveal_strlit("End");
    reveal_strlit("PageUp");
    reveal_strlit("PageDown");
    reveal_strlit("Left");
    reveal_strlit("Right");
    reveal_strlit("Up");
    reveal_strlit("Down");
    reveal_strlit("F1");
    reveal_strlit("F2");
    reveal_strlit("F3");
    reveal_strlit("F4");
    reveal_strlit("F5");
    reveal_strlit("F6");
    reveal_strlit("F7");
    reveal_strlit("F8");
    reveal_strlit("F9");
    reveal_strlit("F10");
    reveal_strlit("F11");
    reveal_strlit("F12");
    assert("Esc"@[0] != "Tab"@[0]);
    assert("Esc"@[1] != "End"@[1]);
    assert("Esc"@[0] != "F10"@[0]);
    assert("Esc"@[0] != "F11"@[0]);
    assert("Esc"@[0] != "F12"@[0]);
    assert("Space"@[0] != "Enter"@[0]);
    assert("Space"@[0] != "Right"@[0]);
    assert("Enter"@[0] != "Right"@[0]);
    assert("Tab"@[0] != "End"@[0]);
    assert("Tab"@[0] != "F10"@[0]);
    assert("Tab"@[0] != "F11"@[0]);
    assert("Tab"@[0] != "F12"@[0]);
    assert("Insert"@[0] != "Delete"@[0]);
    assert("Insert"@[0] != "PageUp"@[0]);
    assert("Delete"@[0] != "PageUp"@[0]);
    assert("Home"@[0] != "Left"@[0]);
    assert("Home"@[0] != "Down"@[0]);
    assert("End"@[0] != "F10"@[0]);
    assert("End"@[0] != "F11"@[0]);
    assert("End"@[0] != "F12"@[0]);
    assert("Left"@[0] != "Down"@[0]);
    assert("Up"@[0] != "F1"@[0]);
    assert("Up"@[0] != "F2"@[0]);
    assert("Up"@[0] != "F3"@[0]);
    assert("Up"@[0] != "F4"@[0]);
    assert("Up"@[0] != "F5"@[0]);
    assert("Up"@[0] != "F6"@[0]);
    assert("Up"@[0] != "F7"@[0]);
    assert("Up"@[0] != "F8"@[0]);
    assert("Up"@[0] != "F9"@[0]);
    assert("F1"@[1] != "F2"@[1]);
    assert("F1"@[1] != "F3"@[1]);
    assert("F1"@[1] != "F4"@[1]);
    assert("F1"@[1] != "F5"@[1]);
    assert("F1"@[1] != "F6"@[1]);
    assert("F1"@[1] != "F7"@[1]);
    assert("F1"@[1] != "F8"@[1]);
    assert("F1"@[1] != "F9"@[1]);
    assert("F2"@[1] != "F3"@[1]);
    assert("F2"@[1] != "F4"@[1]);
    assert("F2"@[1] != "F5"@[1]);
    assert("F2"@[1] != "F6"@[1]);
    assert("F2"@[1] != "F7"@[1]);
    assert("F2"@[1] != "F8"@[1]);
    assert("F2"@[1] != "F9"@[1]);
    assert("F3"@[1] != "F4"@[1]);
    assert("F3"@[1] != "F5"@[1]);
    assert("F3"@[1] != "F6"@[1]);
    assert("F3"@[1] != "F7"@[1]);
    assert("F3"@[1] != "F8"@[1]);
    assert("F3"@[1] != "F9"@[1]);
    assert("F4"@[1] != "F5"@[1]);
    assert("F4"@[1] != "F6"@[1]);
    assert("F4"@[1] != "F7"@[1]);
    assert("F4"@[1] != "F8"@[1]);
    assert("F4"@[1] != "F9"@[1]);
    assert("F5"@[1] != "F6"@[1]);
    assert("F5"@[1] != "F7"@[1]);
    assert("F5"@[1] != "F8"@[1]);
    assert("F5"@[1] != "F9"@[1]);
    assert("F6"@[1] != "F7"@[1]);
    assert("F6"@[1] != "F8"@[1]);
    assert("F6"@[1] != "F9"@[1]);
    assert("F7"@[1] != "F8"@[1]);
    assert("F7"@[1] != "F9"@[1]);
    assert("F8"@[1] != "F9"@[1]);
    assert("F10"@[2] != "F11"@[2]);
    assert("F10"@[2] != "F12"@[2]);
    assert("F11"@[2] != "F12"@[2]);
    assert(seq![c].len() == 1);
    assert(digits_value(Seq::<char>::empty()) == 0);
    assert("F1"@.drop_first() =~= seq!['1']);
    assert(seq!['1'].drop_last() =~= Seq::<char>::empty());
    assert(digit_value('1') == 1);
    assert(digits_value(seq!['1']) == 1);
    assert(all_digits(seq!['1']));
    assert("F2"@.drop_first() =~= seq!['2']);
    assert(seq!['2'].drop_last() =~= Seq::<char>::empty());
    assert(digit_value('2') == 2);
    assert(digits_value(seq!['2']) == 2);
    assert(all_digits(seq!['2']));
    assert("F3"@.drop_first() =~= seq!['3']);
    assert(seq!['3'].drop_last() =~= Seq::<char>::empty());
    assert(digit_value('3') == 3);
    assert(digits_value(seq!['3']) == 3);
    assert(all_digits(seq!['3']));
    assert("F4"@.drop_first() =~= seq!['4']);
    assert(seq!['4'].drop_last() =~= Seq::<char>::empty());
    assert(digit_value('4') == 4);
    assert(digits_value(seq!['4']) == 4);
    assert(all_digits(seq!['4']));
    assert("F5"@.drop_first() =~= seq!['5']);
    assert(seq!['5'].drop_last() =~= Seq::<char>::empty());
    assert(digit_value('5') == 5);
    assert(digits_value(seq!['5']) == 5);
    assert(all_digits(seq!['5']));
    assert("F6"@.drop_first() =~= seq!['6']);
    assert(seq!['6'].drop_last() =~= Seq::<char>::empty());
    assert(digit_value('6') == 6);
    assert(digits_value(seq!['6']) == 6);
    assert(all_digits(seq!['6']));
    assert("F7"@.drop_first() =~= seq!['7']);
    assert(seq!['7'].drop_last() =~= Seq::<char>::empty());
    assert(digit_value('7') == 7);
    assert(digits_value(seq!['7']) == 7);
    assert(all_digits(seq!['7']));
    assert("F8"@.drop_first() =~= seq!['8']);
    assert(seq!['8'].drop_last() =~= Seq::<char>::empty());
    assert(digit_value('8') == 8);
    assert(digits_value(seq!['8']) == 8);
    assert(all_digits(seq!['8']));
    assert("F9"@.drop_first() =~= seq!['9']);
    assert(seq!['9'].drop_last() =~= Seq::<char>::empty());
    assert(digit_value('9') == 9);
    assert(digits_value(seq!['9']) == 9);
    assert(all_digits(seq!['9']));
    assert("F10"@.drop_first() =~= seq!['1', '0']);
    assert(seq!['1', '0'].drop_last() =~= seq!['1']);
    assert(seq!['1'].drop_last() =~= Seq::<char>::empty());
    assert(digit_value('1') == 1);
    assert(digit_value('0') == 0);
    assert(digits_value(seq!['1']) == 1);
    assert(digits_value(seq!['1', '0']) == 10);
    assert(all_digits(seq!['1', '0']));
    assert("F11"@.drop_first() =~= seq!['1', '1']);
    assert(seq!['1', '1'].drop_last() =~= seq!['1']);
    assert(seq!['1'].drop_last() =~= Seq::<char>::empty());
    assert(digit_value('1') == 1);
    assert(digit_value('1') == 1);
    assert(digits_value(seq!['1']) == 1);
    assert(digits_value(seq!['1', '1']) == 11);
    assert(all_digits(seq!['1', '1']));
    assert("F12"@.drop_first() =~= seq!['1', '2']);
    assert(seq!['1', '2'].drop_last() =~= seq!['1']);
    assert(seq!['1'].drop_last() =~= Seq::<char>::empty());
    assert(digit_value('1') == 1);
    assert(digit_value('2') == 2);
    assert(digits_value(seq!['1']) == 1);
    assert(digits_value(seq!['1', '2']) == 12);
    assert(all_digits(seq!['1', '2']));
}

/// The Win32 virtual-key code to register for a canonical key name.
pub fn boss_key_token_to_vk(token: &str) -> (r: Option<u32>)
    ensures
        r == virtual_key_spec(token@),
{
    let t = chars_of(token);
    if is_lit(&t, "Esc") {
        Some(0x1B)
    } else if is_lit(&t, "Space") {
        Some(0x20)
    } else if is_lit(&t, "Enter") {
        Some(0x0D)
    } else if is_lit(&t, "Tab") {
        Some(0x09)
    } else if is_lit(&t, "Backspace") {
        Some(0x08)
    } else if is_lit(&t, "Insert") {
        Some(0x2D)
    } else if is_lit(&t, "Delete") {
        Some(0x2E)
    } else if is_lit(&t, "Home") {
        Some(0x24)
    } else if is_lit(&t, "End") {
        Some(0x23)
    } else if is_lit(&t, "PageUp") {
        Some(0x21)
    } else if is_lit(&t, "PageDown") {
        Some(0x22)
    } else if is_lit(&t, "Left") {
        Some(0x25)
    } else if is_lit(&t, "Right") {
        Some(0x27)
    } else if is_lit(&t, "Up") {
        Some(0x26)
    } else if is_lit(&t, "Down") {
        Some(0x28)
    } else if t.len() == 1 && (t[0] as u32) < 128 {
        Some(t[0] as u32)
    } else if t.len() > 0 && t[0] == 'F' {
        let rest = slice_range(&t, 1, t.len());
        assert(rest@ == t@.drop_first());
        match parse_u64(&rest) {
            Some(n) => if 1 <= n && n <= 12 {
                Some((0x70 + n - 1) as u32)
            } else {
                None
            },
            None => None,
        }
    } else {
        None
    }
}

/// Win32 `MOD_ALT`.
pub const MOD_ALT: u32 = 0x0001;
/// Win32 `MOD_CONTROL`.
pub const MOD_CONTROL: u32 = 0x0002;
/// Win32 `MOD_SHIFT`.
pub const MOD_SHIFT: u32 = 0x0004;
/// Win32 `MOD_WIN`.
pub const MOD_WIN: u32 = 0x0008;
/// Win32 `MOD_NOREPEAT`.
pub const MOD_NOREPEAT: u32 = 0x4000;

/// The Win32 modifier flags to register for a hotkey; auto-repeat is always
/// suppressed.
pub fn boss_key_modifiers(spec: &BossHotkeySpec) -> (m: u32)
    ensures
        m == MOD_NOREPEAT + (if spec.ctrl { MOD_CONTROL } else { 0 }) + (if spec.alt {
            MOD_ALT
        } else {
            0
        }) + (if spec.shift { MOD_SHIFT } else { 0 }) + (if spec.win { MOD_WIN } else { 0 }),
{
    let mut modifiers = MOD_NOREPEAT;
    if spec.ctrl {
        modifiers = modifiers + MOD_CONTROL;
    }
    if spec.alt {
        modifiers = modifiers + MOD_ALT;
    }
    if spec.shift {
        modifiers = modifiers + MOD_SHIFT;
    }
    if spec.win {
        modifiers = modifiers + MOD_WIN;
    }
    modifiers
}


/// The message shown next to the boss-key setting.
#[derive(Clone, Debug)]
pub enum BossKeyStatus {
    /// No message.
    Empty,
    /// Waiting for the user to press the new hotkey.
    Capturing,
    /// The hotkey was deleted.
    Deleted,
    /// No hotkey is set.
    Disabled,
    /// The hotkey with this text is registered.
    Active(String),
    /// The text does not describe a hotkey.
    Invalid,
    /// A key without modifiers may only be one of F1..F12.
    SingleKeyLimited,
    /// Another program holds the hotkey.
    Conflict,
    /// This platform has no global hotkeys.
    Unsupported,
}

/// The boss-key part of the settings panel.
pub struct BossKeySettings {
    /// The hotkey in effect (canonical text, or empty for none).
    pub shortcut: String,
    /// The text in the input box.
    pub input: String,
    pub status: BossKeyStatus,
    /// Whether the next key press is taken as the new hotkey.
    pub capturing: bool,
}

/// What the caller does with the global hotkey registration after a change.
pub enum RebindStep {
    /// Unregister the running hotkey if `stop`, then register `restore` if any.
    Done { stop: bool, restore: Option<BossHotkeySpec> },
    /// Unregister the running hotkey, try to register `spec`, and report the
    /// outcome to `finish_rebind`.
    TryRegister { spec: BossHotkeySpec },
}

/// `restore` is the hotkey that the previous shortcut text describes, if any.
pub open spec fn restores_previous(restore: Option<BossHotkeySpec>, previous: Seq<char>) -> bool {
    match parse_hotkey_spec(previous) {
        Some(h) => restore matches Some(r) && r.describes(h),
        None => restore is None,
    }
}

/// The settings went back to the previous shortcut text.
pub open spec fn reverted(cur: BossKeySettings, fin: BossKeySettings, previous: Seq<char>) -> bool {
    &&& fin.shortcut@ == previous
    &&& fin.input@ == previous
    &&& fin.capturing == cur.capturing
}

/// How `rebind_boss_hotkey` changes the settings `cur` into `fin` and what it
/// asks of the caller, after the shortcut field was set to the requested
/// hotkey and `previous` holds the one before.
pub open spec fn rebind_spec(
    cur: BossKeySettings,
    previous: Seq<char>,
    windows: bool,
    fin: BossKeySettings,
    step: RebindStep,
) -> bool {
    let wanted = trim(cur.shortcut@);
    if wanted.len() == 0 {
        &&& fin.shortcut@.len() == 0
        &&& fin.input@.len() == 0
        &&& fin.status is Disabled
        &&& fin.capturing == cur.capturing
        &&& step matches RebindStep::Done { stop, restore } && stop && restore is None
    } else if parse_hotkey_spec(wanted) is None {
        &&& reverted(cur, fin, previous)
        &&& fin.status is Invalid
        &&& step matches RebindStep::Done { stop, restore } && !stop && restore is None
    } else if !windows {
        &&& fin.shortcut == cur.shortcut
        &&& fin.input == cur.input
        &&& fin.capturing == cur.capturing
        &&& fin.status is Unsupported
        &&& step matches RebindStep::Done { stop, restore } && !stop && restore is None
    } else {
        let h = parse_hotkey_spec(wanted).unwrap();
        if !h.0 && !h.1 && !h.2 && !h.3 && !is_function_key_name(h.4) {
            &&& reverted(cur, fin, previous)
            &&& fin.status is SingleKeyLimited
            &&& step matches RebindStep::Done { stop, restore } && stop && restores_previous(
                restore,
                previous,
            )
        } else if virtual_key_spec(h.4) is None {
            &&& reverted(cur, fin, previous)
            &&& fin.status is Invalid
            &&& step matches RebindStep::Done { stop, restore } && stop && restores_previous(
                restore,
                previous,
            )
        } else {
            &&& fin.shortcut == cur.shortcut
            &&& fin.input == cur.input
            &&& fin.capturing == cur.capturing
            &&& fin.status == cur.status
            &&& step matches RebindStep::TryRegister { spec } && spec.describes(h)
        }
    }
}

/// What using the hotkey `h` does to the settings `cur`, giving `fin` and
/// `step`: a key without modifiers other than F1..F12 is refused and only
/// the message changes; otherwise the hotkey's canonical text becomes the
/// shortcut and the input, and is rebound (see `rebind_spec`) with the
/// shortcut of `cur` as the previous one.
pub open spec fn hotkey_applied(
    cur: BossKeySettings,
    h: (bool, bool, bool, bool, Seq<char>),
    windows: bool,
    fin: BossKeySettings,
    step: Option<RebindStep>,
) -> bool {
    if !h.0 && !h.1 && !h.2 && !h.3 && !is_function_key_name(h.4) {
        &&& step is None
        &&& fin.status is SingleKeyLimited
        &&& fin.shortcut == cur.shortcut
        &&& fin.input == cur.input
        &&& fin.capturing == cur.capturing
    } else {
        step matches Some(st) && exists|mid: BossKeySettings|
            #![trigger rebind_spec(mid, cur.shortcut@, windows, fin, st)]
            mid.shortcut@ == hotkey_text(h.0, h.1, h.2, h.3, h.4) && mid.input@ == hotkey_text(
                h.0,
                h.1,
                h.2,
                h.3,
                h.4,
            ) && mid.status == cur.status && mid.capturing == cur.capturing && rebind_spec(
                mid,
                cur.shortcut@,
                windows,
                fin,
                st,
            )
    }
}

impl BossKeySettings {
    /// Settings with the given hotkey text in effect and in the input box.
    pub fn new(shortcut: String) -> (s: Self)
        ensures
            s.shortcut@ == shortcut@,
            s.input@ == shortcut@,
            s.status is Empty,
            !s.capturing,
    {
        let input = shortcut.clone();
        BossKeySettings { shortcut, input, status: BossKeyStatus::Empty, capturing: false }
    }

    /// Start waiting for the user to press the new hotkey.
    pub fn begin_boss_key_capture(&mut self)
        ensures
            final(self).capturing,
            final(self).status is Capturing,
            final(self).shortcut == old(self).shortcut,
            final(self).input == old(self).input,
    {
        self.capturing = true;
        self.status = BossKeyStatus::Capturing;
    }

    /// The message for the hotkey in effect.
    pub fn refresh_boss_key_status(&mut self)
        ensures
            if old(self).shortcut@.len() == 0 {
                final(self).status is Disabled
            } else {
                final(self).status matches BossKeyStatus::Active(t) && t@ == old(self).shortcut@
            },
            final(self).shortcut == old(self).shortcut,
            final(self).input == old(self).input,
            final(self).capturing == old(self).capturing,
    {
        if self.shortcut.as_str().is_empty() {
            self.status = BossKeyStatus::Disabled;
        } else {
            self.status = BossKeyStatus::Active(self.shortcut.clone());
        }
    }

    /// Stop waiting for a key press.
    pub fn cancel_boss_key_capture(&mut self)
        ensures
            !final(self).capturing,
            if old(self).shortcut@.len() == 0 {
                final(self).status is Disabled
            } else {
                final(self).status matches BossKeyStatus::Active(t) && t@ == old(self).shortcut@
            },
            final(self).shortcut == old(self).shortcut,
            final(self).input == old(self).input,
    {
        self.capturing = false;
        self.refresh_boss_key_status();
    }

    /// Delete the hotkey; the caller unregisters the running one.
    pub fn clear_boss_key(&mut self)
        ensures
            final(self).shortcut@.len() == 0,
            final(self).input@.len() == 0,
            !final(self).capturing,
            final(self).status is Deleted,
    {
        self.shortcut = String::new();
        self.input = String::new();
        self.capturing = false;
        self.status = BossKeyStatus::Deleted;
    }

    /// Put the hotkey now in `shortcut` into effect; `previous_shortcut` is
    /// the one it replaces and comes back when the new one cannot be used.
    pub fn rebind_boss_hotkey(&mut self, previous_shortcut: String, windows: bool) -> (step:
        RebindStep)
        ensures
            rebind_spec(*old(self), previous_shortcut@, windows, *final(self), step),
    {
        let raw = chars_of(self.shortcut.as_str());
        let wanted = trim_chars(&raw);
        if wanted.len() == 0 {
            self.shortcut = String::new();
            self.input = String::new();
            self.status = BossKeyStatus::Disabled;
            return RebindStep::Done { stop: true, restore: None };
        }
        let wanted_text = string_of(&wanted);
        let spec = match parse_boss_hotkey(wanted_text.as_str()) {
            Some(spec) => spec,
            None => {
                self.input = previous_shortcut.clone();
                self.shortcut = previous_shortcut;
                self.status = BossKeyStatus::Invalid;
                return RebindStep::Done { stop: false, restore: None };
            },
        };
        if !windows {
            self.status = BossKeyStatus::Unsupported;
            return RebindStep::Done { stop: false, restore: None };
        }
        if !spec.ctrl && !spec.alt && !spec.shift && !spec.win && !is_low_conflict_single_boss_key(
            spec.key_token.as_str(),
        ) {
            let restore = parse_boss_hotkey(previous_shortcut.as_str());
            self.input = previous_shortcut.clone();
            self.shortcut = previous_shortcut;
            self.status = BossKeyStatus::SingleKeyLimited;
            return RebindStep::Done { stop: true, restore };
        }
        if boss_key_token_to_vk(spec.key_token.as_str()).is_none() {
            let restore = parse_boss_hotkey(previous_shortcut.as_str());
            self.input = previous_shortcut.clone();
            self.shortcut = previous_shortcut;
            self.status = BossKeyStatus::Invalid;
            return RebindStep::Done { stop: true, restore };
        }
        RebindStep::TryRegister { spec }
    }

    /// Record the outcome of registering `spec` (asked for by `TryRegister`);
    /// returns the previous hotkey to register again when it failed.
    pub fn finish_rebind(&mut self, previous_shortcut: String, spec: &BossHotkeySpec, registered: bool) -> (restore: Option<BossHotkeySpec>)
        ensures
            registered ==> {
                &&& final(self).shortcut@ == spec.normalized@
                &&& final(self).input@ == spec.normalized@
                &&& final(self).status matches BossKeyStatus::Active(t) && t@ == spec.normalized@
                &&& restore is None
            },
            !registered ==> {
                &&& reverted(*old(self), *final(self), previous_shortcut@)
                &&& final(self).status is Conflict
                &&& restores_previous(restore, previous_shortcut@)
            },
            final(self).capturing == old(self).capturing,
    {
        if registered {
            self.shortcut = spec.normalized.clone();
            self.input = spec.normalized.clone();
            self.status = BossKeyStatus::Active(spec.normalized.clone());
            None
        } else {
            let restore = parse_boss_hotkey(previous_shortcut.as_str());
            self.input = previous_shortcut.clone();
            self.shortcut = previous_shortcut;
            self.status = BossKeyStatus::Conflict;
            restore
        }
    }

    /// Use a parsed hotkey: a key without modifiers other than F1..F12 is
    /// refused; otherwise it becomes the shortcut and is rebound.
    pub fn apply_boss_hotkey_spec(&mut self, spec: BossHotkeySpec, windows: bool) -> (step: Option<
        RebindStep,
    >)
        ensures
            if spec.is_single_key() && !is_function_key_name(spec.key_token@) {
                &&& step is None
                &&& final(self).status is SingleKeyLimited
                &&& final(self).shortcut == old(self).shortcut
                &&& final(self).input == old(self).input
                &&& final(self).capturing == old(self).capturing
            } else {
                step matches Some(st) && exists|mid: BossKeySettings|
                    #![trigger rebind_spec(mid, old(self).shortcut@, windows, *final(self), st)]
                    mid.shortcut@ == spec.normalized@ && mid.input@ == spec.normalized@
                        && mid.status == old(self).status
                        && mid.capturing == old(self).capturing && rebind_spec(
                        mid,
                        old(self).shortcut@,
                        windows,
                        *final(self),
                        st,
                    )
            },
    {
        if !spec.ctrl && !spec.alt && !spec.shift && !spec.win && !is_low_conflict_single_boss_key(
            spec.key_token.as_str(),
        ) {
            self.status = BossKeyStatus::SingleKeyLimited;
            return None;
        }
        let previous = self.shortcut.clone();
        self.shortcut = spec.normalized.clone();
        self.input = spec.normalized.clone();
        let ghost mid = *self;
        let step = self.rebind_boss_hotkey(previous, windows);
        assert(rebind_spec(mid, old(self).shortcut@, windows, *self, step));
        Some(step)
    }

    /// Use the hotkey typed in the input box.
    pub fn apply_boss_key_from_input(&mut self, windows: bool) -> (step: Option<RebindStep>)
        ensures
            parse_hotkey_spec(old(self).input@) is None ==> {
                &&& step is None
                &&& final(self).status is Invalid
                &&& final(self).shortcut == old(self).shortcut
                &&& final(self).input == old(self).input
                &&& final(self).capturing == old(self).capturing
            },
            parse_hotkey_spec(old(self).input@) matches Some(h) ==> hotkey_applied(
                *old(self),
                h,
                windows,
                *final(self),
                step,
            ),
    {
        match parse_boss_hotkey(self.input.as_str()) {
            Some(spec) => self.apply_boss_hotkey_spec(spec, windows),
            None => {
                self.status = BossKeyStatus::Invalid;
                None
            },
        }
    }
}


/// A key press or release reported by the window toolkit.
#[derive(Clone, Copy, Debug)]
pub struct KeyEvent {
    pub key: Key,
    pub pressed: bool,
    /// The press was generated by auto-repeat.
    pub repeat: bool,
    pub modifiers: KeyModifiers,
}

/// The event is a fresh press of a key that can be a hotkey.
pub open spec fn is_capturable(e: KeyEvent) -> bool {
    e.pressed && !e.repeat && key_name(e.key) is Some
}

impl BossKeySettings {
    /// While capturing, take the first fresh press of a hotkey-capable key in
    /// `events` as the new hotkey: capturing stops and the hotkey is applied.
    /// Returns the index of that event and what applying it asked for.
    pub fn poll_boss_key_capture(&mut self, events: &[KeyEvent], windows: bool) -> (r: Option<(usize, Option<RebindStep>)>)
        ensures
            !old(self).capturing ==> r is None && *final(self) == *old(self),
            old(self).capturing ==> match r {
                None => {
                    &&& forall|i: int| 0 <= i < events.len() ==> !is_capturable(#[trigger] events@[i])
                    &&& *final(self) == *old(self)
                },
                Some((i, step)) => {
                    let e = events@[i as int];
                    &&& i < events.len()
                    &&& is_capturable(e)
                    &&& forall|j: int| 0 <= j < i ==> !is_capturable(#[trigger] events@[j])
                    &&& hotkey_applied(
                        (BossKeySettings {
                            shortcut: old(self).shortcut,
                            input: old(self).input,
                            status: old(self).status,
                            capturing: false,
                        }),
                        (
                            e.modifiers.ctrl,
                            e.modifiers.alt,
                            e.modifiers.shift,
                            e.modifiers.mac_cmd || e.modifiers.command,
                            key_name(e.key).unwrap(),
                        ),
                        windows,
                        *final(self),
                        step,
                    )
                    &&& !final(self).capturing
                },
            },
    {
        if !self.capturing {
            return None;
        }
        let mut i: usize = 0;
        while i < events.len()
            invariant
                i <= events.len(),
                forall|j: int| 0 <= j < i ==> !is_capturable(#[trigger] events@[j]),
                *self == *old(self),
                self.capturing,
            decreases events.len() - i,
        {
            let e = events[i];
            if e.pressed && !e.repeat {
                match boss_hotkey_spec_from_key(e.modifiers, e.key) {
                    Some(spec) => {
                        self.capturing = false;
                        let step = self.apply_boss_hotkey_spec(spec, windows);
                        return Some((i, step));
                    },
                    None => {},
                }
            }
            i = i + 1;
        }
        None
    }
}

proof fn lemma_split_nonempty(s: Seq<char>, sep: char)
    ensures
        split_on(s, sep).len() >= 1,
    decreases s.len(),
{
    if s.len() > 0 {
        lemma_split_nonempty(s.drop_last(), sep);
    }
}

/// Appending text without a separator extends the last piece.
proof fn lemma_split_append_plain(x: Seq<char>, y: Seq<char>, sep: char)
    requires
        free_of(y, sep),
    ensures
        split_on(x + y, sep) == split_on(x, sep).update(split_on(x, sep).len() - 1, split_on(x, sep).last() + y),
    decreases y.len(),
{
    lemma_split_nonempty(x, sep);
    let p = split_on(x, sep);
    if y.len() == 0 {
        assert(x + y =~= x);
        assert(p.last() + y =~= p.last());
        assert(p.update(p.len() - 1, p.last() + y) =~= p);
    } else {
        let y1 = y.drop_last();
        assert(free_of(y1, sep));
        lemma_split_append_plain(x, y1, sep);
        assert((x + y).drop_last() =~= x + y1);
        assert((x + y).last() == y.last());
        assert((p.last() + y1).push(y.last()) =~= p.last() + y);
        let q = p.update(p.len() - 1, p.last() + y1);
        assert(q.update(q.len() - 1, q.last().push(y.last())) =~= p.update(p.len() - 1, p.last() + y));
    }
}

/// Appending a separator starts a new, empty piece.
proof fn lemma_split_append_sep(x: Seq<char>, sep: char)
    ensures
        split_on(x + seq![sep], sep) == split_on(x, sep).push(Seq::empty()),
{
    assert((x + seq![sep]).drop_last() =~= x);
}

/// An upper-cased token that names a modifier key.
pub open spec fn is_modifier_name(up: Seq<char>) -> bool {
    up == "CTRL"@ || up == "CONTROL"@ || up == "ALT"@ || up == "SHIFT"@ || up == "WIN"@
        || up == "WINDOWS"@ || up == "META"@
}

/// What makes a canonical key name read back as itself: no surrounding white
/// space, it normalizes to itself, and it does not name a modifier.
pub open spec fn named_key_facts(k: Seq<char>) -> bool {
    &&& k.len() > 0
    &&& trim(k) == k
    &&& key_token_spec(k) == Some(k)
    &&& !is_modifier_name(k.map_values(|c: char| ascii_upper(c)))
}

proof fn lemma_trim_plain(s: Seq<char>)
    requires
        s.len() > 0,
        !is_white_space(s[0]),
        !is_white_space(s.last()),
    ensures
        trim(s) == s,
{
    assert(trim_start(s) == s);
    assert(trim_end(s) == s);
}

proof fn lemma_trim_start_edge(s: Seq<char>)
    ensures
        trim_start(s).len() == 0 || !is_white_space(trim_start(s)[0]),
        trim_start(s).len() <= s.len(),
        trim_start(s).len() > 0 ==> trim_start(s).last() == s.last(),
    decreases s.len(),
{
    if s.len() > 0 && is_white_space(s[0]) {
        lemma_trim_start_edge(s.drop_first());
    }
}

proof fn lemma_trim_end_edge(s: Seq<char>)
    ensures
        trim_end(s).len() == 0 || !is_white_space(trim_end(s).last()),
        trim_end(s).len() > 0 ==> trim_end(s)[0] == s[0],
    decreases s.len(),
{
    if s.len() > 0 && is_white_space(s.last()) {
        lemma_trim_end_edge(s.drop_last());
    }
}

/// A trimmed text is empty or starts and ends with a non-space.
proof fn lemma_trim_edges(s: Seq<char>)
    ensures
        trim(s).len() == 0 || (!is_white_space(trim(s)[0]) && !is_white_space(trim(s).last())),
{
    lemma_trim_start_edge(s);
    lemma_trim_end_edge(trim_start(s));
}

proof fn lemma_named_key_esc()
    ensures
        named_key_facts("Esc"@),
{
    reveal_strlit("ALT");
    reveal_strlit("CONTROL");
    reveal_strlit("CTRL");
    reveal_strlit("ESC");
    reveal_strlit("Esc");
    reveal_strlit("META");
    reveal_strlit("SHIFT");
    reveal_strlit("WIN");
    reveal_strlit("WINDOWS");
    lemma_trim_plain("Esc"@);
    assert("Esc"@.map_values(|c: char| ascii_upper(c)) =~= "ESC"@);
    assert(trim("Esc"@).map_values(|c: char| ascii_upper(c)) == "ESC"@);
    assert("ESC"@ != "CTRL"@);
    assert("ESC"@ != "CONTROL"@);
    assert("ESC"@ != "ALT"@) by { assert("ESC"@[0] != "ALT"@[0]); }
    assert("ESC"@ != "SHIFT"@);
    assert("ESC"@ != "WIN"@) by { assert("ESC"@[0] != "WIN"@[0]); }
    assert("ESC"@ != "WINDOWS"@);
    assert("ESC"@ != "META"@);
}

proof fn lemma_named_key_space()
    ensures
        named_key_facts("Space"@),
{
    reveal_strlit("ALT");
    reveal_strlit("CONTROL");
    reveal_strlit("CTRL");
    reveal_strlit("ESC");
    reveal_strlit("ESCAPE");
    reveal_strlit("META");
    reveal_strlit("SHIFT");
    reveal_strlit("SPACE");
    reveal_strlit("Space");
    reveal_strlit("WIN");
    reveal_strlit("WINDOWS");
    lemma_trim_plain("Space"@);
    assert("Space"@.map_values(|c: char| ascii_upper(c)) =~= "SPACE"@);
    assert(trim("Space"@).map_values(|c: char| ascii_upper(c)) == "SPACE"@);
    assert("SPACE"@ != "ESC"@);
    assert("SPACE"@ != "ESCAPE"@);
    assert("SPACE"@ != "CTRL"@);
    assert("SPACE"@ != "CONTROL"@);
    assert("SPACE"@ != "ALT"@);
    assert("SPACE"@ != "SHIFT"@) by { assert("SPACE"@[1] != "SHIFT"@[1]); }
    assert("SPACE"@ != "WIN"@);
    assert("SPACE"@ != "WINDOWS"@);
    assert("SPACE"@ != "META"@);
}

proof fn lemma_named_key_enter()
    ensures
        named_key_facts("Enter"@),
{
    reveal_strlit("ALT");
    reveal_strlit("CONTROL");
    reveal_strlit("CTRL");
    reveal_strlit("ENTER");
    reveal_strlit("ESC");
    reveal_strlit("ESCAPE");
    reveal_strlit("Enter");
    reveal_strlit("META");
    reveal_strlit("SHIFT");
    reveal_strlit("SPACE");
    reveal_strlit("WIN");
    reveal_strlit("WINDOWS");
    lemma_trim_plain("Enter"@);
    assert("Enter"@.map_values(|c: char| ascii_upper(c)) =~= "ENTER"@);
    assert(trim("Enter"@).map_values(|c: char| ascii_upper(c)) == "ENTER"@);
    assert("ENTER"@ != "ESC"@);
    assert("ENTER"@ != "ESCAPE"@);
    assert("ENTER"@ != "SPACE"@) by { assert("ENTER"@[0] != "SPACE"@[0]); }
    assert("ENTER"@ != "CTRL"@);
    assert("ENTER"@ != "CONTROL"@);
    assert("ENTER"@ != "ALT"@);
    assert("ENTER"@ != "SHIFT"@) by { assert("ENTER"@[0] != "SHIFT"@[0]); }
    assert("ENTER"@ != "WIN"@);
    assert("ENTER"@ != "WINDOWS"@);
    assert("ENTER"@ != "META"@);
}

proof fn lemma_named_key_tab()
    ensures
        named_key_facts("Tab"@),
{
    reveal_strlit("ALT");
    reveal_strlit("CONTROL");
    reveal_strlit("CTRL");
    reveal_strlit("ENTER");
    reveal_strlit("ESC");
    reveal_strlit("ESCAPE");
    reveal_strlit("META");
    reveal_strlit("RETURN");
    reveal_strlit("SHIFT");
    reveal_strlit("SPACE");
    reveal_strlit("TAB");
    reveal_strlit("Tab");
    reveal_strlit("WIN");
    reveal_strlit("WINDOWS");
    lemma_trim_plain("Tab"@);
    assert("Tab"@.map_values(|c: char| ascii_upper(c)) =~= "TAB"@);
    assert(trim("Tab"@).map_values(|c: char| ascii_upper(c)) == "TAB"@);
    assert("TAB"@ != "ESC"@) by { assert("TAB"@[0] != "ESC"@[0]); }
    assert("TAB"@ != "ESCAPE"@);
    assert("TAB"@ != "SPACE"@);
    assert("TAB"@ != "ENTER"@);
    assert("TAB"@ != "RETURN"@);
    assert("TAB"@ != "CTRL"@);
    assert("TAB"@ != "CONTROL"@);
    assert("TAB"@ != "ALT"@) by { assert("TAB"@[0] != "ALT"@[0]); }
    assert("TAB"@ != "SHIFT"@);
    assert("TAB"@ != "WIN"@) by { assert("TAB"@[0] != "WIN"@[0]); }
    assert("TAB"@ != "WINDOWS"@);
    assert("TAB"@ != "META"@);
}

proof fn lemma_named_key_backspace()
    ensures
        named_key_facts("Backspace"@),
{
    reveal_strlit("ALT");
    reveal_strlit("BACKSPACE");
    reveal_strlit("Backspace");
    reveal_strlit("CONTROL");
    reveal_strlit("CTRL");
    reveal_strlit("ENTER");
    reveal_strlit("ESC");
    reveal_strlit("ESCAPE");
    reveal_strlit("META");
    reveal_strlit("RETURN");
    reveal_strlit("SHIFT");
    reveal_strlit("SPACE");
    reveal_strlit("TAB");
    reveal_strlit("WIN");
    reveal_strlit("WINDOWS");
    lemma_trim_plain("Backspace"@);
    assert("Backspace"@.map_values(|c: char| ascii_upper(c)) =~= "BACKSPACE"@);
    assert(trim("Backspace"@).map_values(|c: char| ascii_upper(c)) == "BACKSPACE"@);
    assert("BACKSPACE"@ != "ESC"@);
    assert("BACKSPACE"@ != "ESCAPE"@);
    assert("BACKSPACE"@ != "SPACE"@);
    assert("BACKSPACE"@ != "ENTER"@);
    assert("BACKSPACE"@ != "RETURN"@);
    assert("BACKSPACE"@ != "TAB"@);
    assert("BACKSPACE"@ != "CTRL"@);
    assert("BACKSPACE"@ != "CONTROL"@);
    assert("BACKSPACE"@ != "ALT"@);
    assert("BACKSPACE"@ != "SHIFT"@);
    assert("BACKSPACE"@ != "WIN"@);
    assert("BACKSPACE"@ != "WINDOWS"@);
    assert("BACKSPACE"@ != "META"@);
}

proof fn lemma_named_key_insert()
    ensures
        named_key_facts("Insert"@),
{
    reveal_strlit("ALT");
    reveal_strlit("BACKSPACE");
    reveal_strlit("CONTROL");
    reveal_strlit("CTRL");
    reveal_strlit("ENTER");
    reveal_strlit("ESC");
    reveal_strlit("ESCAPE");
    reveal_strlit("INSERT");
    reveal_strlit("Insert");
    reveal_strlit("META");
    reveal_strlit("RETURN");
    reveal_strlit("SHIFT");
    reveal_strlit("SPACE");
    reveal_strlit("TAB");
    reveal_strlit("WIN");
    reveal_strlit("WINDOWS");
    lemma_trim_plain("Insert"@);
    assert("Insert"@.map_values(|c: char| ascii_upper(c)) =~= "INSERT"@);
    assert(trim("Insert"@).map_values(|c: char| ascii_upper(c)) == "INSERT"@);
    assert("INSERT"@ != "ESC"@);
    assert("INSERT"@ != "ESCAPE"@) by { assert("INSERT"@[0] != "ESCAPE"@[0]); }
    assert("INSERT"@ != "SPACE"@);
    assert("INSERT"@ != "ENTER"@);
    assert("INSERT"@ != "RETURN"@) by { assert("INSERT"@[0] != "RETURN"@[0]); }
    assert("INSERT"@ != "TAB"@);
    assert("INSERT"@ != "BACKSPACE"@);
    assert("INSERT"@ != "CTRL"@);
    assert("INSERT"@ != "CONTROL"@);
    assert("INSERT"@ != "ALT"@);
    assert("INSERT"@ != "SHIFT"@);
    assert("INSERT"@ != "WIN"@);
    assert("INSERT"@ != "WINDOWS"@);
    assert("INSERT"@ != "META"@);
}

proof fn lemma_named_key_delete()
    ensures
        named_key_facts("Delete"@),
{
    reveal_strlit("ALT");
    reveal_strlit("BACKSPACE");
    reveal_strlit("CONTROL");
    reveal_strlit("CTRL");
    reveal_strlit("DELETE");
    reveal_strlit("Delete");
    reveal_strlit("ENTER");
    reveal_strlit("ESC");
    reveal_strlit("ESCAPE");
    reveal_strlit("INS");
    reveal_strlit("INSERT");
    reveal_strlit("META");
    reveal_strlit("RETURN");
    reveal_strlit("SHIFT");
    reveal_strlit("SPACE");
    reveal_strlit("TAB");
    reveal_strlit("WIN");
    reveal_strlit("WINDOWS");
    lemma_trim_plain("Delete"@);
    assert("Delete"@.map_values(|c: char| ascii_upper(c)) =~= "DELETE"@);
    assert(trim("Delete"@).map_values(|c: char| ascii_upper(c)) == "DELETE"@);
    assert("DELETE"@ != "ESC"@);
    assert("DELETE"@ != "ESCAPE"@) by { assert("DELETE"@[0] != "ESCAPE"@[0]); }
    assert("DELETE"@ != "SPACE"@);
    assert("DELETE"@ != "ENTER"@);
    assert("DELETE"@ != "RETURN"@) by { assert("DELETE"@[0] != "RETURN"@[0]); }
    assert("DELETE"@ != "TAB"@);
    assert("DELETE"@ != "BACKSPACE"@);
    assert("DELETE"@ != "INSERT"@) by { assert("DELETE"@[0] != "INSERT"@[0]); }
    assert("DELETE"@ != "INS"@);
    assert("DELETE"@ != "CTRL"@);
    assert("DELETE"@ != "CONTROL"@);
    assert("DELETE"@ != "ALT"@);
    assert("DELETE"@ != "SHIFT"@);
    assert("DELETE"@ != "WIN"@);
    assert("DELETE"@ != "WINDOWS"@);
    assert("DELETE"@ != "META"@);
}

proof fn lemma_named_key_home()
    ensures
        named_key_facts("Home"@),
{
    reveal_strlit("ALT");
    reveal_strlit("BACKSPACE");
    reveal_strlit("CONTROL");
    reveal_strlit("CTRL");
    reveal_strlit("DEL");
    reveal_strlit("DELETE");
    reveal_strlit("ENTER");
    reveal_strlit("ESC");
    reveal_strlit("ESCAPE");
    reveal_strlit("HOME");
    reveal_strlit("Home");
    reveal_strlit("INS");
    reveal_strlit("INSERT");
    reveal_strlit("META");
    reveal_strlit("RETURN");
    reveal_strlit("SHIFT");
    reveal_strlit("SPACE");
    reveal_strlit("TAB");
    reveal_strlit("WIN");
    reveal_strlit("WINDOWS");
    lemma_trim_plain("Home"@);
    assert("Home"@.map_values(|c: char| ascii_upper(c)) =~= "HOME"@);
    assert(trim("Home"@).map_values(|c: char| ascii_upper(c)) == "HOME"@);
    assert("HOME"@ != "ESC"@);
    assert("HOME"@ != "ESCAPE"@);
    assert("HOME"@ != "SPACE"@);
    assert("HOME"@ != "ENTER"@);
    assert("HOME"@ != "RETURN"@);
    assert("HOME"@ != "TAB"@);
    assert("HOME"@ != "BACKSPACE"@);
    assert("HOME"@ != "INSERT"@);
    assert("HOME"@ != "INS"@);
    assert("HOME"@ != "DELETE"@);
    assert("HOME"@ != "DEL"@);
    assert("HOME"@ != "CTRL"@) by { assert("HOME"@[0] != "CTRL"@[0]); }
    assert("HOME"@ != "CONTROL"@);
    assert("HOME"@ != "ALT"@);
    assert("HOME"@ != "SHIFT"@);
    assert("HOME"@ != "WIN"@);
    assert("HOME"@ != "WINDOWS"@);
    assert("HOME"@ != "META"@) by { assert("HOME"@[0] != "META"@[0]); }
}

proof fn lemma_named_key_end()
    ensures
        named_key_facts("End"@),
{
    reveal_strlit("ALT");
    reveal_strlit("BACKSPACE");
    reveal_strlit("CONTROL");
    reveal_strlit("CTRL");
    reveal_strlit("DEL");
    reveal_strlit("DELETE");
    reveal_strlit("END");
    reveal_strlit("ENTER");
    reveal_strlit("ESC");
    reveal_strlit("ESCAPE");
    reveal_strlit("End");
    reveal_strlit("HOME");
    reveal_strlit("INS");
    reveal_strlit("INSERT");
    reveal_strlit("META");
    reveal_strlit("RETURN");
    reveal_strlit("SHIFT");
    reveal_strlit("SPACE");
    reveal_strlit("TAB");
    reveal_strlit("WIN");
    reveal_strlit("WINDOWS");
    lemma_trim_plain("End"@);
    assert("End"@.map_values(|c: char| ascii_upper(c)) =~= "END"@);
    assert(trim("End"@).map_values(|c: char| ascii_upper(c)) == "END"@);
    assert("END"@ != "ESC"@) by { assert("END"@[1] != "ESC"@[1]); }
    assert("END"@ != "ESCAPE"@);
    assert("END"@ != "SPACE"@);
    assert("END"@ != "ENTER"@);
    assert("END"@ != "RETURN"@);
    assert("END"@ != "TAB"@) by { assert("END"@[0] != "TAB"@[0]); }
    assert("END"@ != "BACKSPACE"@);
    assert("END"@ != "INSERT"@);
    assert("END"@ != "INS"@) by { assert("END"@[0] != "INS"@[0]); }
    assert("END"@ != "DELETE"@);
    assert("END"@ != "DEL"@) by { assert("END"@[0] != "DEL"@[0]); }
    assert("END"@ != "HOME"@);
    assert("END"@ != "CTRL"@);
    assert("END"@ != "CONTROL"@);
    assert("END"@ != "ALT"@) by { assert("END"@[0] != "ALT"@[0]); }
    assert("END"@ != "SHIFT"@);
    assert("END"@ != "WIN"@) by { assert("END"@[0] != "WIN"@[0]); }
    assert("END"@ != "WINDOWS"@);
    assert("END"@ != "META"@);
}

proof fn lemma_named_key_pageup()
    ensures
        named_key_facts("PageUp"@),
{
    reveal_strlit("ALT");
    reveal_strlit("BACKSPACE");
    reveal_strlit("CONTROL");
    reveal_strlit("CTRL");
    reveal_strlit("DEL");
    reveal_strlit("DELETE");
    reveal_strlit("END");
    reveal_strlit("ENTER");
    reveal_strlit("ESC");
    reveal_strlit("ESCAPE");
    reveal_strlit("HOME");
    reveal_strlit("INS");
    reveal_strlit("INSERT");
    reveal_strlit("META");
    reveal_strlit("PAGEUP");
    reveal_strlit("PageUp");
    reveal_strlit("RETURN");
    reveal_strlit("SHIFT");
    reveal_strlit("SPACE");
    reveal_strlit("TAB");
    reveal_strlit("WIN");
    reveal_strlit("WINDOWS");
    lemma_trim_plain("PageUp"@);
    assert("PageUp"@.map_values(|c: char| ascii_upper(c)) =~= "PAGEUP"@);
    assert(trim("PageUp"@).map_values(|c: char| ascii_upper(c)) == "PAGEUP"@);
    assert("PAGEUP"@ != "ESC"@);
    assert("PAGEUP"@ != "ESCAPE"@) by { assert("PAGEUP"@[0] != "ESCAPE"@[0]); }
    assert("PAGEUP"@ != "SPACE"@);
    assert("PAGEUP"@ != "ENTER"@);
    assert("PAGEUP"@ != "RETURN"@) by { assert("PAGEUP"@[0] != "RETURN"@[0]); }
    assert("PAGEUP"@ != "TAB"@);
    assert("PAGEUP"@ != "BACKSPACE"@);
    assert("PAGEUP"@ != "INSERT"@) by { assert("PAGEUP"@[0] != "INSERT"@[0]); }
    assert("PAGEUP"@ != "INS"@);
    assert("PAGEUP"@ != "DELETE"@) by { assert("PAGEUP"@[0] != "DELETE"@[0]); }
    assert("PAGEUP"@ != "DEL"@);
    assert("PAGEUP"@ != "HOME"@);
    assert("PAGEUP"@ != "END"@);
    assert("PAGEUP"@ != "CTRL"@);
    assert("PAGEUP"@ != "CONTROL"@);
    assert("PAGEUP"@ != "ALT"@);
    assert("PAGEUP"@ != "SHIFT"@);
    assert("PAGEUP"@ != "WIN"@);
    assert("PAGEUP"@ != "WINDOWS"@);
    assert("PAGEUP"@ != "META"@);
}

proof fn lemma_named_key_pagedown()
    ensures
        named_key_facts("PageDown"@),
{
    reveal_strlit("ALT");
    reveal_strlit("BACKSPACE");
    reveal_strlit("CONTROL");
    reveal_strlit("CTRL");
    reveal_strlit("DEL");
    reveal_strlit("DELETE");
    reveal_strlit("END");
    reveal_strlit("ENTER");
    reveal_strlit("ESC");
    reveal_strlit("ESCAPE");
    reveal_strlit("HOME");
    reveal_strlit("INS");
    reveal_strlit("INSERT");
    reveal_strlit("META");
    reveal_strlit("PAGEDOWN");
    reveal_strlit("PAGEUP");
    reveal_strlit("PGUP");
    reveal_strlit("PageDown");
    reveal_strlit("RETURN");
    reveal_strlit("SHIFT");
    reveal_strlit("SPACE");
    reveal_strlit("TAB");
    reveal_strlit("WIN");
    reveal_strlit("WINDOWS");
    lemma_trim_plain("PageDown"@);
    assert("PageDown"@.map_values(|c: char| ascii_upper(c)) =~= "PAGEDOWN"@);
    assert(trim("PageDown"@).map_values(|c: char| ascii_upper(c)) == "PAGEDOWN"@);
    assert("PAGEDOWN"@ != "ESC"@);
    assert("PAGEDOWN"@ != "ESCAPE"@);
    assert("PAGEDOWN"@ != "SPACE"@);
    assert("PAGEDOWN"@ != "ENTER"@);
    assert("PAGEDOWN"@ != "RETURN"@);
    assert("PAGEDOWN"@ != "TAB"@);
    assert("PAGEDOWN"@ != "BACKSPACE"@);
    assert("PAGEDOWN"@ != "INSERT"@);
    assert("PAGEDOWN"@ != "INS"@);
    assert("PAGEDOWN"@ != "DELETE"@);
    assert("PAGEDOWN"@ != "DEL"@);
    assert("PAGEDOWN"@ != "HOME"@);
    assert("PAGEDOWN"@ != "END"@);
    assert("PAGEDOWN"@ != "PAGEUP"@);
    assert("PAGEDOWN"@ != "PGUP"@);
    assert("PAGEDOWN"@ != "CTRL"@);
    assert("PAGEDOWN"@ != "CONTROL"@);
    assert("PAGEDOWN"@ != "ALT"@);
    assert("PAGEDOWN"@ != "SHIFT"@);
    assert("PAGEDOWN"@ != "WIN"@);
    assert("PAGEDOWN"@ != "WINDOWS"@);
    assert("PAGEDOWN"@ != "META"@);
}

proof fn lemma_named_key_left()
    ensures
        named_key_facts("Left"@),
{
    reveal_strlit("ALT");
    reveal_strlit("BACKSPACE");
    reveal_strlit("CONTROL");
    reveal_strlit("CTRL");
    reveal_strlit("DEL");
    reveal_strlit("DELETE");
    reveal_strlit("END");
    reveal_strlit("ENTER");
    reveal_strlit("ESC");
    reveal_strlit("ESCAPE");
    reveal_strlit("HOME");
    reveal_strlit("INS");
    reveal_strlit("INSERT");
    reveal_strlit("LEFT");
    reveal_strlit("Left");
    reveal_strlit("META");
    reveal_strlit("PAGEDOWN");
    reveal_strlit("PAGEUP");
    reveal_strlit("PGDN");
    reveal_strlit("PGUP");
    reveal_strlit("RETURN");
    reveal_strlit("SHIFT");
    reveal_strlit("SPACE");
    reveal_strlit("TAB");
    reveal_strlit("WIN");
    reveal_strlit("WINDOWS");
    lemma_trim_plain("Left"@);
    assert("Left"@.map_values(|c: char| ascii_upper(c)) =~= "LEFT"@);
    assert(trim("Left"@).map_values(|c: char| ascii_upper(c)) == "LEFT"@);
    assert("LEFT"@ != "ESC"@);
    assert("LEFT"@ != "ESCAPE"@);
    assert("LEFT"@ != "SPACE"@);
    assert("LEFT"@ != "ENTER"@);
    assert("LEFT"@ != "RETURN"@);
    assert("LEFT"@ != "TAB"@);
    assert("LEFT"@ != "BACKSPACE"@);
    assert("LEFT"@ != "INSERT"@);
    assert("LEFT"@ != "INS"@);
    assert("LEFT"@ != "DELETE"@);
    assert("LEFT"@ != "DEL"@);
    assert("LEFT"@ != "HOME"@) by { assert("LEFT"@[0] != "HOME"@[0]); }
    assert("LEFT"@ != "END"@);
    assert("LEFT"@ != "PAGEUP"@);
    assert("LEFT"@ != "PGUP"@) by { assert("LEFT"@[0] != "PGUP"@[0]); }
    assert("LEFT"@ != "PAGEDOWN"@);
    assert("LEFT"@ != "PGDN"@) by { assert("LEFT"@[0] != "PGDN"@[0]); }
    assert("LEFT"@ != "CTRL"@) by { assert("LEFT"@[0] != "CTRL"@[0]); }
    assert("LEFT"@ != "CONTROL"@);
    assert("LEFT"@ != "ALT"@);
    assert("LEFT"@ != "SHIFT"@);
    assert("LEFT"@ != "WIN"@);
    assert("LEFT"@ != "WINDOWS"@);
    assert("LEFT"@ != "META"@) by { assert("LEFT"@[0] != "META"@[0]); }
}

proof fn lemma_named_key_right()
    ensures
        named_key_facts("Right"@),
{
    reveal_strlit("ALT");
    reveal_strlit("BACKSPACE");
    reveal_strlit("CONTROL");
    reveal_strlit("CTRL");
    reveal_strlit("DEL");
    reveal_strlit("DELETE");
    reveal_strlit("END");
    reveal_strlit("ENTER");
    reveal_strlit("ESC");
    reveal_strlit("ESCAPE");
    reveal_strlit("HOME");
    reveal_strlit("INS");
    reveal_strlit("INSERT");
    reveal_strlit("LEFT");
    reveal_strlit("META");
    reveal_strlit("PAGEDOWN");
    reveal_strlit("PAGEUP");
    reveal_strlit("PGDN");
    reveal_strlit("PGUP");
    reveal_strlit("RETURN");
    reveal_strlit("RIGHT");
    reveal_strlit("Right");
    reveal_strlit("SHIFT");
    reveal_strlit("SPACE");
    reveal_strlit("TAB");
    reveal_strlit("WIN");
    reveal_strlit("WINDOWS");
    lemma_trim_plain("Right"@);
    assert("Right"@.map_values(|c: char| ascii_upper(c)) =~= "RIGHT"@);
    assert(trim("Right"@).map_values(|c: char| ascii_upper(c)) == "RIGHT"@);
    assert("RIGHT"@ != "ESC"@);
    assert("RIGHT"@ != "ESCAPE"@);
    assert("RIGHT"@ != "SPACE"@) by { assert("RIGHT"@[0] != "SPACE"@[0]); }
    assert("RIGHT"@ != "ENTER"@) by { assert("RIGHT"@[0] != "ENTER"@[0]); }
    assert("RIGHT"@ != "RETURN"@);
    assert("RIGHT"@ != "TAB"@);
    assert("RIGHT"@ != "BACKSPACE"@);
    assert("RIGHT"@ != "INSERT"@);
    assert("RIGHT"@ != "INS"@);
    assert("RIGHT"@ != "DELETE"@);
    assert("RIGHT"@ != "DEL"@);
    assert("RIGHT"@ != "HOME"@);
    assert("RIGHT"@ != "END"@);
    assert("RIGHT"@ != "PAGEUP"@);
    assert("RIGHT"@ != "PGUP"@);
    assert("RIGHT"@ != "PAGEDOWN"@);
    assert("RIGHT"@ != "PGDN"@);
    assert("RIGHT"@ != "LEFT"@);
    assert("RIGHT"@ != "CTRL"@);
    assert("RIGHT"@ != "CONTROL"@);
    assert("RIGHT"@ != "ALT"@);
    assert("RIGHT"@ != "SHIFT"@) by { assert("RIGHT"@[0] != "SHIFT"@[0]); }
    assert("RIGHT"@ != "WIN"@);
    assert("RIGHT"@ != "WINDOWS"@);
    assert("RIGHT"@ != "META"@);
}

proof fn lemma_named_key_up()
    ensures
        named_key_facts("Up"@),
{
    reveal_strlit("ALT");
    reveal_strlit("BACKSPACE");
    reveal_strlit("CONTROL");
    reveal_strlit("CTRL");
    reveal_strlit("DEL");
    reveal_strlit("DELETE");
    reveal_strlit("END");
    reveal_strlit("ENTER");
    reveal_strlit("ESC");
    reveal_strlit("ESCAPE");
    reveal_strlit("HOME");
    reveal_strlit("INS");
    reveal_strlit("INSERT");
    reveal_strlit("LEFT");
    reveal_strlit("META");
    reveal_strlit("PAGEDOWN");
    reveal_strlit("PAGEUP");
    reveal_strlit("PGDN");
    reveal_strlit("PGUP");
    reveal_strlit("RETURN");
    reveal_strlit("RIGHT");
    reveal_strlit("SHIFT");
    reveal_strlit("SPACE");
    reveal_strlit("TAB");
    reveal_strlit("UP");
    reveal_strlit("Up");
    reveal_strlit("WIN");
    reveal_strlit("WINDOWS");
    lemma_trim_plain("Up"@);
    assert("Up"@.map_values(|c: char| ascii_upper(c)) =~= "UP"@);
    assert(trim("Up"@).map_values(|c: char| ascii_upper(c)) == "UP"@);
    assert("UP"@ != "ESC"@);
    assert("UP"@ != "ESCAPE"@);
    assert("UP"@ != "SPACE"@);
    assert("UP"@ != "ENTER"@);
    assert("UP"@ != "RETURN"@);
    assert("UP"@ != "TAB"@);
    assert("UP"@ != "BACKSPACE"@);
    assert("UP"@ != "INSERT"@);
    assert("UP"@ != "INS"@);
    assert("UP"@ != "DELETE"@);
    assert("UP"@ != "DEL"@);
    assert("UP"@ != "HOME"@);
    assert("UP"@ != "END"@);
    assert("UP"@ != "PAGEUP"@);
    assert("UP"@ != "PGUP"@);
    assert("UP"@ != "PAGEDOWN"@);
    assert("UP"@ != "PGDN"@);
    assert("UP"@ != "LEFT"@);
    assert("UP"@ != "RIGHT"@);
    assert("UP"@ != "CTRL"@);
    assert("UP"@ != "CONTROL"@);
    assert("UP"@ != "ALT"@);
    assert("UP"@ != "SHIFT"@);
    assert("UP"@ != "WIN"@);
    assert("UP"@ != "WINDOWS"@);
    assert("UP"@ != "META"@);
}

proof fn lemma_named_key_down()
    ensures
        named_key_facts("Down"@),
{
    reveal_strlit("ALT");
    reveal_strlit("BACKSPACE");
    reveal_strlit("CONTROL");
    reveal_strlit("CTRL");
    reveal_strlit("DEL");
    reveal_strlit("DELETE");
    reveal_strlit("DOWN");
    reveal_strlit("Down");
    reveal_strlit("END");
    reveal_strlit("ENTER");
    reveal_strlit("ESC");
    reveal_strlit("ESCAPE");
    reveal_strlit("HOME");
    reveal_strlit("INS");
    reveal_strlit("INSERT");
    reveal_strlit("LEFT");
    reveal_strlit("META");
    reveal_strlit("PAGEDOWN");
    reveal_strlit("PAGEUP");
    reveal_strlit("PGDN");
    reveal_strlit("PGUP");
    reveal_strlit("RETURN");
    reveal_strlit("RIGHT");
    reveal_strlit("SHIFT");
    reveal_strlit("SPACE");
    reveal_strlit("TAB");
    reveal_strlit("UP");
    reveal_strlit("WIN");
    reveal_strlit("WINDOWS");
    lemma_trim_plain("Down"@);
    assert("Down"@.map_values(|c: char| ascii_upper(c)) =~= "DOWN"@);
    assert(trim("Down"@).map_values(|c: char| ascii_upper(c)) == "DOWN"@);
    assert("DOWN"@ != "ESC"@);
    assert("DOWN"@ != "ESCAPE"@);
    assert("DOWN"@ != "SPACE"@);
    assert("DOWN"@ != "ENTER"@);
    assert("DOWN"@ != "RETURN"@);
    assert("DOWN"@ != "TAB"@);
    assert("DOWN"@ != "BACKSPACE"@);
    assert("DOWN"@ != "INSERT"@);
    assert("DOWN"@ != "INS"@);
    assert("DOWN"@ != "DELETE"@);
    assert("DOWN"@ != "DEL"@);
    assert("DOWN"@ != "HOME"@) by { assert("DOWN"@[0] != "HOME"@[0]); }
    assert("DOWN"@ != "END"@);
    assert("DOWN"@ != "PAGEUP"@);
    assert("DOWN"@ != "PGUP"@) by { assert("DOWN"@[0] != "PGUP"@[0]); }
    assert("DOWN"@ != "PAGEDOWN"@);
    assert("DOWN"@ != "PGDN"@) by { assert("DOWN"@[0] != "PGDN"@[0]); }
    assert("DOWN"@ != "LEFT"@) by { assert("DOWN"@[0] != "LEFT"@[0]); }
    assert("DOWN"@ != "RIGHT"@);
    assert("DOWN"@ != "UP"@);
    assert("DOWN"@ != "CTRL"@) by { assert("DOWN"@[0] != "CTRL"@[0]); }
    assert("DOWN"@ != "CONTROL"@);
    assert("DOWN"@ != "ALT"@);
    assert("DOWN"@ != "SHIFT"@);
    assert("DOWN"@ != "WIN"@);
    assert("DOWN"@ != "WINDOWS"@);
    assert("DOWN"@ != "META"@) by { assert("DOWN"@[0] != "META"@[0]); }
}

proof fn lemma_named_keys()
    ensures
        named_key_facts("Esc"@),
        named_key_facts("Space"@),
        named_key_facts("Enter"@),
        named_key_facts("Tab"@),
        named_key_facts("Backspace"@),
        named_key_facts("Insert"@),
        named_key_facts("Delete"@),
        named_key_facts("Home"@),
        named_key_facts("End"@),
        named_key_facts("PageUp"@),
        named_key_facts("PageDown"@),
        named_key_facts("Left"@),
        named_key_facts("Right"@),
        named_key_facts("Up"@),
        named_key_facts("Down"@),
{
    lemma_named_key_esc();
    lemma_named_key_space();
    lemma_named_key_enter();
    lemma_named_key_tab();
    lemma_named_key_backspace();
    lemma_named_key_insert();
    lemma_named_key_delete();
    lemma_named_key_home();
    lemma_named_key_end();
    lemma_named_key_pageup();
    lemma_named_key_pagedown();
    lemma_named_key_left();
    lemma_named_key_right();
    lemma_named_key_up();
    lemma_named_key_down();
}

/// Every name that key normalization gives, and that holds no `+`, reads
/// back as itself.
proof fn lemma_canonical_key(t: Seq<char>)
    requires
        key_token_spec(t) is Some,
    ensures
        named_key_facts(key_token_spec(t)->0),
{
    let tt = trim(t);
    let up = tt.map_values(|c: char| ascii_upper(c));
    let k = key_token_spec(t)->0;
    lemma_named_keys();
    if !named_key_facts(k) {
        // not a named key, so the key is the upper-cased token itself
        assert(k == up);
        reveal_strlit("CTRL");
        reveal_strlit("CONTROL");
        reveal_strlit("ALT");
        reveal_strlit("SHIFT");
        reveal_strlit("WIN");
        reveal_strlit("WINDOWS");
        reveal_strlit("META");
        lemma_trim_edges(t);
        assert(up.len() > 0);
        assert(!is_white_space(up[0]));
        assert(!is_white_space(up.last()));
        lemma_trim_plain(up);
        assert(up.map_values(|c: char| ascii_upper(c)) =~= up);
        assert(trim(up).map_values(|c: char| ascii_upper(c)) == up);
        if up.len() == 1 {
            assert(!is_modifier_name(up));
        } else {
            assert(up[0] == 'F');
            assert(up != "CTRL"@) by { assert(up[0] != "CTRL"@[0]); }
            assert(up != "CONTROL"@) by { assert(up[0] != "CONTROL"@[0]); }
            assert(up != "ALT"@) by { assert(up[0] != "ALT"@[0]); }
            assert(up != "SHIFT"@) by { assert(up[0] != "SHIFT"@[0]); }
            assert(up != "WIN"@) by { assert(up[0] != "WIN"@[0]); }
            assert(up != "WINDOWS"@) by { assert(up[0] != "WINDOWS"@[0]); }
            assert(up != "META"@) by { assert(up[0] != "META"@[0]); }
        }
    }
}

/// The upper-case key names that `key_token_spec` looks up.
proof fn lemma_reveal_key_lookup_names()
    ensures
        "ESC"@.len() >= 2,
        "ESC"@[0] != 'F',
        "ESCAPE"@.len() >= 2,
        "ESCAPE"@[0] != 'F',
        "SPACE"@.len() >= 2,
        "SPACE"@[0] != 'F',
        "ENTER"@.len() >= 2,
        "ENTER"@[0] != 'F',
        "RETURN"@.len() >= 2,
        "RETURN"@[0] != 'F',
        "TAB"@.len() >= 2,
        "TAB"@[0] != 'F',
        "BACKSPACE"@.len() >= 2,
        "BACKSPACE"@[0] != 'F',
        "INSERT"@.len() >= 2,
        "INSERT"@[0] != 'F',
        "INS"@.len() >= 2,
        "INS"@[0] != 'F',
        "DELETE"@.len() >= 2,
        "DELETE"@[0] != 'F',
        "DEL"@.len() >= 2,
        "DEL"@[0] != 'F',
        "HOME"@.len() >= 2,
        "HOME"@[0] != 'F',
        "END"@.len() >= 2,
        "END"@[0] != 'F',
        "PAGEUP"@.len() >= 2,
        "PAGEUP"@[0] != 'F',
        "PGUP"@.len() >= 2,
        "PGUP"@[0] != 'F',
        "PAGEDOWN"@.len() >= 2,
        "PAGEDOWN"@[0] != 'F',
        "PGDN"@.len() >= 2,
        "PGDN"@[0] != 'F',
        "LEFT"@.len() >= 2,
        "LEFT"@[0] != 'F',
        "RIGHT"@.len() >= 2,
        "RIGHT"@[0] != 'F',
        "UP"@.len() >= 2,
        "UP"@[0] != 'F',
        "DOWN"@.len() >= 2,
        "DOWN"@[0] != 'F',
{
    reveal_strlit("ESC");
    reveal_strlit("ESCAPE");
    reveal_strlit("SPACE");
    reveal_strlit("ENTER");
    reveal_strlit("RETURN");
    reveal_strlit("TAB");
    reveal_strlit("BACKSPACE");
    reveal_strlit("INSERT");
    reveal_strlit("INS");
    reveal_strlit("DELETE");
    reveal_strlit("DEL");
    reveal_strlit("HOME");
    reveal_strlit("END");
    reveal_strlit("PAGEUP");
    reveal_strlit("PGUP");
    reveal_strlit("PAGEDOWN");
    reveal_strlit("PGDN");
    reveal_strlit("LEFT");
    reveal_strlit("RIGHT");
    reveal_strlit("UP");
    reveal_strlit("DOWN");
}

/// A single ASCII digit or upper-case letter is its own canonical name.
proof fn lemma_single_char_key(t: Seq<char>)
    requires
        t.len() == 1,
        ('0' <= t[0] && t[0] <= '9') || ('A' <= t[0] && t[0] <= 'Z'),
    ensures
        key_token_spec(t) == Some(t),
{
    lemma_reveal_key_lookup_names();
    lemma_trim_plain(t);
    assert(t.map_values(|c: char| ascii_upper(c)) =~= t);
}

/// `F` followed by digits and naming one of F1..F12 is its own canonical
/// name.
proof fn lemma_function_key(t: Seq<char>)
    requires
        2 <= t.len() <= 3,
        t[0] == 'F',
        forall|i: int| 1 <= i < t.len() ==> '0' <= #[trigger] t[i] && t[i] <= '9',
        is_function_key_name(t),
    ensures
        key_token_spec(t) == Some(t),
{
    lemma_reveal_key_lookup_names();
    lemma_trim_plain(t);
    assert(t.map_values(|c: char| ascii_upper(c)) =~= t);
}

/// Every key that can be captured has a name that is already canonical:
/// normalizing the name of a captured key gives the name back.
#[verifier::spinoff_prover]
#[verifier::rlimit(60)]
pub proof fn law_captured_key_names_are_canonical(key: Key)
    ensures
        key_name(key) matches Some(t) ==> key_token_spec(t) == Some(t),
{
    lemma_named_keys();
    match key {
        Key::Num0 => {
            reveal_strlit("0");
            lemma_single_char_key("0"@);
        },
        Key::Num1 => {
            reveal_strlit("1");
            lemma_single_char_key("1"@);
        },
        Key::Num2 => {
            reveal_strlit("2");
            lemma_single_char_key("2"@);
        },
        Key::Num3 => {
            reveal_strlit("3");
            lemma_single_char_key("3"@);
        },
        Key::Num4 => {
            reveal_strlit("4");
            lemma_single_char_key("4"@);
        },
        Key::Num5 => {
            reveal_strlit("5");
            lemma_single_char_key("5"@);
        },
        Key::Num6 => {
            reveal_strlit("6");
            lemma_single_char_key("6"@);
        },
        Key::Num7 => {
            reveal_strlit("7");
            lemma_single_char_key("7"@);
        },
        Key::Num8 => {
            reveal_strlit("8");
            lemma_single_char_key("8"@);
        },
        Key::Num9 => {
            reveal_strlit("9");
            lemma_single_char_key("9"@);
        },
        Key::A => {
            reveal_strlit("A");
            lemma_single_char_key("A"@);
        },
        Key::B => {
            reveal_strlit("B");
            lemma_single_char_key("B"@);
        },
        Key::C => {
            reveal_strlit("C");
            lemma_single_char_key("C"@);
        },
        Key::D => {
            reveal_strlit("D");
            lemma_single_char_key("D"@);
        },
        Key::E => {
            reveal_strlit("E");
            lemma_single_char_key("E"@);
        },
        Key::F => {
            reveal_strlit("F");
            lemma_single_char_key("F"@);
        },
        Key::G => {
            reveal_strlit("G");
            lemma_single_char_key("G"@);
        },
        Key::H => {
            reveal_strlit("H");
            lemma_single_char_key("H"@);
        },
        Key::I => {
            reveal_strlit("I");
            lemma_single_char_key("I"@);
        },
        Key::J => {
            reveal_strlit("J");
            lemma_single_char_key("J"@);
        },
        Key::K => {
            reveal_strlit("K");
            lemma_single_char_key("K"@);
        },
        Key::L => {
            reveal_strlit("L");
            lemma_single_char_key("L"@);
        },
        Key::M => {
            reveal_strlit("M");
            lemma_single_char_key("M"@);
        },
        Key::N => {
            reveal_strlit("N");
            lemma_single_char_key("N"@);
        },
        Key::O => {
            reveal_strlit("O");
            lemma_single_char_key("O"@);
        },
        Key::P => {
            reveal_strlit("P");
            lemma_single_char_key("P"@);
        },
        Key::Q => {
            reveal_strlit("Q");
            lemma_single_char_key("Q"@);
        },
        Key::R => {
            reveal_strlit("R");
            lemma_single_char_key("R"@);
        },
        Key::S => {
            reveal_strlit("S");
            lemma_single_char_key("S"@);
        },
        Key::T => {
            reveal_strlit("T");
            lemma_single_char_key("T"@);
        },
        Key::U => {
            reveal_strlit("U");
            lemma_single_char_key("U"@);
        },
        Key::V => {
            reveal_strlit("V");
            lemma_single_char_key("V"@);
        },
        Key::W => {
            reveal_strlit("W");
            lemma_single_char_key("W"@);
        },
        Key::X => {
            reveal_strlit("X");
            lemma_single_char_key("X"@);
        },
        Key::Y => {
            reveal_strlit("Y");
            lemma_single_char_key("Y"@);
        },
        Key::Z => {
            reveal_strlit("Z");
            lemma_single_char_key("Z"@);
        },
        Key::F1 => {
            reveal_strlit("F1");
            assert("F1"@.drop_first() =~= seq!['1']);
            assert(seq!['1'].drop_last() =~= Seq::<char>::empty());
            assert(digits_value(Seq::<char>::empty()) == 0);
            assert(digit_value('1') == 1);
            assert(digits_value(seq!['1']) == 1);
            assert(all_digits(seq!['1']));
            lemma_function_key("F1"@);
        },
        Key::F2 => {
            reveal_strlit("F2");
            assert("F2"@.drop_first() =~= seq!['2']);
            assert(seq!['2'].drop_last() =~= Seq::<char>::empty());
            assert(digits_value(Seq::<char>::empty()) == 0);
            assert(digit_value('2') == 2);
            assert(digits_value(seq!['2']) == 2);
            assert(all_digits(seq!['2']));
            lemma_function_key("F2"@);
        },
        Key::F3 => {
            reveal_strlit("F3");
            assert("F3"@.drop_first() =~= seq!['3']);
            assert(seq!['3'].drop_last() =~= Seq::<char>::empty());
            assert(digits_value(Seq::<char>::empty()) == 0);
            assert(digit_value('3') == 3);
            assert(digits_value(seq!['3']) == 3);
            assert(all_digits(seq!['3']));
            lemma_function_key("F3"@);
        },
        Key::F4 => {
            reveal_strlit("F4");
            assert("F4"@.drop_first() =~= seq!['4']);
            assert(seq!['4'].drop_last() =~= Seq::<char>::empty());
            assert(digits_value(Seq::<char>::empty()) == 0);
            assert(digit_value('4') == 4);
            assert(digits_value(seq!['4']) == 4);
            assert(all_digits(seq!['4']));
            lemma_function_key("F4"@);
        },
        Key::F5 => {
            reveal_strlit("F5");
            assert("F5"@.drop_first() =~= seq!['5']);
            assert(seq!['5'].drop_last() =~= Seq::<char>::empty());
            assert(digits_value(Seq::<char>::empty()) == 0);
            assert(digit_value('5') == 5);
            assert(digits_value(seq!['5']) == 5);
            assert(all_digits(seq!['5']));
            lemma_function_key("F5"@);
        },
        Key::F6 => {
            reveal_strlit("F6");
            assert("F6"@.drop_first() =~= seq!['6']);
            assert(seq!['6'].drop_last() =~= Seq::<char>::empty());
            assert(digits_value(Seq::<char>::empty()) == 0);
            assert(digit_value('6') == 6);
            assert(digits_value(seq!['6']) == 6);
            assert(all_digits(seq!['6']));
            lemma_function_key("F6"@);
        },
        Key::F7 => {
            reveal_strlit("F7");
            assert("F7"@.drop_first() =~= seq!['7']);
            assert(seq!['7'].drop_last() =~= Seq::<char>::empty());
            assert(digits_value(Seq::<char>::empty()) == 0);
            assert(digit_value('7') == 7);
            assert(digits_value(seq!['7']) == 7);
            assert(all_digits(seq!['7']));
            lemma_function_key("F7"@);
        },
        Key::F8 => {
            reveal_strlit("F8");
            assert("F8"@.drop_first() =~= seq!['8']);
            assert(seq!['8'].drop_last() =~= Seq::<char>::empty());
            assert(digits_value(Seq::<char>::empty()) == 0);
            assert(digit_value('8') == 8);
            assert(digits_value(seq!['8']) == 8);
            assert(all_digits(seq!['8']));
            lemma_function_key("F8"@);
        },
        Key::F9 => {
            reveal_strlit("F9");
            assert("F9"@.drop_first() =~= seq!['9']);
            assert(seq!['9'].drop_last() =~= Seq::<char>::empty());
            assert(digits_value(Seq::<char>::empty()) == 0);
            assert(digit_value('9') == 9);
            assert(digits_value(seq!['9']) == 9);
            assert(all_digits(seq!['9']));
            lemma_function_key("F9"@);
        },
        Key::F10 => {
            reveal_strlit("F10");
            assert("F10"@.drop_first() =~= seq!['1', '0']);
            assert(seq!['1', '0'].drop_last() =~= seq!['1']);
            assert(seq!['1'].drop_last() =~= Seq::<char>::empty());
            assert(digits_value(Seq::<char>::empty()) == 0);
            assert(digit_value('1') == 1);
            assert(digits_value(seq!['1']) == 1);
            assert(digit_value('0') == 0);
            assert(digits_value(seq!['1', '0']) == 10);
            assert(all_digits(seq!['1', '0']));
            lemma_function_key("F10"@);
        },
        Key::F11 => {
            reveal_strlit("F11");
            assert("F11"@.drop_first() =~= seq!['1', '1']);
            assert(seq!['1', '1'].drop_last() =~= seq!['1']);
            assert(seq!['1'].drop_last() =~= Seq::<char>::empty());
            assert(digits_value(Seq::<char>::empty()) == 0);
            assert(digit_value('1') == 1);
            assert(digits_value(seq!['1']) == 1);
            assert(digit_value('1') == 1);
            assert(digits_value(seq!['1', '1']) == 11);
            assert(all_digits(seq!['1', '1']));
            lemma_function_key("F11"@);
        },
        Key::F12 => {
            reveal_strlit("F12");
            assert("F12"@.drop_first() =~= seq!['1', '2']);
            assert(seq!['1', '2'].drop_last() =~= seq!['1']);
            assert(seq!['1'].drop_last() =~= Seq::<char>::empty());
            assert(digits_value(Seq::<char>::empty()) == 0);
            assert(digit_value('1') == 1);
            assert(digits_value(seq!['1']) == 1);
            assert(digit_value('2') == 2);
            assert(digits_value(seq!['1', '2']) == 12);
            assert(all_digits(seq!['1', '2']));
            lemma_function_key("F12"@);
        },
        _ => {},
    }
}

/// The pieces that the modifiers of a canonical hotkey text split into.
pub open spec fn modifier_pieces(ctrl: bool, alt: bool, shift: bool, win: bool) -> Seq<Seq<char>> {
    let p1 = if ctrl { seq!["Ctrl"@] } else { Seq::empty() };
    let p2 = if alt { p1.push("Alt"@) } else { p1 };
    let p3 = if shift { p2.push("Shift"@) } else { p2 };
    if win { p3.push("Win"@) } else { p3 }
}

proof fn lemma_add_modifier(x: Seq<char>, pieces: Seq<Seq<char>>, name: Seq<char>, with_plus: Seq<char>)
    requires
        split_on(x, '+') == pieces.push(Seq::empty()),
        free_of(name, '+'),
        with_plus == name + seq!['+'],
    ensures
        split_on(x + with_plus, '+') == pieces.push(name).push(Seq::empty()),
{
    lemma_split_append_plain(x, name, '+');
    let q = pieces.push(Seq::empty());
    assert(q.update(q.len() - 1, q.last() + name) =~= pieces.push(name));
    lemma_split_append_sep(x + name, '+');
    assert(x + with_plus =~= (x + name) + seq!['+']);
}

proof fn lemma_modifier_literals()
    ensures
        "Ctrl+"@ == "Ctrl"@ + seq!['+'],
        "Alt+"@ == "Alt"@ + seq!['+'],
        "Shift+"@ == "Shift"@ + seq!['+'],
        "Win+"@ == "Win"@ + seq!['+'],
        free_of("Ctrl"@, '+'),
        free_of("Alt"@, '+'),
        free_of("Shift"@, '+'),
        free_of("Win"@, '+'),
{
    reveal_strlit("Ctrl");
    reveal_strlit("Ctrl+");
    reveal_strlit("Alt");
    reveal_strlit("Alt+");
    reveal_strlit("Shift");
    reveal_strlit("Shift+");
    reveal_strlit("Win");
    reveal_strlit("Win+");
    assert("Ctrl+"@ =~= "Ctrl"@ + seq!['+']);
    assert("Alt+"@ =~= "Alt"@ + seq!['+']);
    assert("Shift+"@ =~= "Shift"@ + seq!['+']);
    assert("Win+"@ =~= "Win"@ + seq!['+']);
}

proof fn lemma_split_hotkey_text(ctrl: bool, alt: bool, shift: bool, win: bool, k: Seq<char>)
    requires
        free_of(k, '+'),
    ensures
        split_on(hotkey_text(ctrl, alt, shift, win, k), '+') == modifier_pieces(ctrl, alt, shift, win).push(k),
{
    lemma_modifier_literals();
    let e = Seq::<char>::empty();
    let a1 = if ctrl { "Ctrl+"@ } else { e };
    let a2 = if alt { "Alt+"@ } else { e };
    let a3 = if shift { "Shift+"@ } else { e };
    let a4 = if win { "Win+"@ } else { e };
    let p1 = if ctrl { seq!["Ctrl"@] } else { Seq::<Seq<char>>::empty() };
    let p2 = if alt { p1.push("Alt"@) } else { p1 };
    let p3 = if shift { p2.push("Shift"@) } else { p2 };
    let p4 = if win { p3.push("Win"@) } else { p3 };
    assert(split_on(e, '+') == Seq::<Seq<char>>::empty().push(e));
    if ctrl {
        lemma_add_modifier(e, Seq::empty(), "Ctrl"@, "Ctrl+"@);
        assert(e + a1 =~= a1);
        assert(Seq::<Seq<char>>::empty().push("Ctrl"@) =~= p1);
    } else {
        assert(a1 =~= e);
    }
    assert(split_on(a1, '+') == p1.push(e));
    if alt {
        lemma_add_modifier(a1, p1, "Alt"@, "Alt+"@);
    } else {
        assert(a1 + a2 =~= a1);
    }
    assert(split_on(a1 + a2, '+') == p2.push(e));
    if shift {
        lemma_add_modifier(a1 + a2, p2, "Shift"@, "Shift+"@);
    } else {
        assert(a1 + a2 + a3 =~= a1 + a2);
    }
    assert(split_on(a1 + a2 + a3, '+') == p3.push(e));
    if win {
        lemma_add_modifier(a1 + a2 + a3, p3, "Win"@, "Win+"@);
    } else {
        assert(a1 + a2 + a3 + a4 =~= a1 + a2 + a3);
    }
    let x = a1 + a2 + a3 + a4;
    assert(split_on(x, '+') == p4.push(e));
    lemma_split_append_plain(x, k, '+');
    let q = p4.push(e);
    assert(q.update(q.len() - 1, q.last() + k) =~= p4.push(k));
    assert(hotkey_text(ctrl, alt, shift, win, k) == x + k);
}

proof fn lemma_modifier_steps(st: HotkeyScan)
    ensures
        hotkey_step(st, "Ctrl"@) == Some((true, st.1, st.2, st.3, st.4)),
        hotkey_step(st, "Alt"@) == Some((st.0, true, st.2, st.3, st.4)),
        hotkey_step(st, "Shift"@) == Some((st.0, st.1, true, st.3, st.4)),
        hotkey_step(st, "Win"@) == Some((st.0, st.1, st.2, true, st.4)),
{
    reveal_strlit("Ctrl");
    reveal_strlit("Alt");
    reveal_strlit("Shift");
    reveal_strlit("Win");
    reveal_strlit("CTRL");
    reveal_strlit("CONTROL");
    reveal_strlit("ALT");
    reveal_strlit("SHIFT");
    reveal_strlit("WIN");
    lemma_trim_plain("Ctrl"@);
    lemma_trim_plain("Alt"@);
    lemma_trim_plain("Shift"@);
    lemma_trim_plain("Win"@);
    assert("Ctrl"@.map_values(|c: char| ascii_upper(c)) =~= "CTRL"@);
    assert("Alt"@.map_values(|c: char| ascii_upper(c)) =~= "ALT"@);
    assert("Shift"@.map_values(|c: char| ascii_upper(c)) =~= "SHIFT"@);
    assert("Win"@.map_values(|c: char| ascii_upper(c)) =~= "WIN"@);
    assert("WIN"@ != "ALT"@) by { assert("WIN"@[0] != "ALT"@[0]); }
}

proof fn lemma_scan_push(p: Seq<Seq<char>>, x: Seq<char>)
    ensures
        hotkey_scan(p.push(x)) == match hotkey_scan(p) {
            Some(st) => hotkey_step(st, x),
            None => None,
        },
{
    assert(p.push(x).drop_last() =~= p);
}

proof fn lemma_scan_modifiers(ctrl: bool, alt: bool, shift: bool, win: bool)
    ensures
        hotkey_scan(modifier_pieces(ctrl, alt, shift, win)) == Some((ctrl, alt, shift, win, None::<Seq<char>>)),
{
    let e = Seq::<Seq<char>>::empty();
    let p1 = if ctrl { seq!["Ctrl"@] } else { e };
    let p2 = if alt { p1.push("Alt"@) } else { p1 };
    let p3 = if shift { p2.push("Shift"@) } else { p2 };
    lemma_modifier_steps((false, false, false, false, None));
    lemma_modifier_steps((ctrl, false, false, false, None));
    lemma_modifier_steps((ctrl, alt, false, false, None));
    lemma_modifier_steps((ctrl, alt, shift, false, None));
    if ctrl {
        assert(seq!["Ctrl"@] =~= e.push("Ctrl"@));
        lemma_scan_push(e, "Ctrl"@);
    }
    assert(hotkey_scan(p1) == Some((ctrl, false, false, false, None::<Seq<char>>)));
    if alt {
        lemma_scan_push(p1, "Alt"@);
    }
    assert(hotkey_scan(p2) == Some((ctrl, alt, false, false, None::<Seq<char>>)));
    if shift {
        lemma_scan_push(p2, "Shift"@);
    }
    assert(hotkey_scan(p3) == Some((ctrl, alt, shift, false, None::<Seq<char>>)));
    if win {
        lemma_scan_push(p3, "Win"@);
    }
}

/// Parsing the canonical text of a hotkey gives the hotkey back: for every
/// key name that normalization produces and that holds no `+`, and any set
/// of modifiers, `parse_boss_hotkey(normalize_boss_hotkey(..))` describes
/// the same modifiers and key.
pub proof fn law_hotkey_text_roundtrip(ctrl: bool, alt: bool, shift: bool, win: bool, token: Seq<char>)
    requires
        key_token_spec(token) is Some,
        free_of(key_token_spec(token)->0, '+'),
    ensures
        parse_hotkey_spec(hotkey_text(ctrl, alt, shift, win, key_token_spec(token)->0))
            == Some((ctrl, alt, shift, win, key_token_spec(token)->0)),
{
    let k = key_token_spec(token)->0;
    lemma_canonical_key(token);
    lemma_split_hotkey_text(ctrl, alt, shift, win, k);
    lemma_scan_modifiers(ctrl, alt, shift, win);
    lemma_scan_push(modifier_pieces(ctrl, alt, shift, win), k);
    reveal_strlit("CTRL");
    reveal_strlit("CONTROL");
    reveal_strlit("ALT");
    reveal_strlit("SHIFT");
    reveal_strlit("WIN");
    reveal_strlit("WINDOWS");
    reveal_strlit("META");
    assert(hotkey_step((ctrl, alt, shift, win, None), k) == Some((ctrl, alt, shift, win, Some(k))));
}

/// Every piece of a split holds no separator.
proof fn lemma_split_pieces_free(s: Seq<char>, sep: char)
    ensures
        forall|i: int| 0 <= i < split_on(s, sep).len() ==> free_of(#[trigger] split_on(s, sep)[i], sep),
    decreases s.len(),
{
    if s.len() > 0 {
        lemma_split_pieces_free(s.drop_last(), sep);
        lemma_split_nonempty(s.drop_last(), sep);
        let p = split_on(s.drop_last(), sep);
        if s.last() != sep {
            let q = p.update(p.len() - 1, p.last().push(s.last()));
            assert(split_on(s, sep) == q);
            assert forall|i: int| 0 <= i < q.len() implies free_of(#[trigger] q[i], sep) by {
                if i == p.len() - 1 {
                    assert(free_of(p[i], sep));
                    assert forall|j: int| 0 <= j < q[i].len() implies q[i][j] != sep by {
                        if j < p[i].len() {
                            assert(q[i][j] == p[i][j]);
                        }
                    }
                }
            }
        } else {
            assert(split_on(s, sep) == p.push(Seq::<char>::empty()));
        }
    }
}

/// Trimming keeps a text free of `c`.
proof fn lemma_trim_free(s: Seq<char>, c: char)
    requires
        free_of(s, c),
    ensures
        free_of(trim(s), c),
{
    lemma_trim_start_free(s, c);
    lemma_trim_end_free(trim_start(s), c);
}

proof fn lemma_trim_start_free(s: Seq<char>, c: char)
    requires
        free_of(s, c),
    ensures
        free_of(trim_start(s), c),
    decreases s.len(),
{
    if s.len() > 0 && is_white_space(s[0]) {
        assert(free_of(s.drop_first(), c)) by {
            assert forall|j: int| 0 <= j < s.drop_first().len() implies s.drop_first()[j] != c by {
                assert(s.drop_first()[j] == s[j + 1]);
            }
        }
        lemma_trim_start_free(s.drop_first(), c);
    }
}

proof fn lemma_trim_end_free(s: Seq<char>, c: char)
    requires
        free_of(s, c),
    ensures
        free_of(trim_end(s), c),
    decreases s.len(),
{
    if s.len() > 0 && is_white_space(s.last()) {
        assert(free_of(s.drop_last(), c)) by {
            assert forall|j: int| 0 <= j < s.drop_last().len() implies s.drop_last()[j] != c by {
                assert(s.drop_last()[j] == s[j]);
            }
        }
        lemma_trim_end_free(s.drop_last(), c);
    }
}

/// The named keys hold no `+`.
proof fn lemma_named_keys_free_of_plus()
    ensures
        free_of("Esc"@, '+'),
        free_of("Space"@, '+'),
        free_of("Enter"@, '+'),
        free_of("Tab"@, '+'),
        free_of("Backspace"@, '+'),
        free_of("Insert"@, '+'),
        free_of("Delete"@, '+'),
        free_of("Home"@, '+'),
        free_of("End"@, '+'),
        free_of("PageUp"@, '+'),
        free_of("PageDown"@, '+'),
        free_of("Left"@, '+'),
        free_of("Right"@, '+'),
        free_of("Up"@, '+'),
        free_of("Down"@, '+'),
{
    reveal_strlit("Esc");
    assert forall|i: int| 0 <= i < "Esc"@.len() implies "Esc"@[i] != '+' by {
        if i == 0 {}
        if i == 1 {}
        if i == 2 {}
    }
    reveal_strlit("Space");
    assert forall|i: int| 0 <= i < "Space"@.len() implies "Space"@[i] != '+' by {
        if i == 0 {}
        if i == 1 {}
        if i == 2 {}
        if i == 3 {}
        if i == 4 {}
    }
    reveal_strlit("Enter");
    assert forall|i: int| 0 <= i < "Enter"@.len() implies "Enter"@[i] != '+' by {
        if i == 0 {}
        if i == 1 {}
        if i == 2 {}
        if i == 3 {}
        if i == 4 {}
    }
    reveal_strlit("Tab");
    assert forall|i: int| 0 <= i < "Tab"@.len() implies "Tab"@[i] != '+' by {
        if i == 0 {}
        if i == 1 {}
        if i == 2 {}
    }
    reveal_strlit("Backspace");
    assert forall|i: int| 0 <= i < "Backspace"@.len() implies "Backspace"@[i] != '+' by {
        if i == 0 {}
        if i == 1 {}
        if i == 2 {}
        if i == 3 {}
        if i == 4 {}
        if i == 5 {}
        if i == 6 {}
        if i == 7 {}
        if i == 8 {}
    }
    reveal_strlit("Insert");
    assert forall|i: int| 0 <= i < "Insert"@.len() implies "Insert"@[i] != '+' by {
        if i == 0 {}
        if i == 1 {}
        if i == 2 {}
        if i == 3 {}
        if i == 4 {}
        if i == 5 {}
    }
    reveal_strlit("Delete");
    assert forall|i: int| 0 <= i < "Delete"@.len() implies "Delete"@[i] != '+' by {
        if i == 0 {}
        if i == 1 {}
        if i == 2 {}
        if i == 3 {}
        if i == 4 {}
        if i == 5 {}
    }
    reveal_strlit("Home");
    assert forall|i: int| 0 <= i < "Home"@.len() implies "Home"@[i] != '+' by {
        if i == 0 {}
        if i == 1 {}
        if i == 2 {}
        if i == 3 {}
    }
    reveal_strlit("End");
    assert forall|i: int| 0 <= i < "End"@.len() implies "End"@[i] != '+' by {
        if i == 0 {}
        if i == 1 {}
        if i == 2 {}
    }
    reveal_strlit("PageUp");
    assert forall|i: int| 0 <= i < "PageUp"@.len() implies "PageUp"@[i] != '+' by {
        if i == 0 {}
        if i == 1 {}
        if i == 2 {}
        if i == 3 {}
        if i == 4 {}
        if i == 5 {}
    }
    reveal_strlit("PageDown");
    assert forall|i: int| 0 <= i < "PageDown"@.len() implies "PageDown"@[i] != '+' by {
        if i == 0 {}
        if i == 1 {}
        if i == 2 {}
        if i == 3 {}
        if i == 4 {}
        if i == 5 {}
        if i == 6 {}
        if i == 7 {}
    }
    reveal_strlit("Left");
    assert forall|i: int| 0 <= i < "Left"@.len() implies "Left"@[i] != '+' by {
        if i == 0 {}
        if i == 1 {}
        if i == 2 {}
        if i == 3 {}
    }
    reveal_strlit("Right");
    assert forall|i: int| 0 <= i < "Right"@.len() implies "Right"@[i] != '+' by {
        if i == 0 {}
        if i == 1 {}
        if i == 2 {}
        if i == 3 {}
        if i == 4 {}
    }
    reveal_strlit("Up");
    assert forall|i: int| 0 <= i < "Up"@.len() implies "Up"@[i] != '+' by {
        if i == 0 {}
        if i == 1 {}
    }
    reveal_strlit("Down");
    assert forall|i: int| 0 <= i < "Down"@.len() implies "Down"@[i] != '+' by {
        if i == 0 {}
        if i == 1 {}
        if i == 2 {}
        if i == 3 {}
    }
}

/// Normalizing a token without `+` gives a name without `+`.
proof fn lemma_key_free_of_plus(t: Seq<char>)
    requires
        key_token_spec(t) is Some,
        free_of(t, '+'),
    ensures
        free_of(key_token_spec(t)->0, '+'),
{
    let tt = trim(t);
    let up = tt.map_values(|c: char| ascii_upper(c));
    let k = key_token_spec(t)->0;
    lemma_named_keys_free_of_plus();
    lemma_trim_free(t, '+');
    assert forall|i: int| 0 <= i < up.len() implies up[i] != '+' by {
        assert(tt[i] != '+');
        assert(up[i] == ascii_upper(tt[i]));
    }
    assert(free_of(up, '+'));
}

/// The key found so far when reading `pieces`, if any.
pub open spec fn scanned_key(pieces: Seq<Seq<char>>) -> Option<Seq<char>> {
    match hotkey_scan(pieces) {
        Some(st) => st.4,
        None => None,
    }
}

/// The key of a hotkey read from pieces without `+` is a canonical name
/// without `+`.
proof fn lemma_scanned_key_canonical(pieces: Seq<Seq<char>>)
    requires
        forall|i: int| 0 <= i < pieces.len() ==> free_of(#[trigger] pieces[i], '+'),
        scanned_key(pieces) is Some,
    ensures
        free_of(scanned_key(pieces)->0, '+'),
        key_token_spec(scanned_key(pieces)->0) == scanned_key(pieces),
    decreases pieces.len(),
{
    let raw = pieces.last();
    let token = trim(raw);
    assert(free_of(raw, '+'));
    let st = hotkey_scan(pieces.drop_last()).unwrap();
    if st.4 is Some && scanned_key(pieces) == st.4 {
        assert forall|i: int| 0 <= i < pieces.drop_last().len() implies free_of(
            #[trigger] pieces.drop_last()[i],
            '+',
        ) by {
            assert(pieces.drop_last()[i] == pieces[i]);
        }
        lemma_scanned_key_canonical(pieces.drop_last());
    } else {
        assert(scanned_key(pieces) == key_token_spec(token));
        lemma_trim_free(raw, '+');
        lemma_key_free_of_plus(token);
        lemma_canonical_key(token);
    }
}

/// A hotkey read from any text reads back unchanged from its canonical
/// text: the normalized form that is stored is a fixed point, so a saved
/// hotkey reloads as the same hotkey.
pub proof fn law_parsed_hotkey_reparses(input: Seq<char>)
    requires
        parse_hotkey_spec(input) is Some,
    ensures
        ({
            let h = parse_hotkey_spec(input)->0;
            parse_hotkey_spec(hotkey_text(h.0, h.1, h.2, h.3, h.4)) == Some(h)
        }),
{
    let h = parse_hotkey_spec(input)->0;
    lemma_split_pieces_free(input, '+');
    lemma_scanned_key_canonical(split_on(input, '+'));
    assert(scanned_key(split_on(input, '+')) == Some(h.4));
    law_hotkey_text_roundtrip(h.0, h.1, h.2, h.3, h.4);
}

} // verus!
