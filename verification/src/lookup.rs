//! Looking up selected text: the dictionary and translation pages opened
//! from the selection toolbar.
use vstd::prelude::*;
use crate::text::{chars_of, string_of, extend_chars, slice_range};

verus! {

/// The UTF-8 bytes of `c`.
pub open spec fn utf8_bytes(c: char) -> Seq<u8> {
    let n = c as u32;
    if n < 0x80 {
        seq![n as u8]
    } else if n < 0x800 {
        seq![(0xC0 + n / 64) as u8, (0x80 + n % 64) as u8]
    } else if n < 0x10000 {
        seq![(0xE0 + n / 4096) as u8, (0x80 + (n / 64) % 64) as u8, (0x80 + n % 64) as u8]
    } else {
        seq![
            (0xF0 + n / 262144) as u8,
            (0x80 + (n / 4096) % 64) as u8,
            (0x80 + (n / 64) % 64) as u8,
            (0x80 + n % 64) as u8,
        ]
    }
}

/// An upper-case hexadecimal digit for `d < 16`.
pub open spec fn hex_upper(d: nat) -> char {
    if d < 10 { (('0' as nat) + d) as char } else { (('A' as nat) + d - 10) as char }
}

/// `%XY` for each byte.
pub open spec fn percent_bytes(bytes: Seq<u8>) -> Seq<char>
    decreases bytes.len(),
{
    if bytes.len() == 0 {
        Seq::empty()
    } else {
        percent_bytes(bytes.drop_last())
            + seq!['%', hex_upper((bytes.last() / 16) as nat), hex_upper((bytes.last() % 16) as nat)]
    }
}

/// ASCII letters, digits, `-`, `.`, `_` and `~` are left as they are.
pub open spec fn is_unreserved(c: char) -> bool {
    ('0' <= c && c <= '9') || ('A' <= c && c <= 'Z') || ('a' <= c && c <= 'z')
        || c == '-' || c == '.' || c == '_' || c == '~'
}

/// `s` percent-encoded: unreserved characters kept, every UTF-8 byte of the
/// others written as `%XY` (upper-case hexadecimal).
pub open spec fn percent_encoded(s: Seq<char>) -> Seq<char>
    decreases s.len(),
{
    if s.len() == 0 {
        Seq::empty()
    } else {
        percent_encoded(s.drop_last()) + if is_unreserved(s.last()) {
            seq![s.last()]
        } else {
            percent_bytes(utf8_bytes(s.last()))
        }
    }
}

/// `urlencoding::encode`: percent-encodes every byte of the UTF-8 text
/// except ASCII letters, digits, `-`, `_`, `.` and `~`, as its documentation
/// and source state (`%` and two upper-case hexadecimal digits per byte).
#[verifier::external_body]
fn url_encode(text: &str) -> (r: String)
    ensures
        r@ == percent_encoded(text@),
{
    urlencoding::encode(text).into_owned()
}

/// The first `n` characters of `s` (all of it when shorter).
pub open spec fn first_chars(s: Seq<char>, n: nat) -> Seq<char> {
    if s.len() <= n { s } else { s.take(n as int) }
}

fn first_chars_of(text: &str, n: usize) -> (v: Vec<char>)
    ensures
        v@ == first_chars(text@, n as nat),
{
    let all = chars_of(text);
    if all.len() <= n {
        all
    } else {
        slice_range(&all, 0, n)
    }
}

/// The dictionary page for the first 20 characters of the selection.
pub fn dictionary_url(text: &str) -> (url: String)
    ensures
        url@ == "https://www.zdic.net/hans/"@ + first_chars(text@, 20),
{
    let mut v = chars_of("https://www.zdic.net/hans/");
    extend_chars(&mut v, &first_chars_of(text, 20));
    string_of(&v)
}

/// The translation page for the first 200 characters of the selection,
/// percent-encoded, from any language to English.
pub fn translate_url(text: &str) -> (url: String)
    ensures
        url@ == "https://translate.google.com/?sl=auto&tl=en&text="@ + percent_encoded(first_chars(text@, 200)),
{
    let head = string_of(&first_chars_of(text, 200));
    let encoded = url_encode(head.as_str());
    let mut v = chars_of("https://translate.google.com/?sl=auto&tl=en&text=");
    extend_chars(&mut v, &chars_of(encoded.as_str()));
    string_of(&v)
}

} // verus!
