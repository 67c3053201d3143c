//! Names of files and of links inside EPUB documents.
use vstd::prelude::*;
use crate::text::{
    ascii_lower, ascii_lower_chars, chars_eq, chars_of, has_prefix, occurs_at, rfind_chars, rfind_seq,
    slice_range, split_chars, split_on, starts_with_chars, string_of, trim, trim_chars,
};

verus! {

/// The extension of a file name as `Path::extension` finds it: the part after
/// the last `.`, unless there is none, the only dot starts the name, or the
/// name is `..`.
pub open spec fn extension_of(name: Seq<char>) -> Option<Seq<char>> {
    if name == ".."@ {
        None
    } else {
        match rfind_seq(name, seq!['.']) {
            None => None,
            Some(i) => if i == 0 {
                None
            } else {
                Some(name.skip(i + 1))
            },
        }
    }
}

/// Whether a file name has a font extension (`ttf`, `otf`, `ttc`, `otc`,
/// any ASCII case).
pub open spec fn is_font_name(name: Seq<char>) -> bool {
    match extension_of(name) {
        Some(ext) => {
            let e = ext.map_values(|c: char| ascii_lower(c));
            e == "ttf"@ || e == "otf"@ || e == "ttc"@ || e == "otc"@
        },
        None => false,
    }
}

/// Whether the file called `file_name` is a font file.
pub fn is_font_file(file_name: &str) -> (b: bool)
    ensures
        b == is_font_name(file_name@),
{
    let name = chars_of(file_name);
    if chars_eq(&name, &chars_of("..")) {
        return false;
    }
    let mut dot: Vec<char> = Vec::new();
    dot.push('.');
    assert(dot@ == seq!['.']);
    let pos = match rfind_chars(&name, &dot) {
        Some(p) => p,
        None => {
            return false;
        },
    };
    assert(dot@ == seq!['.']);
    assert(occurs_at(name@, dot@, pos as int));
    assert(pos + 1 <= name@.len());
    if pos == 0 {
        return false;
    }
    let n = name.len();
    let ext = slice_range(&name, pos + 1, n);
    let e = ascii_lower_chars(&ext);
    chars_eq(&e, &chars_of("ttf")) || chars_eq(&e, &chars_of("otf")) || chars_eq(
        &e,
        &chars_of("ttc"),
    ) || chars_eq(&e, &chars_of("otc"))
}

/// `s` with every leading `./` removed (`trim_start_matches("./")`).
pub open spec fn strip_dot_slashes(s: Seq<char>) -> Seq<char>
    decreases s.len(),
{
    if has_prefix(s, seq!['.', '/']) {
        strip_dot_slashes(s.skip(2))
    } else {
        s
    }
}

/// `s` without leading `/` characters.
pub open spec fn trim_start_slashes(s: Seq<char>) -> Seq<char>
    decreases s.len(),
{
    if s.len() > 0 && s[0] == '/' {
        trim_start_slashes(s.drop_first())
    } else {
        s
    }
}

/// `s` without trailing `/` characters.
pub open spec fn trim_end_slashes(s: Seq<char>) -> Seq<char>
    decreases s.len(),
{
    if s.len() > 0 && s.last() == '/' {
        trim_end_slashes(s.drop_last())
    } else {
        s
    }
}

/// A link target inside an EPUB, normalized for comparison: trimmed, the
/// `#fragment` dropped, leading `./` removed and `/` trimmed from both ends.
pub open spec fn normalized_href(href: Seq<char>) -> Seq<char> {
    let s = trim(split_on(trim(href), '#')[0]);
    trim_end_slashes(trim_start_slashes(strip_dot_slashes(s)))
}

/// Normalizes a link target inside an EPUB document.
pub fn normalize_epub_href(href: &str) -> (r: String)
    ensures
        r@ == normalized_href(href@),
{
    let all = chars_of(href);
    let t = trim_chars(&all);
    let pieces = split_chars(&t, '#');
    let s = trim_chars(&pieces[0]);
    if s.len() == 0 {
        return String::new();
    }
    let mut dot_slash: Vec<char> = Vec::new();
    dot_slash.push('.');
    dot_slash.push('/');
    let mut i: usize = 0;
    assert(s@.skip(0) == s@);
    while s.len() - i >= 2 && starts_with_chars(&slice_range(&s, i, s.len()), &dot_slash)
        invariant
            i <= s.len(),
            dot_slash@ == seq!['.', '/'],
            strip_dot_slashes(s@) == strip_dot_slashes(s@.skip(i as int)),
        decreases s.len() - i,
    {
        assert(s@.skip(i as int).skip(2) == s@.skip(i + 2));
        i = i + 2;
    }
    proof {
        let rest = s@.skip(i as int);
        if has_prefix(rest, seq!['.', '/']) {
            assert(rest.len() >= 2);
        }
    }
    let mut a = i;
    while a < s.len() && s[a] == '/'
        invariant
            i <= a <= s.len(),
            trim_start_slashes(s@.skip(i as int)) == trim_start_slashes(s@.skip(a as int)),
        decreases s.len() - a,
    {
        assert(s@.skip(a as int).drop_first() == s@.skip(a + 1));
        a = a + 1;
    }
    let mut b = s.len();
    while b > a && s[b - 1] == '/'
        invariant
            a <= b <= s.len(),
            trim_end_slashes(s@.skip(a as int)) == trim_end_slashes(s@.subrange(a as int, b as int)),
        decreases b,
    {
        assert(s@.subrange(a as int, b as int).drop_last() == s@.subrange(a as int, b - 1));
        b = b - 1;
    }
    proof {
        assert(s@.skip(a as int) == s@.subrange(a as int, s@.len() as int));
    }
    string_of(&slice_range(&s, a, b))
}

} // verus!
