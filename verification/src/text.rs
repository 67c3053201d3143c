//! Character-level helpers shared by the parsers and formatters of the crate:
//! conversions between strings and character vectors, whitespace trimming,
//! ASCII case mapping, and decimal numbers.
use vstd::prelude::*;

verus! {

/// Appends `c` to `s` (`String::push`).
#[verifier::external_body]
pub(crate) fn push_char(s: &mut String, c: char)
    ensures
        final(s)@ == old(s)@.push(c),
{
    s.push(c);
}

/// The characters of `s`, in order.
pub fn chars_of(s: &str) -> (v: Vec<char>)
    ensures
        v@ == s@,
{
    let mut v: Vec<char> = Vec::new();
    for c in it: s.chars()
        invariant
            v@ == it.seq().take(it.index() as int),
            it.seq() == s@,
    {
        v.push(c);
    }
    v
}

/// A string made of the characters of `v`, in order.
pub fn string_of(v: &[char]) -> (s: String)
    ensures
        s@ == v@,
{
    let mut s = String::new();
    let mut i: usize = 0;
    while i < v.len()
        invariant
            i <= v.len(),
            s@ == v@.take(i as int),
        decreases v.len() - i,
    {
        push_char(&mut s, v[i]);
        i = i + 1;
        assert(s@ == v@.take(i as int));
    }
    assert(v@.take(v.len() as int) == v@);
    s
}


/// Unicode `White_Space` characters: what `char::is_whitespace` accepts and
/// what `str::trim` removes.
pub open spec fn is_white_space(c: char) -> bool {
    ||| ('\u{9}' <= c && c <= '\u{d}')
    ||| c == ' '
    ||| c == '\u{85}'
    ||| c == '\u{a0}'
    ||| c == '\u{1680}'
    ||| ('\u{2000}' <= c && c <= '\u{200a}')
    ||| c == '\u{2028}'
    ||| c == '\u{2029}'
    ||| c == '\u{202f}'
    ||| c == '\u{205f}'
    ||| c == '\u{3000}'
}

/// `s` without its leading white space.
pub open spec fn trim_start(s: Seq<char>) -> Seq<char>
    decreases s.len(),
{
    if s.len() > 0 && is_white_space(s[0]) {
        trim_start(s.drop_first())
    } else {
        s
    }
}

/// `s` without its trailing white space.
pub open spec fn trim_end(s: Seq<char>) -> Seq<char>
    decreases s.len(),
{
    if s.len() > 0 && is_white_space(s.last()) {
        trim_end(s.drop_last())
    } else {
        s
    }
}

/// `s` without leading and trailing white space (`str::trim`).
pub open spec fn trim(s: Seq<char>) -> Seq<char> {
    trim_end(trim_start(s))
}

/// Whether `c` is Unicode white space.
pub fn is_white_space_char(c: char) -> (b: bool)
    ensures
        b == is_white_space(c),
{
    ('\u{9}' <= c && c <= '\u{d}') || c == ' ' || c == '\u{85}' || c == '\u{a0}' || c
        == '\u{1680}' || ('\u{2000}' <= c && c <= '\u{200a}') || c == '\u{2028}' || c
        == '\u{2029}' || c == '\u{202f}' || c == '\u{205f}' || c == '\u{3000}'
}

proof fn lemma_trim_start_skip(s: Seq<char>, i: int)
    requires
        0 <= i <= s.len(),
        forall|k: int| 0 <= k < i ==> is_white_space(#[trigger] s[k]),
    ensures
        trim_start(s) == trim_start(s.skip(i)),
    decreases i,
{
    if i > 0 {
        assert(s.skip(1) == s.drop_first());
        lemma_trim_start_skip(s.drop_first(), i - 1);
        assert(s.drop_first().skip(i - 1) == s.skip(i));
    } else {
        assert(s.skip(0) == s);
    }
}

proof fn lemma_trim_end_take(s: Seq<char>, j: int)
    requires
        0 <= j <= s.len(),
        forall|k: int| j <= k < s.len() ==> is_white_space(#[trigger] s[k]),
    ensures
        trim_end(s) == trim_end(s.take(j)),
    decreases s.len() - j,
{
    if j < s.len() {
        assert(s.take(s.len() - 1) == s.drop_last());
        lemma_trim_end_take(s.drop_last(), j);
        assert(s.drop_last().take(j) == s.take(j));
    } else {
        assert(s.take(j) == s);
    }
}

/// The bounds `(start, end)` of the trimmed part of `v`: `v[start..end]` is
/// `trim(v)`.
pub fn trim_bounds(v: &[char]) -> (r: (usize, usize))
    ensures
        r.0 <= r.1 <= v.len(),
        v@.subrange(r.0 as int, r.1 as int) == trim(v@),
        trim_start(v@) == v@.skip(r.0 as int),
{
    let mut i: usize = 0;
    while i < v.len() && is_white_space_char(v[i])
        invariant
            i <= v.len(),
            forall|k: int| 0 <= k < i ==> is_white_space(#[trigger] v@[k]),
        decreases v.len() - i,
    {
        i = i + 1;
    }
    proof {
        lemma_trim_start_skip(v@, i as int);
    }
    let mut j: usize = v.len();
    while j > i && is_white_space_char(v[j - 1])
        invariant
            i <= j <= v.len(),
            forall|k: int| j <= k < v.len() ==> is_white_space(#[trigger] v@[k]),
        decreases j,
    {
        j = j - 1;
    }
    proof {
        let t = v@.skip(i as int);
        if i < j {
            assert(!is_white_space(t[0]));
        }
        assert(trim_start(t) == t);
        assert forall|k: int| (j - i) <= k < t.len() implies is_white_space(#[trigger] t[k]) by {
            assert(t[k] == v@[k + i]);
        }
        lemma_trim_end_take(t, j - i);
        let u = t.take(j - i);
        assert(u == v@.subrange(i as int, j as int));
        if j > i {
            assert(u.last() == v@[j - 1]);
        }
        assert(trim_end(u) == u);
    }
    (i, j)
}

/// The trimmed characters of `v` (`str::trim`).
pub fn trim_chars(v: &[char]) -> (t: Vec<char>)
    ensures
        t@ == trim(v@),
{
    let (i, j) = trim_bounds(v);
    slice_range(v, i, j)
}

/// `v[from..to]` as a new vector.
pub fn slice_range(v: &[char], from: usize, to: usize) -> (r: Vec<char>)
    requires
        from <= to <= v.len(),
    ensures
        r@ == v@.subrange(from as int, to as int),
{
    let mut r: Vec<char> = Vec::new();
    let mut k = from;
    while k < to
        invariant
            from <= k <= to <= v.len(),
            r@ == v@.subrange(from as int, k as int),
        decreases to - k,
    {
        r.push(v[k]);
        k = k + 1;
    }
    r
}

/// ASCII upper-case form of a character (`char::to_ascii_uppercase`).
pub open spec fn ascii_upper(c: char) -> char {
    if 'a' <= c && c <= 'z' {
        ((c as u32) - 32) as char
    } else {
        c
    }
}

/// ASCII lower-case form of a character (`char::to_ascii_lowercase`).
pub open spec fn ascii_lower(c: char) -> char {
    if 'A' <= c && c <= 'Z' {
        ((c as u32) + 32) as char
    } else {
        c
    }
}

/// ASCII upper-case form of a character.
pub fn ascii_upper_char(c: char) -> (u: char)
    ensures
        u == ascii_upper(c),
{
    if 'a' <= c && c <= 'z' {
        let n: u32 = (c as u32) - 32;
        assert(n <= 0x7f);
        char_from_ascii(n)
    } else {
        c
    }
}

/// ASCII lower-case form of a character.
pub fn ascii_lower_char(c: char) -> (u: char)
    ensures
        u == ascii_lower(c),
{
    if 'A' <= c && c <= 'Z' {
        let n: u32 = (c as u32) + 32;
        char_from_ascii(n)
    } else {
        c
    }
}

/// The character with ASCII code `n`.
fn char_from_ascii(n: u32) -> (c: char)
    requires
        n < 128,
    ensures
        c == n as char,
{
    let b: u8 = n as u8;
    b as char
}

/// ASCII upper-case form of a whole character sequence.
pub fn ascii_upper_chars(v: &[char]) -> (u: Vec<char>)
    ensures
        u@ == v@.map_values(|c: char| ascii_upper(c)),
{
    let mut u: Vec<char> = Vec::new();
    let mut k: usize = 0;
    while k < v.len()
        invariant
            k <= v.len(),
            u@ == v@.take(k as int).map_values(|c: char| ascii_upper(c)),
        decreases v.len() - k,
    {
        u.push(ascii_upper_char(v[k]));
        k = k + 1;
        assert(u@ == v@.take(k as int).map_values(|c: char| ascii_upper(c)));
    }
    assert(v@.take(v.len() as int) == v@);
    u
}

/// ASCII lower-case form of a whole character sequence.
pub fn ascii_lower_chars(v: &[char]) -> (u: Vec<char>)
    ensures
        u@ == v@.map_values(|c: char| ascii_lower(c)),
{
    let mut u: Vec<char> = Vec::new();
    let mut k: usize = 0;
    while k < v.len()
        invariant
            k <= v.len(),
            u@ == v@.take(k as int).map_values(|c: char| ascii_lower(c)),
        decreases v.len() - k,
    {
        u.push(ascii_lower_char(v[k]));
        k = k + 1;
        assert(u@ == v@.take(k as int).map_values(|c: char| ascii_lower(c)));
    }
    assert(v@.take(v.len() as int) == v@);
    u
}

/// Whether two character slices are equal.
pub fn chars_eq(a: &[char], b: &[char]) -> (r: bool)
    ensures
        r == (a@ == b@),
{
    if a.len() != b.len() {
        return false;
    }
    let mut k: usize = 0;
    while k < a.len()
        invariant
            k <= a.len() == b.len(),
            forall|i: int| 0 <= i < k ==> a@[i] == b@[i],
        decreases a.len() - k,
    {
        if a[k] != b[k] {
            return false;
        }
        k = k + 1;
    }
    assert(a@ == b@);
    true
}


/// The view of an optional string.
pub open spec fn opt_view(o: Option<String>) -> Option<Seq<char>> {
    match o {
        Some(s) => Some(s@),
        None => None,
    }
}

/// An ASCII decimal digit.
pub open spec fn is_digit(c: char) -> bool {
    '0' <= c && c <= '9'
}

/// The value of an ASCII decimal digit.
pub open spec fn digit_value(c: char) -> nat {
    ((c as u32) - ('0' as u32)) as nat
}

/// The ASCII decimal digit of `d < 10`.
pub open spec fn digit_char(d: nat) -> char {
    (('0' as u32) + d) as char
}

/// All characters of `s` are ASCII digits.
pub open spec fn all_digits(s: Seq<char>) -> bool {
    forall|i: int| 0 <= i < s.len() ==> is_digit(#[trigger] s[i])
}

/// The number written by the ASCII digits `s` (most significant first).
pub open spec fn digits_value(s: Seq<char>) -> nat
    decreases s.len(),
{
    if s.len() == 0 {
        0
    } else {
        digits_value(s.drop_last()) * 10 + digit_value(s.last())
    }
}

/// The digits that `from_str` reads for an unsigned integer: an optional
/// leading `+` is skipped.
pub open spec fn unsigned_digits(s: Seq<char>) -> Seq<char> {
    if s.len() > 0 && s[0] == '+' {
        s.drop_first()
    } else {
        s
    }
}

/// The number that `from_str` reads from `s` for an unsigned integer type
/// wide enough to hold it: `None` when `s` is not an optional `+` followed
/// by at least one ASCII digit and nothing else.
pub open spec fn parse_unsigned(s: Seq<char>) -> Option<nat> {
    let d = unsigned_digits(s);
    if d.len() > 0 && all_digits(d) {
        Some(digits_value(d))
    } else {
        None
    }
}

/// What `u64::from_str` returns on `s`, as an option.
pub open spec fn parse_u64_spec(s: Seq<char>) -> Option<u64> {
    match parse_unsigned(s) {
        Some(n) => if n <= u64::MAX {
            Some(n as u64)
        } else {
            None
        },
        None => None,
    }
}

/// A digit prefix is worth no more than the whole digit sequence.
proof fn lemma_digits_value_prefix(s: Seq<char>, k: int)
    requires
        0 <= k <= s.len(),
    ensures
        digits_value(s.take(k)) <= digits_value(s),
    decreases s.len() - k,
{
    if k < s.len() {
        lemma_digits_value_prefix(s, k + 1);
        assert(s.take(k + 1).drop_last() == s.take(k));
    } else {
        assert(s.take(k) == s);
    }
}

/// Whether `c` is an ASCII digit.
pub fn is_digit_char(c: char) -> (b: bool)
    ensures
        b == is_digit(c),
{
    '0' <= c && c <= '9'
}

/// The value of the unsigned number written in `v`, as `u64::from_str`
/// reads it; `None` where that fails (bad syntax or overflow).
pub fn parse_u64(v: &[char]) -> (r: Option<u64>)
    ensures
        r == parse_u64_spec(v@),
{
    let start: usize = if v.len() > 0 && v[0] == '+' { 1 } else { 0 };
    let ghost d = unsigned_digits(v@);
    assert(d == v@.skip(start as int));
    if start >= v.len() {
        return None;
    }
    let mut acc: u64 = 0;
    let mut k: usize = start;
    while k < v.len()
        invariant
            start <= k <= v.len(),
            d == v@.skip(start as int),
            d == unsigned_digits(v@),
            d.len() > 0,
            all_digits(d.take(k - start)),
            acc as nat == digits_value(d.take(k - start)),
        decreases v.len() - k,
    {
        let c = v[k];
        assert(c == d[k - start]);
        if !is_digit_char(c) {
            assert(!is_digit(d[k - start]));
            assert(!all_digits(d));
            return None;
        }
        let dv: u64 = (c as u32 - '0' as u32) as u64;
        assert(d.take(k + 1 - start).drop_last() == d.take(k - start));
        if acc > (u64::MAX - dv) / 10 {
            proof {
                assert(acc * 10 + dv > u64::MAX) by (nonlinear_arith)
                    requires
                        acc > (u64::MAX - dv) / 10,
                        dv <= 9,
                ;
                let t = d.take(k + 1 - start);
                assert(t.last() == c);
                assert(digits_value(t) == acc * 10 + dv);
                if all_digits(d) {
                    lemma_digits_value_prefix(d, k + 1 - start);
                    assert(digits_value(d) > u64::MAX);
                }
            }
            return None;
        }
        acc = acc * 10 + dv;
        k = k + 1;
        assert(all_digits(d.take(k - start)));
    }
    assert(d.take(k - start) == d);
    Some(acc)
}

/// The decimal representation of `n` (no sign, no leading zeros).
pub open spec fn decimal(n: nat) -> Seq<char>
    decreases n,
{
    if n < 10 {
        seq![digit_char(n)]
    } else {
        decimal(n / 10).push(digit_char(n % 10))
    }
}

/// `s` padded on the left with `0` up to `width` characters (`{:0width$}`).
pub open spec fn zero_pad(s: Seq<char>, width: nat) -> Seq<char> {
    if s.len() >= width {
        s
    } else {
        Seq::new((width - s.len()) as nat, |i: int| '0') + s
    }
}

/// The decimal digits of `n`.
pub fn decimal_chars(n: u64) -> (v: Vec<char>)
    ensures
        v@ == decimal(n as nat),
    decreases n,
{
    let d: u32 = (n % 10) as u32;
    let c = char_from_ascii(48 + d);
    if n < 10 {
        let mut v: Vec<char> = Vec::new();
        v.push(c);
        v
    } else {
        let mut v = decimal_chars(n / 10);
        v.push(c);
        v
    }
}

/// The decimal digits of `n`, padded with zeros to `width` characters.
pub fn padded_decimal_chars(n: u64, width: usize) -> (v: Vec<char>)
    ensures
        v@ == zero_pad(decimal(n as nat), width as nat),
{
    let digits = decimal_chars(n);
    if digits.len() >= width {
        return digits;
    }
    let mut v: Vec<char> = Vec::new();
    let fill = width - digits.len();
    let mut k: usize = 0;
    while k < fill
        invariant
            k <= fill,
            v@ == Seq::new(k as nat, |i: int| '0'),
        decreases fill - k,
    {
        v.push('0');
        k = k + 1;
        assert(v@ == Seq::new(k as nat, |i: int| '0'));
    }
    let mut j: usize = 0;
    while j < digits.len()
        invariant
            j <= digits.len(),
            v@ == Seq::new(fill as nat, |i: int| '0') + digits@.take(j as int),
        decreases digits.len() - j,
    {
        v.push(digits[j]);
        j = j + 1;
        assert(v@ == Seq::new(fill as nat, |i: int| '0') + digits@.take(j as int));
    }
    assert(digits@.take(digits.len() as int) == digits@);
    v
}

/// Appends the characters of `tail` to `v`.
pub fn extend_chars(v: &mut Vec<char>, tail: &[char])
    ensures
        final(v)@ == old(v)@ + tail@,
{
    let mut j: usize = 0;
    let ghost start = v@;
    while j < tail.len()
        invariant
            j <= tail.len(),
            v@ == start + tail@.take(j as int),
        decreases tail.len() - j,
    {
        v.push(tail[j]);
        j = j + 1;
        assert(v@ == start + tail@.take(j as int));
    }
    assert(tail@.take(tail.len() as int) == tail@);
}


/// The pieces of `s` between occurrences of either separator `a` or `b`
/// (`str::split` with a character pattern): always at least one piece, empty
/// pieces kept.
pub open spec fn split_on_either(s: Seq<char>, a: char, b: char) -> Seq<Seq<char>>
    decreases s.len(),
{
    if s.len() == 0 {
        seq![Seq::empty()]
    } else {
        let p = split_on_either(s.drop_last(), a, b);
        if s.last() == a || s.last() == b {
            p.push(Seq::empty())
        } else {
            p.update(p.len() - 1, p.last().push(s.last()))
        }
    }
}

/// The pieces of `s` between occurrences of `sep`.
pub open spec fn split_on(s: Seq<char>, sep: char) -> Seq<Seq<char>> {
    split_on_either(s, sep, sep)
}

/// `s` holds no `c`.
pub open spec fn free_of(s: Seq<char>, c: char) -> bool {
    forall|i: int| 0 <= i < s.len() ==> s[i] != c
}

/// The views of a vector of character vectors.
pub open spec fn string_views(v: Seq<String>) -> Seq<Seq<char>> {
    v.map_values(|s: String| s@)
}

pub open spec fn views(v: Seq<Vec<char>>) -> Seq<Seq<char>> {
    v.map_values(|p: Vec<char>| p@)
}

/// The pieces of `v` between occurrences of `a` or `b`.
pub fn split_chars_either(v: &[char], a: char, b: char) -> (pieces: Vec<Vec<char>>)
    ensures
        views(pieces@) == split_on_either(v@, a, b),
        pieces.len() >= 1,
{
    let mut pieces: Vec<Vec<char>> = Vec::new();
    let mut cur: Vec<char> = Vec::new();
    let mut k: usize = 0;
    while k < v.len()
        invariant
            k <= v.len(),
            views(pieces@).push(cur@) == split_on_either(v@.take(k as int), a, b),
        decreases v.len() - k,
    {
        let ghost before = views(pieces@).push(cur@);
        assert(v@.take(k + 1).drop_last() == v@.take(k as int));
        if v[k] == a || v[k] == b {
            pieces.push(cur);
            cur = Vec::new();
            assert(views(pieces@).push(cur@) == before.push(Seq::empty()));
        } else {
            cur.push(v[k]);
            assert(views(pieces@).push(cur@) == before.update(
                before.len() - 1,
                before.last().push(v@[k as int]),
            ));
        }
        k = k + 1;
    }
    assert(v@.take(v.len() as int) == v@);
    pieces.push(cur);
    pieces
}

/// The pieces of `v` between occurrences of `sep`.
pub fn split_chars(v: &[char], sep: char) -> (pieces: Vec<Vec<char>>)
    ensures
        views(pieces@) == split_on(v@, sep),
        pieces.len() >= 1,
{
    split_chars_either(v, sep, sep)
}

/// `s` starts with `p`.
pub open spec fn has_prefix(s: Seq<char>, p: Seq<char>) -> bool {
    p.len() <= s.len() && s.take(p.len() as int) == p
}

/// `s` without the prefix `p`, if it starts with it (`str::strip_prefix`).
pub open spec fn strip_prefix(s: Seq<char>, p: Seq<char>) -> Option<Seq<char>> {
    if has_prefix(s, p) {
        Some(s.skip(p.len() as int))
    } else {
        None
    }
}

/// `pat` occurs in `s` at index `i`.
pub open spec fn occurs_at(s: Seq<char>, pat: Seq<char>, i: int) -> bool {
    0 <= i && i + pat.len() <= s.len() && s.subrange(i, i + pat.len()) == pat
}

/// The index of the first occurrence of `c` in `s` (`str::find`).
#[verifier::opaque]
pub open spec fn find_char(s: Seq<char>, c: char) -> Option<int> {
    if exists|i: int| 0 <= i < s.len() && s[i] == c {
        Some(choose|i: int| 0 <= i < s.len() && s[i] == c && forall|j: int| 0 <= j < i ==> s[j] != c)
    } else {
        None
    }
}

/// The index where the last occurrence of `pat` starts (`str::rfind`).
#[verifier::opaque]
pub open spec fn rfind_seq(s: Seq<char>, pat: Seq<char>) -> Option<int> {
    if exists|i: int| occurs_at(s, pat, i) {
        Some(choose|i: int| occurs_at(s, pat, i) && forall|j: int| i < j ==> !occurs_at(s, pat, j))
    } else {
        None
    }
}

/// Whether `v` starts with `p`.
pub fn starts_with_chars(v: &[char], p: &[char]) -> (b: bool)
    ensures
        b == has_prefix(v@, p@),
{
    if p.len() > v.len() {
        return false;
    }
    let mut k: usize = 0;
    while k < p.len()
        invariant
            k <= p.len() <= v.len(),
            forall|i: int| 0 <= i < k ==> v@[i] == p@[i],
        decreases p.len() - k,
    {
        if v[k] != p[k] {
            assert(v@.take(p.len() as int)[k as int] != p@[k as int]);
            return false;
        }
        k = k + 1;
    }
    assert(v@.take(p.len() as int) == p@);
    true
}

/// `v` without the prefix `p`, if it starts with it.
pub fn strip_prefix_chars(v: &[char], p: &[char]) -> (r: Option<Vec<char>>)
    ensures
        r matches Some(t) ==> strip_prefix(v@, p@) == Some(t@),
        r is None ==> strip_prefix(v@, p@) is None,
{
    if starts_with_chars(v, p) {
        Some(slice_range(v, p.len(), v.len()))
    } else {
        None
    }
}

/// The index of the first `c` in `v`.
pub fn find_char_index(v: &[char], c: char) -> (r: Option<usize>)
    ensures
        r matches Some(i) ==> find_char(v@, c) == Some(i as int) && i < v.len(),
        r is None ==> find_char(v@, c) is None,
{
    proof {
        reveal(find_char);
    }
    let mut k: usize = 0;
    while k < v.len()
        invariant
            k <= v.len(),
            forall|j: int| 0 <= j < k ==> v@[j] != c,
        decreases v.len() - k,
    {
        if v[k] == c {
            proof {
                reveal(find_char);
                let w = choose|i: int| 0 <= i < v@.len() && v@[i] == c && forall|j: int| 0 <= j < i ==> v@[j] != c;
                assert(0 <= k < v@.len() && v@[k as int] == c && forall|j: int| 0 <= j < k ==> v@[j] != c);
                if w < k {
                } else if w > k {
                    assert(v@[k as int] != c);
                }
            }
            return Some(k);
        }
        k = k + 1;
    }
    None
}

/// Whether `pat` occurs in `v` at index `i`.
fn occurs_at_chars(v: &[char], pat: &[char], i: usize) -> (b: bool)
    requires
        i + pat.len() <= v.len(),
    ensures
        b == occurs_at(v@, pat@, i as int),
{
    let mut k: usize = 0;
    while k < pat.len()
        invariant
            k <= pat.len(),
            i + pat.len() <= v.len(),
            forall|j: int| 0 <= j < k ==> v@[i + j] == pat@[j],
        decreases pat.len() - k,
    {
        if v[i + k] != pat[k] {
            assert(v@.subrange(i as int, i + pat.len())[k as int] != pat@[k as int]);
            return false;
        }
        k = k + 1;
    }
    assert(v@.subrange(i as int, i + pat.len()) == pat@);
    true
}

/// The index where the last occurrence of `pat` in `v` starts.
pub fn rfind_chars(v: &[char], pat: &[char]) -> (r: Option<usize>)
    ensures
        r matches Some(i) ==> rfind_seq(v@, pat@) == Some(i as int) && occurs_at(v@, pat@, i as int),
        r is None ==> rfind_seq(v@, pat@) is None,
{
    proof {
        reveal(rfind_seq);
    }
    if pat.len() > v.len() {
        return None;
    }
    let mut k: usize = v.len() - pat.len();
    loop
        invariant
            k <= v.len() - pat.len(),
            pat.len() <= v.len(),
            forall|j: int| k < j ==> !occurs_at(v@, pat@, j),
        decreases k,
    {
        if occurs_at_chars(v, pat, k) {
            proof {
                reveal(rfind_seq);
                let w = choose|x: int| occurs_at(v@, pat@, x) && forall|j: int| x < j ==> !occurs_at(v@, pat@, j);
                assert(occurs_at(v@, pat@, k as int) && forall|j: int| k < j ==> !occurs_at(v@, pat@, j));
                if w < k {
                    assert(!occurs_at(v@, pat@, k as int));
                } else if w > k {
                }
            }
            return Some(k);
        }
        if k == 0 {
            proof {
                reveal(rfind_seq);
            }
            assert forall|j: int| !occurs_at(v@, pat@, j) by {
                if 0 <= j && j < k {
                }
            }
            return None;
        }
        k = k - 1;
    }
}


/// The index where the first occurrence of `pat` starts (`str::find`).
#[verifier::opaque]
pub open spec fn find_seq(s: Seq<char>, pat: Seq<char>) -> Option<int> {
    if exists|i: int| occurs_at(s, pat, i) {
        Some(choose|i: int| occurs_at(s, pat, i) && forall|j: int| 0 <= j < i ==> !occurs_at(s, pat, j))
    } else {
        None
    }
}

/// `pat` occurs somewhere in `s` (`str::contains`).
pub open spec fn contains_seq(s: Seq<char>, pat: Seq<char>) -> bool {
    exists|i: int| occurs_at(s, pat, i)
}

/// `s` ends with `p` (`str::ends_with`).
pub open spec fn has_suffix(s: Seq<char>, p: Seq<char>) -> bool {
    p.len() <= s.len() && s.skip(s.len() - p.len()) == p
}

/// The index where the first occurrence of `pat` in `v` starts.
pub fn find_chars(v: &[char], pat: &[char]) -> (r: Option<usize>)
    ensures
        r matches Some(i) ==> find_seq(v@, pat@) == Some(i as int) && occurs_at(v@, pat@, i as int),
        r is None ==> find_seq(v@, pat@) is None && !contains_seq(v@, pat@),
{
    if pat.len() > v.len() {
        proof {
            reveal(find_seq);
        }
        return None;
    }
    let last = v.len() - pat.len();
    let mut k: usize = 0;
    while k <= last
        invariant
            last == v.len() - pat.len(),
            pat.len() <= v.len(),
            k <= last + 1,
            forall|j: int| 0 <= j < k ==> !occurs_at(v@, pat@, j),
        decreases last + 1 - k,
    {
        if occurs_at_chars(v, pat, k) {
            proof {
                reveal(find_seq);
                let w = choose|x: int| occurs_at(v@, pat@, x) && forall|j: int| 0 <= j < x ==> !occurs_at(v@, pat@, j);
                assert(occurs_at(v@, pat@, k as int) && forall|j: int| 0 <= j < k ==> !occurs_at(v@, pat@, j));
                if w < k {
                } else if w > k {
                    assert(!occurs_at(v@, pat@, k as int));
                }
            }
            return Some(k);
        }
        if k == last {
            proof {
                reveal(find_seq);
            }
            return None;
        }
        k = k + 1;
    }
    proof {
        reveal(find_seq);
    }
    None
}

/// Whether `v` ends with `p`.
pub fn ends_with_chars(v: &[char], p: &[char]) -> (b: bool)
    ensures
        b == has_suffix(v@, p@),
{
    if p.len() > v.len() {
        return false;
    }
    let start = v.len() - p.len();
    let tail = slice_range(v, start, v.len());
    assert(tail@ == v@.skip(start as int));
    chars_eq(&tail, p)
}

/// Whether `pat` occurs in `v`.
pub fn contains_chars(v: &[char], pat: &[char]) -> (b: bool)
    ensures
        b == contains_seq(v@, pat@),
{
    match find_chars(v, pat) {
        Some(_) => true,
        None => false,
    }
}

/// The characters of `a` followed by those of `b`.
pub fn concat_chars(a: &[char], b: &[char]) -> (v: Vec<char>)
    ensures
        v@ == a@ + b@,
{
    let mut v = slice_range(a, 0, a.len());
    assert(a@.subrange(0, a@.len() as int) == a@);
    extend_chars(&mut v, b);
    v
}

} // verus!
