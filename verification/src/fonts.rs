//! The font catalog offered in the settings: display names for the font
//! files found on the system, one file per name, CJK fonts first and the
//! rest in case-insensitive alphabetical order.
use vstd::prelude::*;
use crate::text::{
    ascii_lower, ascii_lower_chars, chars_eq, chars_of, contains_chars, contains_seq,
    ends_with_chars, has_suffix, string_of, string_views, trim, trim_chars,
};

verus! {

/// The display names of well-known font files, by file stem.
pub open spec fn known_font_name(stem: Seq<char>) -> Option<Seq<char>> {
    if stem == "msyh"@ {
        Some("微软雅黑"@)
    } else if stem == "msyhbd"@ {
        Some("微软雅黑 粗体"@)
    } else if stem == "msyhl"@ {
        Some("微软雅黑 细体"@)
    } else if stem == "simsun"@ {
        Some("宋体 (SimSun)"@)
    } else if stem == "simsunb"@ {
        Some("宋体-ExtB"@)
    } else if stem == "simhei"@ {
        Some("黑体 (SimHei)"@)
    } else if stem == "simkai"@ {
        Some("楷体 (SimKai)"@)
    } else if stem == "simfang"@ {
        Some("仿宋 (FangSong)"@)
    } else if stem == "simli"@ {
        Some("隶书 (SimLi)"@)
    } else if stem == "simyou"@ {
        Some("幼圆 (YouYuan)"@)
    } else if stem == "STXIHEI"@ {
        Some("华文细黑"@)
    } else if stem == "STKAITI"@ {
        Some("华文楷体"@)
    } else if stem == "STFANGSO"@ {
        Some("华文仿宋"@)
    } else if stem == "STSONG"@ {
        Some("华文宋体"@)
    } else if stem == "STLITI"@ {
        Some("华文隶书"@)
    } else if stem == "STXINWEI"@ {
        Some("华文新魏"@)
    } else if stem == "STZHONGS"@ {
        Some("华文中宋"@)
    } else if stem == "STHUPO"@ {
        Some("华文琥珀"@)
    } else if stem == "STCAIYUN"@ {
        Some("华文彩云"@)
    } else if stem == "FZSTK"@ {
        Some("方正舒体"@)
    } else if stem == "FZYTK"@ {
        Some("方正姚体"@)
    } else if stem == "FZLTH"@ {
        Some("方正兰亭黑"@)
    } else if stem == "FZLTZHK"@ {
        Some("方正兰亭中黑"@)
    } else if stem == "mingliu"@ {
        Some("細明體 (MingLiU)"@)
    } else if stem == "kaiu"@ {
        Some("標楷體 (KaiU)"@)
    } else if stem == "PingFang SC"@ {
        Some("苹方-简"@)
    } else if stem == "PingFang TC"@ {
        Some("苹方-繁"@)
    } else if stem == "PingFang"@ {
        Some("苹方"@)
    } else if stem == "Songti SC"@ {
        Some("宋体-简"@)
    } else if stem == "Songti TC"@ {
        Some("宋体-繁"@)
    } else if stem == "Heiti SC"@ {
        Some("黑体-简"@)
    } else if stem == "Heiti TC"@ {
        Some("黑体-繁"@)
    } else if stem == "Kaiti SC"@ {
        Some("楷体-简"@)
    } else if stem == "Kaiti TC"@ {
        Some("楷体-繁"@)
    } else if stem == "STSong"@ {
        Some("华文宋体"@)
    } else if stem == "STKaiti"@ {
        Some("华文楷体"@)
    } else if stem == "STFangsong"@ {
        Some("华文仿宋"@)
    } else if stem == "STHeiti"@ {
        Some("华文黑体"@)
    } else if stem == "NotoSansCJK-Regular"@ {
        Some("Noto Sans CJK"@)
    } else if stem == "NotoSansCJKsc-Regular"@ {
        Some("Noto Sans CJK SC"@)
    } else if stem == "NotoSansCJKtc-Regular"@ {
        Some("Noto Sans CJK TC"@)
    } else if stem == "NotoSerifCJK-Regular"@ {
        Some("Noto Serif CJK"@)
    } else if stem == "NotoSerifCJKsc-Regular"@ {
        Some("Noto Serif CJK SC"@)
    } else if stem == "NotoSansSC-Regular"@ {
        Some("Noto Sans SC"@)
    } else if stem == "NotoSerifSC-Regular"@ {
        Some("Noto Serif SC"@)
    } else if stem == "SourceHanSans-Regular"@ {
        Some("思源黑体"@)
    } else if stem == "SourceHanSerif-Regular"@ {
        Some("思源宋体"@)
    } else if stem == "SourceHanSansCN-Regular"@ {
        Some("思源黑体 CN"@)
    } else if stem == "SourceHanSerifCN-Regular"@ {
        Some("思源宋体 CN"@)
    } else {
        None
    }
}

fn known_font_name_of(stem: &[char]) -> (r: Option<Vec<char>>)
    ensures
        match r {
            Some(n) => known_font_name(stem@) == Some(n@),
            None => known_font_name(stem@) is None,
        },
{
    if chars_eq(stem, &chars_of("msyh")) {
        return Some(chars_of("微软雅黑"));
    }
    if chars_eq(stem, &chars_of("msyhbd")) {
        return Some(chars_of("微软雅黑 粗体"));
    }
    if chars_eq(stem, &chars_of("msyhl")) {
        return Some(chars_of("微软雅黑 细体"));
    }
    if chars_eq(stem, &chars_of("simsun")) {
        return Some(chars_of("宋体 (SimSun)"));
    }
    if chars_eq(stem, &chars_of("simsunb")) {
        return Some(chars_of("宋体-ExtB"));
    }
    if chars_eq(stem, &chars_of("simhei")) {
        return Some(chars_of("黑体 (SimHei)"));
    }
    if chars_eq(stem, &chars_of("simkai")) {
        return Some(chars_of("楷体 (SimKai)"));
    }
    if chars_eq(stem, &chars_of("simfang")) {
        return Some(chars_of("仿宋 (FangSong)"));
    }
    if chars_eq(stem, &chars_of("simli")) {
        return Some(chars_of("隶书 (SimLi)"));
    }
    if chars_eq(stem, &chars_of("simyou")) {
        return Some(chars_of("幼圆 (YouYuan)"));
    }
    if chars_eq(stem, &chars_of("STXIHEI")) {
        return Some(chars_of("华文细黑"));
    }
    if chars_eq(stem, &chars_of("STKAITI")) {
        return Some(chars_of("华文楷体"));
    }
    if chars_eq(stem, &chars_of("STFANGSO")) {
        return Some(chars_of("华文仿宋"));
    }
    if chars_eq(stem, &chars_of("STSONG")) {
        return Some(chars_of("华文宋体"));
    }
    if chars_eq(stem, &chars_of("STLITI")) {
        return Some(chars_of("华文隶书"));
    }
    if chars_eq(stem, &chars_of("STXINWEI")) {
        return Some(chars_of("华文新魏"));
    }
    if chars_eq(stem, &chars_of("STZHONGS")) {
        return Some(chars_of("华文中宋"));
    }
    if chars_eq(stem, &chars_of("STHUPO")) {
        return Some(chars_of("华文琥珀"));
    }
    if chars_eq(stem, &chars_of("STCAIYUN")) {
        return Some(chars_of("华文彩云"));
    }
    if chars_eq(stem, &chars_of("FZSTK")) {
        return Some(chars_of("方正舒体"));
    }
    if chars_eq(stem, &chars_of("FZYTK")) {
        return Some(chars_of("方正姚体"));
    }
    if chars_eq(stem, &chars_of("FZLTH")) {
        return Some(chars_of("方正兰亭黑"));
    }
    if chars_eq(stem, &chars_of("FZLTZHK")) {
        return Some(chars_of("方正兰亭中黑"));
    }
    if chars_eq(stem, &chars_of("mingliu")) {
        return Some(chars_of("細明體 (MingLiU)"));
    }
    if chars_eq(stem, &chars_of("kaiu")) {
        return Some(chars_of("標楷體 (KaiU)"));
    }
    if chars_eq(stem, &chars_of("PingFang SC")) {
        return Some(chars_of("苹方-简"));
    }
    if chars_eq(stem, &chars_of("PingFang TC")) {
        return Some(chars_of("苹方-繁"));
    }
    if chars_eq(stem, &chars_of("PingFang")) {
        return Some(chars_of("苹方"));
    }
    if chars_eq(stem, &chars_of("Songti SC")) {
        return Some(chars_of("宋体-简"));
    }
    if chars_eq(stem, &chars_of("Songti TC")) {
        return Some(chars_of("宋体-繁"));
    }
    if chars_eq(stem, &chars_of("Heiti SC")) {
        return Some(chars_of("黑体-简"));
    }
    if chars_eq(stem, &chars_of("Heiti TC")) {
        return Some(chars_of("黑体-繁"));
    }
    if chars_eq(stem, &chars_of("Kaiti SC")) {
        return Some(chars_of("楷体-简"));
    }
    if chars_eq(stem, &chars_of("Kaiti TC")) {
        return Some(chars_of("楷体-繁"));
    }
    if chars_eq(stem, &chars_of("STSong")) {
        return Some(chars_of("华文宋体"));
    }
    if chars_eq(stem, &chars_of("STKaiti")) {
        return Some(chars_of("华文楷体"));
    }
    if chars_eq(stem, &chars_of("STFangsong")) {
        return Some(chars_of("华文仿宋"));
    }
    if chars_eq(stem, &chars_of("STHeiti")) {
        return Some(chars_of("华文黑体"));
    }
    if chars_eq(stem, &chars_of("NotoSansCJK-Regular")) {
        return Some(chars_of("Noto Sans CJK"));
    }
    if chars_eq(stem, &chars_of("NotoSansCJKsc-Regular")) {
        return Some(chars_of("Noto Sans CJK SC"));
    }
    if chars_eq(stem, &chars_of("NotoSansCJKtc-Regular")) {
        return Some(chars_of("Noto Sans CJK TC"));
    }
    if chars_eq(stem, &chars_of("NotoSerifCJK-Regular")) {
        return Some(chars_of("Noto Serif CJK"));
    }
    if chars_eq(stem, &chars_of("NotoSerifCJKsc-Regular")) {
        return Some(chars_of("Noto Serif CJK SC"));
    }
    if chars_eq(stem, &chars_of("NotoSansSC-Regular")) {
        return Some(chars_of("Noto Sans SC"));
    }
    if chars_eq(stem, &chars_of("NotoSerifSC-Regular")) {
        return Some(chars_of("Noto Serif SC"));
    }
    if chars_eq(stem, &chars_of("SourceHanSans-Regular")) {
        return Some(chars_of("思源黑体"));
    }
    if chars_eq(stem, &chars_of("SourceHanSerif-Regular")) {
        return Some(chars_of("思源宋体"));
    }
    if chars_eq(stem, &chars_of("SourceHanSansCN-Regular")) {
        return Some(chars_of("思源黑体 CN"));
    }
    if chars_eq(stem, &chars_of("SourceHanSerifCN-Regular")) {
        return Some(chars_of("思源宋体 CN"));
    }
    None
}

/// `s` with underscores and hyphens turned into spaces.
pub open spec fn replace_separators(s: Seq<char>) -> Seq<char> {
    s.map_values(|c: char| if c == '_' || c == '-' { ' ' } else { c })
}

/// The name a font file is listed under: its well-known name, else its stem
/// with separators turned into spaces and trimmed; None when that is empty.
pub open spec fn font_display_name(stem: Seq<char>) -> Option<Seq<char>> {
    match known_font_name(stem) {
        Some(n) => Some(n),
        None => {
            let c = trim(replace_separators(stem));
            if c.len() == 0 { None } else { Some(c) }
        },
    }
}

pub open spec fn has_font(cat: Seq<(Seq<char>, Seq<char>)>, name: Seq<char>) -> bool {
    exists|i: int| 0 <= i < cat.len() && cat[i].0 == name
}

/// The catalog of the font files `files` (pairs of file stem and path), in
/// the order the files were found: each name with the first file that has
/// it.
pub open spec fn font_catalog(files: Seq<(Seq<char>, Seq<char>)>) -> Seq<(Seq<char>, Seq<char>)>
    decreases files.len(),
{
    if files.len() == 0 {
        Seq::empty()
    } else {
        let prev = font_catalog(files.drop_last());
        match font_display_name(files.last().0) {
            Some(n) => if has_font(prev, n) { prev } else { prev.push((n, files.last().1)) },
            None => prev,
        }
    }
}

/// Whether a font name is taken for a CJK font: it holds a CJK unified
/// ideograph, or `CJK`, or ends with ` SC` or ` TC`.
pub open spec fn is_cjk_name(s: Seq<char>) -> bool {
    (exists|i: int| 0 <= i < s.len() && #[trigger] is_cjk_ideograph(s[i]))
        || contains_seq(s, "CJK"@) || has_suffix(s, " SC"@) || has_suffix(s, " TC"@)
}

/// A CJK unified ideograph (U+4E00 to U+9FFF).
pub open spec fn is_cjk_ideograph(c: char) -> bool {
    0x4E00 <= (c as u32) <= 0x9FFF
}

/// `a` comes before `b` in code point order (a proper prefix first), the
/// order of `str`'s comparison.
pub open spec fn seq_lt(a: Seq<char>, b: Seq<char>) -> bool
    decreases a.len(),
{
    if a.len() == 0 {
        b.len() > 0
    } else if b.len() == 0 {
        false
    } else if a[0] != b[0] {
        (a[0] as u32) < (b[0] as u32)
    } else {
        seq_lt(a.drop_first(), b.drop_first())
    }
}

pub open spec fn lower(s: Seq<char>) -> Seq<char> {
    s.map_values(|c: char| ascii_lower(c))
}

/// `a` is listed before `b`: CJK names first, then by ASCII-lowercased name.
pub open spec fn font_before(a: Seq<char>, b: Seq<char>) -> bool {
    (is_cjk_name(a) && !is_cjk_name(b)) || (is_cjk_name(a) == is_cjk_name(b) && seq_lt(lower(a), lower(b)))
}

proof fn lemma_seq_lt_transitive(a: Seq<char>, b: Seq<char>, c: Seq<char>)
    requires
        seq_lt(a, b),
        seq_lt(b, c),
    ensures
        seq_lt(a, c),
    decreases a.len(),
{
    if a.len() > 0 && b.len() > 0 && c.len() > 0 && a[0] == b[0] && b[0] == c[0] {
        lemma_seq_lt_transitive(a.drop_first(), b.drop_first(), c.drop_first());
    }
}

proof fn lemma_seq_lt_asymmetric(a: Seq<char>, b: Seq<char>)
    requires
        seq_lt(a, b),
    ensures
        !seq_lt(b, a),
    decreases a.len(),
{
    if a.len() > 0 && b.len() > 0 && a[0] == b[0] {
        lemma_seq_lt_asymmetric(a.drop_first(), b.drop_first());
    }
}

proof fn lemma_font_before_asymmetric(a: Seq<char>, b: Seq<char>)
    requires
        font_before(a, b),
    ensures
        !font_before(b, a),
{
    if is_cjk_name(a) == is_cjk_name(b) {
        lemma_seq_lt_asymmetric(lower(a), lower(b));
    }
}

proof fn lemma_font_before_transitive(a: Seq<char>, b: Seq<char>, c: Seq<char>)
    requires
        font_before(a, b),
        font_before(b, c),
    ensures
        font_before(a, c),
{
    if is_cjk_name(a) == is_cjk_name(b) && is_cjk_name(b) == is_cjk_name(c) {
        lemma_seq_lt_transitive(lower(a), lower(b), lower(c));
    }
}

/// Names in listing order: none is listed before one that precedes it.
pub open spec fn in_font_order(names: Seq<Seq<char>>) -> bool {
    forall|i: int, j: int| 0 <= i < j < names.len() ==> !font_before(names[j], names[i])
}

/// `s` with the ASCII capitals A..Z turned into a..z and every other
/// character kept.
pub open spec fn ascii_case_folded(s: Seq<char>) -> Seq<char> {
    Seq::new(s.len(), |i: int| if 'A' <= s[i] && s[i] <= 'Z' { ((s[i] as u32) + 32) as char } else { s[i] })
}

/// `a` sorts strictly before `b` by code points: at the first position where
/// they differ `a` has the smaller code point, or `a` is a proper prefix of
/// `b`.
pub open spec fn code_point_less(a: Seq<char>, b: Seq<char>) -> bool {
    (exists|k: int|
        0 <= k < a.len() && k < b.len() && a.take(k) == b.take(k) && (#[trigger] a[k] as u32) < (b[k] as u32))
        || (a.len() < b.len() && b.take(a.len() as int) == a)
}

proof fn lemma_code_point_less_is_seq_lt(a: Seq<char>, b: Seq<char>)
    requires
        code_point_less(a, b),
    ensures
        seq_lt(a, b),
    decreases a.len(),
{
    if a.len() > 0 && b.len() > 0 {
        if a[0] == b[0] {
            let a1 = a.drop_first();
            let b1 = b.drop_first();
            if exists|k: int| 0 <= k < a.len() && k < b.len() && a.take(k) == b.take(k) && (#[trigger] a[k] as u32) < (b[k] as u32) {
                let k = choose|k: int| 0 <= k < a.len() && k < b.len() && a.take(k) == b.take(k) && (#[trigger] a[k] as u32) < (b[k] as u32);
                assert(k > 0);
                assert(a1.take(k - 1) =~= b1.take(k - 1)) by {
                    assert forall|t: int| 0 <= t < k - 1 implies #[trigger] a1.take(k - 1)[t] == b1.take(k - 1)[t] by {
                        assert(a.take(k)[t + 1] == b.take(k)[t + 1]);
                    }
                }
                assert(a1[k - 1] == a[k] && b1[k - 1] == b[k]);
            } else {
                assert(b1.take(a1.len() as int) =~= a1) by {
                    assert forall|t: int| 0 <= t < a1.len() implies #[trigger] b1.take(a1.len() as int)[t] == a1[t] by {
                        assert(b.take(a.len() as int)[t + 1] == a[t + 1]);
                    }
                }
            }
            lemma_code_point_less_is_seq_lt(a1, b1);
        } else {
            if !(exists|k: int| 0 <= k < a.len() && k < b.len() && a.take(k) == b.take(k) && (#[trigger] a[k] as u32) < (b[k] as u32)) {
                assert(b.take(a.len() as int)[0] == a[0]);
            } else {
                let k = choose|k: int| 0 <= k < a.len() && k < b.len() && a.take(k) == b.take(k) && (#[trigger] a[k] as u32) < (b[k] as u32);
                if k > 0 {
                    assert(a.take(k)[0] == b.take(k)[0]);
                }
            }
        }
    } else if a.len() > 0 {
        assert(!code_point_less(a, b));
    }
}

/// Fonts are listed CJK names first and then, within each group, by
/// ASCII-case-folded name in code point order: in a list in font order
/// (what `system_font_catalog` gives), a name never comes after one whose
/// folded text is greater, and a CJK name never after a non-CJK one.
pub proof fn law_font_names_listed_case_insensitively(names: Seq<Seq<char>>, i: int, j: int)
    requires
        in_font_order(names),
        0 <= i < j < names.len(),
    ensures
        is_cjk_name(names[j]) ==> is_cjk_name(names[i]),
        is_cjk_name(names[i]) == is_cjk_name(names[j]) ==> !code_point_less(
            ascii_case_folded(names[j]),
            ascii_case_folded(names[i]),
        ),
{
    assert(lower(names[i]) =~= ascii_case_folded(names[i]));
    assert(lower(names[j]) =~= ascii_case_folded(names[j]));
    assert(!font_before(names[j], names[i]));
    if is_cjk_name(names[i]) == is_cjk_name(names[j]) && code_point_less(
        ascii_case_folded(names[j]),
        ascii_case_folded(names[i]),
    ) {
        lemma_code_point_less_is_seq_lt(ascii_case_folded(names[j]), ascii_case_folded(names[i]));
    }
}

/// Names that differ only in ASCII case neither of which is listed before
/// the other.
pub proof fn law_case_does_not_order_fonts(a: Seq<char>, b: Seq<char>)
    requires
        ascii_case_folded(a) == ascii_case_folded(b),
        is_cjk_name(a) == is_cjk_name(b),
    ensures
        !font_before(a, b),
        !font_before(b, a),
{
    assert(lower(a) =~= ascii_case_folded(a));
    assert(lower(b) =~= ascii_case_folded(b));
    lemma_seq_lt_irreflexive(lower(a));
}

proof fn lemma_seq_lt_irreflexive(a: Seq<char>)
    ensures
        !seq_lt(a, a),
    decreases a.len(),
{
    if a.len() > 0 {
        lemma_seq_lt_irreflexive(a.drop_first());
    }
}

pub open spec fn pairs_view(v: Seq<(String, String)>) -> Seq<(Seq<char>, Seq<char>)> {
    v.map_values(|p: (String, String)| (p.0@, p.1@))
}

fn replace_separators_of(v: &[char]) -> (r: Vec<char>)
    ensures
        r@ == replace_separators(v@),
{
    let mut r: Vec<char> = Vec::new();
    let mut i: usize = 0;
    while i < v.len()
        invariant
            i <= v.len(),
            r@ == replace_separators(v@.take(i as int)),
        decreases v.len() - i,
    {
        let c = v[i];
        r.push(if c == '_' || c == '-' { ' ' } else { c });
        i = i + 1;
        assert(r@ =~= replace_separators(v@.take(i as int)));
    }
    assert(v@.take(v.len() as int) =~= v@);
    r
}

/// The name a font file with stem `stem` is listed under (see
/// `font_display_name`).
pub fn font_display_name_of(stem: &str) -> (r: Option<String>)
    ensures
        opt_seq(r) == font_display_name(stem@),
{
    let s = chars_of(stem);
    match known_font_name_of(&s) {
        Some(n) => Some(string_of(&n)),
        None => {
            let c = trim_chars(&replace_separators_of(&s));
            if c.len() == 0 { None } else { Some(string_of(&c)) }
        },
    }
}

pub open spec fn opt_seq(o: Option<String>) -> Option<Seq<char>> {
    match o {
        Some(s) => Some(s@),
        None => None,
    }
}

fn catalog_has(cat: &Vec<(String, String)>, name: &[char]) -> (b: bool)
    ensures
        b == has_font(pairs_view(cat@), name@),
{
    let ghost pv = pairs_view(cat@);
    let mut i: usize = 0;
    while i < cat.len()
        invariant
            i <= cat.len(),
            pv == pairs_view(cat@),
            forall|j: int| 0 <= j < i ==> pv[j].0 != name@,
        decreases cat.len() - i,
    {
        if chars_eq(&chars_of(cat[i].0.as_str()), name) {
            assert(pv[i as int].0 == name@);
            return true;
        }
        i = i + 1;
    }
    false
}

/// Builds the catalog of the font files `files` (see `font_catalog`).
pub fn build_font_catalog(files: &[(String, String)]) -> (cat: Vec<(String, String)>)
    ensures
        pairs_view(cat@) == font_catalog(pairs_view(files@)),
{
    let ghost fv = pairs_view(files@);
    let mut cat: Vec<(String, String)> = Vec::new();
    let mut i: usize = 0;
    while i < files.len()
        invariant
            i <= files.len(),
            fv == pairs_view(files@),
            pairs_view(cat@) == font_catalog(fv.take(i as int)),
        decreases files.len() - i,
    {
        assert(fv.take(i + 1).drop_last() =~= fv.take(i as int));
        assert(fv.take(i + 1).last() == fv[i as int]);
        let ghost before = pairs_view(cat@);
        match font_display_name_of(files[i].0.as_str()) {
            Some(name) => {
                if !catalog_has(&cat, &chars_of(name.as_str())) {
                    let path = files[i].1.clone();
                    cat.push((name, path));
                    assert(pairs_view(cat@) =~= before.push((name@, fv[i as int].1)));
                }
            },
            None => {},
        }
        i = i + 1;
    }
    assert(fv.take(files.len() as int) =~= fv);
    cat
}

fn is_cjk_name_of(s: &[char]) -> (b: bool)
    ensures
        b == is_cjk_name(s@),
{
    let mut i: usize = 0;
    while i < s.len()
        invariant
            i <= s.len(),
            forall|j: int| 0 <= j < i ==> !is_cjk_ideograph(#[trigger] s@[j]),
        decreases s.len() - i,
    {
        let n = s[i] as u32;
        if 0x4E00 <= n && n <= 0x9FFF {
            assert(is_cjk_ideograph(s@[i as int]));
            return true;
        }
        i = i + 1;
    }
    contains_chars(s, &chars_of("CJK")) || ends_with_chars(s, &chars_of(" SC")) || ends_with_chars(s, &chars_of(" TC"))
}

fn seq_lt_of(a: &[char], b: &[char]) -> (r: bool)
    ensures
        r == seq_lt(a@, b@),
{
    let mut i: usize = 0;
    assert(a@.skip(0) =~= a@ && b@.skip(0) =~= b@);
    while i < a.len() && i < b.len() && a[i] == b[i]
        invariant
            i <= a.len(),
            i <= b.len(),
            seq_lt(a@, b@) == seq_lt(a@.skip(i as int), b@.skip(i as int)),
        decreases a.len() - i,
    {
        assert(a@.skip(i as int).drop_first() =~= a@.skip(i + 1));
        assert(b@.skip(i as int).drop_first() =~= b@.skip(i + 1));
        i = i + 1;
    }
    if i == a.len() {
        i < b.len()
    } else if i == b.len() {
        false
    } else {
        (a[i] as u32) < (b[i] as u32)
    }
}

/// A name to be listed, with what orders it.
struct SortKey {
    name: String,
    cjk: bool,
    lowered: Vec<char>,
}

spec fn key_ok(k: SortKey) -> bool {
    k.cjk == is_cjk_name(k.name@) && k.lowered@ == lower(k.name@)
}

fn key_before(a: &SortKey, b: &SortKey) -> (r: bool)
    requires
        key_ok(*a),
        key_ok(*b),
    ensures
        r == font_before(a.name@, b.name@),
{
    (a.cjk && !b.cjk) || (a.cjk == b.cjk && seq_lt_of(&a.lowered, &b.lowered))
}

spec fn key_names(v: Seq<SortKey>) -> Seq<Seq<char>> {
    v.map_values(|k: SortKey| k.name@)
}

/// The names of `cat` in listing order: CJK names first, then the others by
/// ASCII-lowercased name; names that compare equal keep no particular order.
pub fn sorted_font_names(cat: &Vec<(String, String)>) -> (names: Vec<String>)
    requires
        forall|i: int, j: int| 0 <= i < j < cat@.len() ==> cat@[i].0@ != cat@[j].0@,
    ensures
        names@.len() == cat@.len(),
        in_font_order(string_views(names@)),
        forall|i: int, j: int| 0 <= i < j < names@.len() ==> names@[i]@ != names@[j]@,
        forall|n: Seq<char>| string_views(names@).contains(n) <==> has_font(pairs_view(cat@), n),
{
    let ghost cv = pairs_view(cat@);
    let mut keys: Vec<SortKey> = Vec::new();
    let mut k: usize = 0;
    while k < cat.len()
        invariant
            k <= cat.len(),
            cv == pairs_view(cat@),
            keys@.len() == k,
            forall|i: int| 0 <= i < keys@.len() ==> #[trigger] key_ok(keys@[i]),
            in_font_order(key_names(keys@)),
            forall|n: Seq<char>| key_names(keys@).contains(n) <==> (exists|i: int| 0 <= i < k && cv[i].0 == n),
            forall|i: int, j: int| 0 <= i < j < cat@.len() ==> cat@[i].0@ != cat@[j].0@,
            forall|i: int, j: int| 0 <= i < j < keys@.len() ==> key_names(keys@)[i] != key_names(keys@)[j],
        decreases cat.len() - k,
    {
        let name = cat[k].0.clone();
        let chars = chars_of(name.as_str());
        let key = SortKey { cjk: is_cjk_name_of(&chars), lowered: ascii_lower_chars(&chars), name };
        assert(key.lowered@ =~= lower(key.name@));
        let mut pos: usize = 0;
        while pos < keys.len() && !key_before(&key, &keys[pos])
            invariant
                pos <= keys@.len(),
                key_ok(key),
                forall|i: int| 0 <= i < keys@.len() ==> #[trigger] key_ok(keys@[i]),
                forall|i: int| 0 <= i < pos ==> !font_before(key.name@, #[trigger] key_names(keys@)[i]),
            decreases keys@.len() - pos,
        {
            pos = pos + 1;
        }
        let ghost old_names = key_names(keys@);
        let ghost x = key.name@;
        proof {
            if pos < keys@.len() {
                assert(font_before(x, old_names[pos as int]));
                assert forall|j: int| pos <= j < old_names.len() implies !font_before(old_names[j], x) by {
                    if j == pos {
                        lemma_font_before_asymmetric(x, old_names[pos as int]);
                    }
                    if j > pos {
                        assert(!font_before(old_names[j], old_names[pos as int]));
                    }
                    if font_before(old_names[j], x) {
                        lemma_font_before_transitive(old_names[j], x, old_names[pos as int]);
                    }
                }
            }
        }
        keys.insert(pos, key);
        assert(key_names(keys@) =~= old_names.insert(pos as int, x));
        proof {
            let nn = key_names(keys@);
            assert forall|i: int, j: int| 0 <= i < j < nn.len() implies !font_before(nn[j], nn[i]) by {
                if i < pos && j < pos {
                    assert(nn[i] == old_names[i] && nn[j] == old_names[j]);
                } else if i < pos && j == pos {
                    assert(nn[i] == old_names[i]);
                } else if i < pos && j > pos {
                    assert(nn[i] == old_names[i] && nn[j] == old_names[j - 1]);
                } else if i == pos {
                    assert(nn[j] == old_names[j - 1]);
                } else {
                    assert(nn[i] == old_names[i - 1] && nn[j] == old_names[j - 1]);
                }
            }
            assert(!old_names.contains(x)) by {
                if old_names.contains(x) {
                    let i = choose|i: int| 0 <= i < k && cv[i].0 == x;
                    assert(cv[i].0 == cat@[i].0@ && cv[k as int].0 == cat@[k as int].0@);
                }
            }
            assert forall|i: int, j: int| 0 <= i < j < nn.len() implies nn[i] != nn[j] by {
                if i < pos && j < pos {
                    assert(nn[i] == old_names[i] && nn[j] == old_names[j]);
                } else if i < pos && j == pos {
                    assert(nn[i] == old_names[i]);
                } else if i < pos && j > pos {
                    assert(nn[i] == old_names[i] && nn[j] == old_names[j - 1]);
                } else if i == pos {
                    assert(nn[j] == old_names[j - 1]);
                } else {
                    assert(nn[i] == old_names[i - 1] && nn[j] == old_names[j - 1]);
                }
            }
            assert forall|n: Seq<char>| nn.contains(n) <==> (exists|i: int| 0 <= i < k + 1 && cv[i].0 == n) by {
                if nn.contains(n) {
                    let i = choose|i: int| 0 <= i < nn.len() && nn[i] == n;
                    if i == pos {
                        assert(cv[k as int].0 == n);
                    } else if i < pos {
                        assert(old_names[i] == n);
                        assert(old_names.contains(n));
                    } else {
                        assert(old_names[i - 1] == n);
                        assert(old_names.contains(n));
                    }
                }
                if exists|i: int| 0 <= i < k + 1 && cv[i].0 == n {
                    let i = choose|i: int| 0 <= i < k + 1 && cv[i].0 == n;
                    if i == k {
                        assert(nn[pos as int] == n);
                    } else {
                        assert(old_names.contains(n));
                        let m = choose|m: int| 0 <= m < old_names.len() && old_names[m] == n;
                        if m < pos {
                            assert(nn[m] == n);
                        } else {
                            assert(nn[m + 1] == n);
                        }
                    }
                }
            }
        }
        k = k + 1;
    }
    let mut names: Vec<String> = Vec::new();
    let mut i: usize = 0;
    while i < keys.len()
        invariant
            i <= keys@.len(),
            string_views(names@) == key_names(keys@).take(i as int),
            forall|a: int, b: int| 0 <= a < b < keys@.len() ==> key_names(keys@)[a] != key_names(keys@)[b],
        decreases keys@.len() - i,
    {
        let n = keys[i].name.clone();
        assert(n@ == key_names(keys@)[i as int]);
        let ghost before = string_views(names@);
        names.push(n);
        assert(string_views(names@) =~= before.push(key_names(keys@)[i as int]));
        i = i + 1;
        assert(string_views(names@) =~= key_names(keys@).take(i as int));
    }
    assert(key_names(keys@).take(keys@.len() as int) =~= key_names(keys@));
    assert forall|a: int, b: int| 0 <= a < b < names@.len() implies names@[a]@ != names@[b]@ by {
        assert(names@[a]@ == string_views(names@)[a] && names@[b]@ == string_views(names@)[b]);
    }
    assert forall|n: Seq<char>| string_views(names@).contains(n) <==> has_font(cv, n) by {
        if exists|i: int| 0 <= i < cat@.len() && cv[i].0 == n {
        }
    }
    names
}

/// The font catalog of the files found on the system (pairs of file stem
/// and path): the names in listing order, and each name with its file.
pub fn system_font_catalog(files: &[(String, String)]) -> (r: (Vec<String>, Vec<(String, String)>))
    ensures
        pairs_view(r.1@) == font_catalog(pairs_view(files@)),
        r.0@.len() == r.1@.len(),
        in_font_order(string_views(r.0@)),
        forall|n: Seq<char>| string_views(r.0@).contains(n) <==> has_font(font_catalog(pairs_view(files@)), n),
        forall|i: int, j: int| 0 <= i < j < r.0@.len() ==> r.0@[i]@ != r.0@[j]@,
{
    let cat = build_font_catalog(files);
    proof {
        law_font_catalog_from_files(pairs_view(files@));
        let cv = pairs_view(cat@);
        assert forall|i: int, j: int| 0 <= i < j < cat@.len() implies cat@[i].0@ != cat@[j].0@ by {
            assert(cat@[i].0@ == cv[i].0 && cat@[j].0@ == cv[j].0);
        }
    }
    let names = sorted_font_names(&cat);
    (names, cat)
}

/// The font catalog names each font once, and each entry is the display
/// name and path of one of the files it was built from.
pub proof fn law_font_catalog_from_files(files: Seq<(Seq<char>, Seq<char>)>)
    ensures
        forall|i: int, j: int| 0 <= i < j < font_catalog(files).len() ==> font_catalog(files)[i].0 != font_catalog(files)[j].0,
        forall|i: int| 0 <= i < font_catalog(files).len() ==> exists|f: int|
            0 <= f < files.len() && files[f].1 == #[trigger] font_catalog(files)[i].1
                && font_display_name(files[f].0) == Some(font_catalog(files)[i].0),
    decreases files.len(),
{
    if files.len() > 0 {
        law_font_catalog_from_files(files.drop_last());
        let prev = font_catalog(files.drop_last());
        let last = files.len() - 1;
        assert forall|i: int| 0 <= i < prev.len() implies exists|f: int|
            0 <= f < files.len() && files[f].1 == #[trigger] prev[i].1
                && font_display_name(files[f].0) == Some(prev[i].0) by {
            let f = choose|f: int| 0 <= f < files.drop_last().len() && files.drop_last()[f].1 == prev[i].1
                && font_display_name(files.drop_last()[f].0) == Some(prev[i].0);
            assert(files[f] == files.drop_last()[f]);
        }
        match font_display_name(files.last().0) {
            Some(n) => {
                if !has_font(prev, n) {
                    let cat = prev.push((n, files.last().1));
                    assert forall|i: int, j: int| 0 <= i < j < cat.len() implies cat[i].0 != cat[j].0 by {
                        if j == cat.len() - 1 {
                            assert(cat[i] == prev[i]);
                        } else {
                            assert(cat[i] == prev[i] && cat[j] == prev[j]);
                        }
                    }
                    assert forall|i: int| 0 <= i < cat.len() implies exists|f: int|
                        0 <= f < files.len() && files[f].1 == #[trigger] cat[i].1
                            && font_display_name(files[f].0) == Some(cat[i].0) by {
                        if i == cat.len() - 1 {
                            assert(files[last].1 == cat[i].1);
                        } else {
                            assert(cat[i] == prev[i]);
                        }
                    }
                }
            },
            None => {},
        }
    }
}

} // verus!
