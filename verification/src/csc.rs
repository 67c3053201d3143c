//! Contributing spelling corrections: when to ask the reader, which training
//! samples their accepted corrections give, and how the samples are written
//! as JSON lines.
use vstd::prelude::*;
use crate::text::{chars_of, string_of, chars_eq, slice_range, extend_chars, decimal, decimal_chars, opt_view, free_of, trim, trim_chars};
use crate::tts::{ContentBlock, is_readable, block_text_spec, book_view};

verus! {

/// Resolved corrections needed before the first prompt.
pub const MIN_CORRECTIONS_TO_PROMPT: usize = 30;

/// Further resolved corrections needed before each later prompt.
pub const PROMPT_INCREMENT: usize = 50;

/// Characters of context kept on each side of a corrected character.
pub const CONTEXT_RADIUS: usize = 10;

/// Longest sample line, in characters.
pub const MAX_LINE_LEN: usize = 50;

/// One correction the reader made in a book.
#[derive(Clone, Debug)]
pub struct CorrectionRecord {
    pub chapter: usize,
    pub block_idx: usize,
    /// Character offset of the corrected character in the block's text.
    pub char_offset: usize,
    /// The text that was there.
    pub original: String,
    /// The text the reader accepted in its place.
    pub corrected: String,
    /// `"accepted"`, `"rejected"` or another state (still pending).
    pub status: String,
}

/// A training sample: a line with the error and the same line corrected.
#[derive(Clone, Debug)]
pub struct CscSample {
    pub input: String,
    pub output: String,
}

/// What the reader's corrections for the open book record about prompting.
#[derive(Clone, Debug)]
pub struct BookCorrections {
    pub corrections: Vec<CorrectionRecord>,
    /// The resolved count at the last prompt (0: never prompted).
    pub last_contribute_prompt_count: usize,
}

/// Whether the contribution dialog was already shown or dismissed in this
/// session, and whether it is showing.
#[derive(Clone, Copy, Debug)]
pub struct ContributePrompt {
    pub prompted: bool,
    pub dismissed: bool,
    pub show_dialog: bool,
}

pub open spec fn is_resolved(r: CorrectionRecord) -> bool {
    r.status@ == "accepted"@ || r.status@ == "rejected"@
}

/// Number of accepted or rejected corrections.
pub open spec fn resolved_count(recs: Seq<CorrectionRecord>) -> nat
    decreases recs.len(),
{
    if recs.len() == 0 {
        0
    } else {
        resolved_count(recs.drop_last()) + (if is_resolved(recs.last()) { 1nat } else { 0nat })
    }
}

/// The resolved count at which the next prompt is due.
pub open spec fn prompt_threshold(last_prompted: nat) -> nat {
    if last_prompted == 0 {
        MIN_CORRECTIONS_TO_PROMPT as nat
    } else {
        last_prompted + PROMPT_INCREMENT as nat
    }
}

/// The prompt is due: not yet shown nor dismissed in this session, and the
/// resolved count reached the threshold.
pub open spec fn prompt_due(p: ContributePrompt, cfg: BookCorrections) -> bool {
    !p.prompted && !p.dismissed
        && resolved_count(cfg.corrections@) >= prompt_threshold(cfg.last_contribute_prompt_count as nat)
}

/// The reader is asked at most once per session: once the prompt was shown,
/// it is not due again, whatever the corrections become.
pub proof fn law_prompt_once_per_session(p: ContributePrompt, cfg: BookCorrections, later: BookCorrections)
    requires
        prompt_due(p, cfg),
    ensures
        !prompt_due(ContributePrompt { prompted: true, dismissed: false, show_dialog: true }, later),
{
}

proof fn lemma_resolved_count_bound(recs: Seq<CorrectionRecord>)
    ensures
        resolved_count(recs) <= recs.len(),
    decreases recs.len(),
{
    if recs.len() > 0 {
        lemma_resolved_count_bound(recs.drop_last());
    }
}

/// The number of accepted or rejected corrections in `recs`.
pub fn count_resolved(recs: &[CorrectionRecord]) -> (n: usize)
    ensures
        n == resolved_count(recs@),
{
    let accepted = chars_of("accepted");
    let rejected = chars_of("rejected");
    let mut n: usize = 0;
    let mut i: usize = 0;
    while i < recs.len()
        invariant
            i <= recs.len(),
            accepted@ == "accepted"@,
            rejected@ == "rejected"@,
            n == resolved_count(recs@.take(i as int)),
            n <= i,
        decreases recs.len() - i,
    {
        assert(recs@.take(i + 1).drop_last() == recs@.take(i as int));
        let status = chars_of(recs[i].status.as_str());
        if chars_eq(&status, &accepted) || chars_eq(&status, &rejected) {
            n = n + 1;
        }
        i = i + 1;
    }
    assert(recs@.take(recs.len() as int) == recs@);
    n
}

/// Checks whether to prompt the reader to contribute their corrections: not
/// twice in a session nor after a dismissal; otherwise when the resolved
/// count reaches 30 the first time, and 50 more than at the last prompt
/// after that. When it prompts, it shows the dialog and records the count;
/// the result says whether the book's corrections must be saved.
pub fn csc_check_contribution_prompt(prompt: &mut ContributePrompt, cfg: &mut BookCorrections) -> (save: bool)
    requires
        !old(prompt).prompted && !old(prompt).dismissed
            ==> old(cfg).last_contribute_prompt_count + PROMPT_INCREMENT <= usize::MAX,
    ensures
        save <==> prompt_due(*old(prompt), *old(cfg)),
        final(cfg).corrections@ == old(cfg).corrections@,
        save ==> final(cfg).last_contribute_prompt_count == resolved_count(old(cfg).corrections@)
            && *final(prompt) == (ContributePrompt { prompted: true, dismissed: false, show_dialog: true }),
        !save ==> *final(cfg) == *old(cfg) && *final(prompt) == *old(prompt),
{
    if prompt.prompted || prompt.dismissed {
        return false;
    }
    let resolved = count_resolved(&cfg.corrections);
    let last = cfg.last_contribute_prompt_count;
    let threshold = if last == 0 { MIN_CORRECTIONS_TO_PROMPT } else { last + PROMPT_INCREMENT };
    if resolved >= threshold {
        prompt.prompted = true;
        prompt.show_dialog = true;
        cfg.last_contribute_prompt_count = resolved;
        true
    } else {
        false
    }
}

/// Bytes that `c` takes in UTF-8.
pub open spec fn utf8_width(c: char) -> nat {
    let n = c as u32;
    if n < 0x80 {
        1
    } else if n < 0x800 {
        2
    } else if n < 0x10000 {
        3
    } else {
        4
    }
}

/// Bytes that `s` takes in UTF-8 (`str::len`).
pub open spec fn utf8_len(s: Seq<char>) -> nat
    decreases s.len(),
{
    if s.len() == 0 {
        0
    } else {
        utf8_len(s.drop_last()) + utf8_width(s.last())
    }
}

fn char_utf8_width(c: char) -> (w: usize)
    ensures
        w == utf8_width(c),
{
    let n = c as u32;
    if n < 0x80 {
        1
    } else if n < 0x800 {
        2
    } else if n < 0x10000 {
        3
    } else {
        4
    }
}

/// The UTF-8 length in bytes of the characters `v` (whose byte length must
/// fit in `usize`).
pub fn utf8_len_of(v: &[char]) -> (n: usize)
    requires
        4 * v.len() <= usize::MAX,
    ensures
        n == utf8_len(v@),
{
    let mut n: usize = 0;
    let mut i: usize = 0;
    while i < v.len()
        invariant
            i <= v.len(),
            4 * v.len() <= usize::MAX,
            n == utf8_len(v@.take(i as int)),
            n <= 4 * i,
        decreases v.len() - i,
    {
        assert(v@.take(i + 1).drop_last() == v@.take(i as int));
        n = n + char_utf8_width(v[i]);
        i = i + 1;
    }
    assert(v@.take(v.len() as int) == v@);
    n
}

/// `ctx` with the character at `at` replaced by the first character of
/// `with`, unchanged when `with` is empty.
pub open spec fn replace_with_first(ctx: Seq<char>, at: int, with: Seq<char>) -> Seq<char> {
    if with.len() > 0 {
        ctx.update(at, with[0])
    } else {
        ctx
    }
}

/// First index of the context window around `offset`.
pub open spec fn context_start(offset: int) -> int {
    if offset >= CONTEXT_RADIUS { offset - CONTEXT_RADIUS } else { 0 }
}

/// One past the last index of the context window around `offset` in a text
/// of `len` characters.
pub open spec fn context_end(offset: int, len: int) -> int {
    if offset + 1 + CONTEXT_RADIUS <= len { offset + 1 + CONTEXT_RADIUS } else { len }
}

/// The sample that an accepted correction gives: the context window of up to
/// 10 characters on each side of the corrected character in its block's
/// text, once with the original character (input) and once with the
/// corrected one (output). None when the correction is not accepted, its
/// block does not exist or has no text, the offset is outside the text, or
/// the two lines differ in UTF-8 length, are equal, or exceed 50 characters.
pub open spec fn sample_from(rec: CorrectionRecord, chapters: Seq<Seq<ContentBlock>>) -> Option<(Seq<char>, Seq<char>)> {
    if rec.status@ == "accepted"@ && rec.chapter < chapters.len()
        && rec.block_idx < chapters[rec.chapter as int].len()
        && is_readable(chapters[rec.chapter as int][rec.block_idx as int])
    {
        let text = block_text_spec(chapters[rec.chapter as int][rec.block_idx as int]);
        let off = rec.char_offset as int;
        if off < text.len() {
            let start = context_start(off);
            let ctx = text.subrange(start, context_end(off, text.len() as int));
            let input = replace_with_first(ctx, off - start, rec.original@);
            let output = replace_with_first(ctx, off - start, rec.corrected@);
            if utf8_len(input) == utf8_len(output) && input != output && input.len() <= MAX_LINE_LEN {
                Some((input, output))
            } else {
                None
            }
        } else {
            None
        }
    } else {
        None
    }
}

/// The samples of the corrections `recs`, in order.
pub open spec fn collected_samples(recs: Seq<CorrectionRecord>, chapters: Seq<Seq<ContentBlock>>) -> Seq<(Seq<char>, Seq<char>)>
    decreases recs.len(),
{
    if recs.len() == 0 {
        Seq::empty()
    } else {
        let prev = collected_samples(recs.drop_last(), chapters);
        match sample_from(recs.last(), chapters) {
            Some(p) => prev.push(p),
            None => prev,
        }
    }
}

/// What every sample satisfies: the two lines differ, have the same number
/// of characters and of UTF-8 bytes, and hold at most 21 characters (the
/// corrected one and up to 10 on each side).
pub open spec fn sample_well_formed(s: (Seq<char>, Seq<char>)) -> bool {
    &&& s.0 != s.1
    &&& s.0.len() == s.1.len()
    &&& utf8_len(s.0) == utf8_len(s.1)
    &&& s.0.len() <= 2 * CONTEXT_RADIUS + 1
}

/// Every collected sample is well formed (see `sample_well_formed`).
pub proof fn law_samples_well_formed(recs: Seq<CorrectionRecord>, chapters: Seq<Seq<ContentBlock>>)
    ensures
        forall|i: int| 0 <= i < collected_samples(recs, chapters).len()
            ==> sample_well_formed(#[trigger] collected_samples(recs, chapters)[i]),
    decreases recs.len(),
{
    if recs.len() > 0 {
        law_samples_well_formed(recs.drop_last(), chapters);
        let prev = collected_samples(recs.drop_last(), chapters);
        match sample_from(recs.last(), chapters) {
            Some(p) => {
                assert(sample_well_formed(p));
                assert forall|i: int| 0 <= i < prev.push(p).len()
                    implies sample_well_formed(#[trigger] prev.push(p)[i]) by {
                    if i < prev.len() {
                        assert(prev.push(p)[i] == prev[i]);
                    }
                }
            },
            None => {},
        }
    }
}

/// The two lines of a sample differ at exactly one position.
pub open spec fn differs_at_one_position(s: (Seq<char>, Seq<char>)) -> bool {
    exists|p: int|
        #![trigger s.0[p]]
        0 <= p < s.0.len() && s.0[p] != s.1[p] && forall|j: int|
            0 <= j < s.0.len() && j != p ==> #[trigger] s.0[j] == s.1[j]
}

/// Number of corrections whose status is `accepted`.
pub open spec fn accepted_count(recs: Seq<CorrectionRecord>) -> nat
    decreases recs.len(),
{
    if recs.len() == 0 {
        0
    } else {
        accepted_count(recs.drop_last()) + if recs.last().status@ == "accepted"@ {
            1nat
        } else {
            0nat
        }
    }
}

proof fn lemma_sample_one_change(rec: CorrectionRecord, chapters: Seq<Seq<ContentBlock>>)
    requires
        sample_from(rec, chapters) is Some,
    ensures
        differs_at_one_position(sample_from(rec, chapters)->0),
{
    let text = block_text_spec(chapters[rec.chapter as int][rec.block_idx as int]);
    let off = rec.char_offset as int;
    let start = context_start(off);
    let ctx = text.subrange(start, context_end(off, text.len() as int));
    let at = off - start;
    let input = replace_with_first(ctx, at, rec.original@);
    let output = replace_with_first(ctx, at, rec.corrected@);
    assert(sample_from(rec, chapters)->0 == (input, output));
    assert forall|j: int| 0 <= j < input.len() && j != at implies #[trigger] input[j] == output[j] by {
        assert(input[j] == ctx[j]);
        assert(output[j] == ctx[j]);
    }
    if input[at] == output[at] {
        assert(input =~= output);
    }
    let smp = sample_from(rec, chapters)->0;
    assert(0 <= at < smp.0.len() && smp.0[at] != smp.1[at]);
    assert(forall|j: int| 0 <= j < smp.0.len() && j != at ==> #[trigger] smp.0[j] == smp.1[j]);
}

/// Each collected sample changes exactly one character of its line, and
/// there are never more samples than accepted corrections.
pub proof fn law_samples_one_change_each(recs: Seq<CorrectionRecord>, chapters: Seq<Seq<ContentBlock>>)
    ensures
        forall|i: int| 0 <= i < collected_samples(recs, chapters).len()
            ==> differs_at_one_position(#[trigger] collected_samples(recs, chapters)[i]),
        collected_samples(recs, chapters).len() <= accepted_count(recs),
    decreases recs.len(),
{
    if recs.len() > 0 {
        law_samples_one_change_each(recs.drop_last(), chapters);
        let prev = collected_samples(recs.drop_last(), chapters);
        match sample_from(recs.last(), chapters) {
            Some(p) => {
                lemma_sample_one_change(recs.last(), chapters);
                assert forall|i: int| 0 <= i < prev.push(p).len()
                    implies differs_at_one_position(#[trigger] prev.push(p)[i]) by {
                    if i < prev.len() {
                        assert(prev.push(p)[i] == prev[i]);
                    }
                }
            },
            None => {},
        }
    }
}

pub open spec fn sample_view(s: CscSample) -> (Seq<char>, Seq<char>) {
    (s.input@, s.output@)
}

pub open spec fn sample_views(v: Seq<CscSample>) -> Seq<(Seq<char>, Seq<char>)> {
    v.map_values(|s: CscSample| sample_view(s))
}

fn replace_first_char(ctx: &mut Vec<char>, at: usize, with: &str)
    requires
        at < old(ctx).len(),
    ensures
        final(ctx)@ == replace_with_first(old(ctx)@, at as int, with@),
{
    let w = chars_of(with);
    if w.len() > 0 {
        ctx.set(at, w[0]);
    }
}

/// The sample given by one correction (see `sample_from`).
pub fn sample_from_record(rec: &CorrectionRecord, chapters: &Vec<Vec<ContentBlock>>) -> (r: Option<CscSample>)
    ensures
        match r {
            Some(s) => sample_from(*rec, book_view(chapters@)) == Some(sample_view(s)),
            None => sample_from(*rec, book_view(chapters@)) is None,
        },
{
    let ghost book = book_view(chapters@);
    let accepted = chars_of("accepted");
    let status = chars_of(rec.status.as_str());
    if !chars_eq(&status, &accepted) {
        return None;
    }
    if rec.chapter >= chapters.len() || rec.block_idx >= chapters[rec.chapter].len() {
        return None;
    }
    assert(book[rec.chapter as int] == chapters@[rec.chapter as int]@);
    let text: Vec<char> = match &chapters[rec.chapter][rec.block_idx] {
        ContentBlock::Heading { text } => chars_of(text.as_str()),
        ContentBlock::Paragraph { text } => chars_of(text.as_str()),
        _ => {
            return None;
        },
    };
    let off = rec.char_offset;
    if off >= text.len() {
        return None;
    }
    let start = if off >= CONTEXT_RADIUS { off - CONTEXT_RADIUS } else { 0 };
    let end = if text.len() - off >= 1 + CONTEXT_RADIUS { off + 1 + CONTEXT_RADIUS } else { text.len() };
    let ctx = slice_range(&text, start, end);
    let local = off - start;
    let mut input_chars = ctx.clone();
    let mut output_chars = ctx.clone();
    assert(input_chars@ == ctx@);
    replace_first_char(&mut input_chars, local, rec.original.as_str());
    replace_first_char(&mut output_chars, local, rec.corrected.as_str());
    let same_size = utf8_len_of(&input_chars) == utf8_len_of(&output_chars);
    let differ = !chars_eq(&input_chars, &output_chars);
    if same_size && differ && input_chars.len() <= MAX_LINE_LEN {
        Some(CscSample { input: string_of(&input_chars), output: string_of(&output_chars) })
    } else {
        None
    }
}

/// The training samples of the accepted corrections `corrections` against
/// the book's `chapters`, in the order of the corrections.
pub fn csc_collect_samples(corrections: &[CorrectionRecord], chapters: &Vec<Vec<ContentBlock>>) -> (samples: Vec<CscSample>)
    ensures
        sample_views(samples@) == collected_samples(corrections@, book_view(chapters@)),
{
    let mut samples: Vec<CscSample> = Vec::new();
    let mut i: usize = 0;
    while i < corrections.len()
        invariant
            i <= corrections.len(),
            sample_views(samples@) == collected_samples(corrections@.take(i as int), book_view(chapters@)),
        decreases corrections.len() - i,
    {
        assert(corrections@.take(i + 1).drop_last() == corrections@.take(i as int));
        let ghost before = samples@;
        match sample_from_record(&corrections[i], chapters) {
            Some(s) => {
                samples.push(s);
                assert(sample_views(samples@) == sample_views(before).push(sample_view(s)));
            },
            None => {},
        }
        i = i + 1;
    }
    assert(corrections@.take(corrections.len() as int) == corrections@);
    samples
}

/// The blocks of a chapter that are sent for correction: each heading or
/// paragraph whose text is not blank, with its index, in order.
pub open spec fn correction_blocks(blocks: Seq<ContentBlock>) -> Seq<(usize, Seq<char>)>
    decreases blocks.len(),
{
    if blocks.len() == 0 {
        Seq::empty()
    } else {
        let prev = correction_blocks(blocks.drop_last());
        let b = blocks.last();
        if is_readable(b) && trim(block_text_spec(b)).len() > 0 {
            prev.push(((blocks.len() - 1) as usize, block_text_spec(b)))
        } else {
            prev
        }
    }
}

/// Some cached correction belongs to `chapter` (the cache is keyed by
/// chapter and block).
pub open spec fn chapter_cached(cached: Seq<(usize, usize)>, chapter: usize) -> bool {
    exists|i: int| 0 <= i < cached.len() && #[trigger] cached[i].0 == chapter
}

/// The work that correcting `chapter` sends to the correction engine: None
/// when correction is off, the engine is not ready, the chapter has cached
/// corrections already, does not exist, or has no text to correct.
pub open spec fn chapter_work_spec(
    correcting: bool,
    engine_ready: bool,
    cached: Seq<(usize, usize)>,
    chapters: Seq<Seq<ContentBlock>>,
    chapter: usize,
) -> Option<Seq<(usize, Seq<char>)>> {
    if !correcting || !engine_ready || chapter_cached(cached, chapter) || chapter >= chapters.len() {
        None
    } else {
        let w = correction_blocks(chapters[chapter as int]);
        if w.len() == 0 {
            None
        } else {
            Some(w)
        }
    }
}

pub open spec fn work_view(v: Seq<(usize, String)>) -> Seq<(usize, Seq<char>)> {
    v.map_values(|p: (usize, String)| (p.0, p.1@))
}

/// The correction work for `chapter` (see `chapter_work_spec`): the blocks
/// to send to the engine, or None when there is nothing to do.
pub fn csc_trigger_chapter(
    correcting: bool,
    engine_ready: bool,
    cached: &[(usize, usize)],
    chapters: &Vec<Vec<ContentBlock>>,
    chapter: usize,
) -> (r: Option<Vec<(usize, String)>>)
    ensures
        match r {
            None => chapter_work_spec(correcting, engine_ready, cached@, book_view(chapters@), chapter) is None,
            Some(v) => chapter_work_spec(correcting, engine_ready, cached@, book_view(chapters@), chapter)
                == Some(work_view(v@)),
        },
{
    if !correcting || !engine_ready {
        return None;
    }
    let mut k: usize = 0;
    while k < cached.len()
        invariant
            k <= cached.len(),
            forall|i: int| 0 <= i < k ==> #[trigger] cached@[i].0 != chapter,
        decreases cached.len() - k,
    {
        if cached[k].0 == chapter {
            return None;
        }
        k = k + 1;
    }
    if chapter >= chapters.len() {
        return None;
    }
    let ghost book = book_view(chapters@);
    let blocks = &chapters[chapter];
    assert(book[chapter as int] == blocks@);
    let mut work: Vec<(usize, String)> = Vec::new();
    let mut i: usize = 0;
    while i < blocks.len()
        invariant
            i <= blocks.len(),
            work_view(work@) == correction_blocks(blocks@.take(i as int)),
        decreases blocks.len() - i,
    {
        assert(blocks@.take(i + 1).drop_last() =~= blocks@.take(i as int));
        assert(blocks@.take(i + 1).last() == blocks@[i as int]);
        let text = match &blocks[i] {
            ContentBlock::Heading { text } => Some(text),
            ContentBlock::Paragraph { text } => Some(text),
            _ => None,
        };
        match text {
            Some(t) => {
                if trim_chars(&chars_of(t.as_str())).len() > 0 {
                    let ghost before = work@;
                    work.push((i, t.clone()));
                    assert(work_view(work@) =~= work_view(before).push((i, t@)));
                }
            },
            None => {},
        }
        i = i + 1;
    }
    assert(blocks@.take(blocks.len() as int) =~= blocks@);
    if work.len() == 0 {
        return None;
    }
    Some(work)
}

/// The lower-case hexadecimal digit of `d < 16`.
pub open spec fn hex_digit_lower(d: nat) -> char {
    if d < 10 {
        (('0' as u32) + d) as char
    } else {
        (('a' as u32) + (d - 10)) as char
    }
}

/// How serde_json writes one character inside a JSON string: `"` and `\`
/// behind a backslash; the control characters U+0000..U+001F as `\b`, `\t`,
/// `\n`, `\f`, `\r`, or else `\u00XX` with lower-case hex digits; every other
/// character as it is.
pub open spec fn json_escape_char(c: char) -> Seq<char> {
    if c == '"' {
        seq!['\\', '"']
    } else if c == '\\' {
        seq!['\\', '\\']
    } else if c == '\u{8}' {
        seq!['\\', 'b']
    } else if c == '\t' {
        seq!['\\', 't']
    } else if c == '\n' {
        seq!['\\', 'n']
    } else if c == '\u{c}' {
        seq!['\\', 'f']
    } else if c == '\r' {
        seq!['\\', 'r']
    } else if (c as u32) < 0x20 {
        seq!['\\', 'u', '0', '0', hex_digit_lower(((c as u32) / 16) as nat), hex_digit_lower(((c as u32) % 16) as nat)]
    } else {
        seq![c]
    }
}

/// The characters of `s`, each written as `json_escape_char` writes it.
pub open spec fn json_escaped(s: Seq<char>) -> Seq<char>
    decreases s.len(),
{
    if s.len() == 0 {
        Seq::empty()
    } else {
        json_escaped(s.drop_last()) + json_escape_char(s.last())
    }
}

/// The JSON string literal that serde_json writes for the text `s`: the
/// escaped characters between double quotes.
pub open spec fn json_string(s: Seq<char>) -> Seq<char> {
    seq!['"'] + json_escaped(s) + seq!['"']
}

/// `serde_json::to_string` on a string slice: the JSON string literal of `s`
/// (see `json_string`). Serialising a string into the in-memory buffer that
/// `to_string` uses cannot fail, so the error arm is never taken.
#[verifier::external_body]
fn json_quote(s: &str) -> (r: String)
    ensures
        r@ == json_string(s@),
{
    match serde_json::to_string(s) {
        Ok(j) => j,
        Err(_) => String::new(),
    }
}

/// A JSON string literal holds no raw newline.
proof fn lemma_json_string_one_line(s: Seq<char>)
    ensures
        free_of(json_string(s), '\n'),
{
    lemma_json_escaped_one_line(s);
    let e = json_escaped(s);
    let j = json_string(s);
    assert forall|i: int| 0 <= i < j.len() implies j[i] != '\n' by {
        if 1 <= i < j.len() - 1 {
            assert(j[i] == e[i - 1]);
        }
    }
}

proof fn lemma_json_escaped_one_line(s: Seq<char>)
    ensures
        free_of(json_escaped(s), '\n'),
    decreases s.len(),
{
    if s.len() > 0 {
        lemma_json_escaped_one_line(s.drop_last());
        let p = json_escaped(s.drop_last());
        let c = s.last();
        let q = json_escape_char(c);
        assert(free_of(q, '\n')) by {
            if (c as u32) < 0x20 && c != '\u{8}' && c != '\t' && c != '\n' && c != '\u{c}' && c != '\r' {
                let hi = ((c as u32) / 16) as nat;
                let lo = ((c as u32) % 16) as nat;
                assert(hi < 10);
                assert(hex_digit_lower(hi) != '\n');
                assert(hex_digit_lower(lo) != '\n');
            }
        }
        assert forall|i: int| 0 <= i < (p + q).len() implies (p + q)[i] != '\n' by {
            if i < p.len() {
                assert((p + q)[i] == p[i]);
            } else {
                assert((p + q)[i] == q[i - p.len()]);
            }
        }
    }
}

/// The JSON string literal of the characters `v`.
pub fn json_quote_chars(v: &[char]) -> (r: Vec<char>)
    ensures
        r@ == json_string(v@),
        free_of(r@, '\n'),
{
    let s = string_of(v);
    proof {
        lemma_json_string_one_line(v@);
    }
    chars_of(json_quote(s.as_str()).as_str())
}

/// One sample as a JSON object line (without its newline), fields in the
/// order `input`, `output`.
pub open spec fn sample_json(s: (Seq<char>, Seq<char>)) -> Seq<char> {
    "{\"input\":"@ + json_string(s.0) + ",\"output\":"@ + json_string(s.1) + "}"@
}

/// The samples as JSON lines, each ending with a newline.
pub open spec fn jsonl_text(samples: Seq<(Seq<char>, Seq<char>)>) -> Seq<char>
    decreases samples.len(),
{
    if samples.len() == 0 {
        Seq::empty()
    } else {
        jsonl_text(samples.drop_last()) + sample_json(samples.last()) + seq!['\n']
    }
}

/// The samples as JSON lines: one object per sample with its `input` and
/// `output`, each line ending with a newline.
pub fn csc_format_jsonl(samples: &[CscSample]) -> (s: String)
    ensures
        s@ == jsonl_text(sample_views(samples@)),
        line_count(s@) == samples.len(),
{
    let open_input = chars_of("{\"input\":");
    let mid = chars_of(",\"output\":");
    let close = chars_of("}");
    let mut buf: Vec<char> = Vec::new();
    let mut i: usize = 0;
    while i < samples.len()
        invariant
            i <= samples.len(),
            open_input@ == "{\"input\":"@,
            mid@ == ",\"output\":"@,
            close@ == "}"@,
            buf@ == jsonl_text(sample_views(samples@.take(i as int))),
            forall|j: int| 0 <= j < i ==> free_of(json_string(#[trigger] sample_views(samples@)[j].0), '\n')
                && free_of(json_string(sample_views(samples@)[j].1), '\n'),
        decreases samples.len() - i,
    {
        assert(sample_views(samples@.take(i + 1)).drop_last() == sample_views(samples@.take(i as int)));
        assert(sample_views(samples@.take(i + 1)).last() == sample_view(samples@[i as int]));
        extend_chars(&mut buf, &open_input);
        let qi = json_quote_chars(&chars_of(samples[i].input.as_str()));
        extend_chars(&mut buf, &qi);
        extend_chars(&mut buf, &mid);
        let qo = json_quote_chars(&chars_of(samples[i].output.as_str()));
        extend_chars(&mut buf, &qo);
        assert(sample_views(samples@)[i as int] == sample_view(samples@[i as int]));
        assert(qi@ == json_string(sample_views(samples@)[i as int].0));
        assert(qo@ == json_string(sample_views(samples@)[i as int].1));
        assert(free_of(json_string(sample_views(samples@)[i as int].0), '\n'));
        assert(free_of(json_string(sample_views(samples@)[i as int].1), '\n'));
        extend_chars(&mut buf, &close);
        buf.push('\n');
        let ghost k = i as int;
        i = i + 1;
        assert forall|j: int| 0 <= j < i implies free_of(json_string(#[trigger] sample_views(samples@)[j].0), '\n')
            && free_of(json_string(sample_views(samples@)[j].1), '\n') by {
            if j < k {
            } else {
                assert(j == k);
            }
        }
    }
    assert(samples@.take(samples.len() as int) == samples@);
    proof {
        lemma_one_line_per_sample(sample_views(samples@));
    }
    string_of(&buf)
}

/// Number of newline characters in `s`.
pub open spec fn newline_count(s: Seq<char>) -> nat
    decreases s.len(),
{
    if s.len() == 0 {
        0
    } else {
        newline_count(s.drop_last()) + (if s.last() == '\n' { 1nat } else { 0nat })
    }
}

/// Number of lines of `s` as `str::lines` counts them: one per newline, and
/// one more for a last line without a newline.
pub open spec fn line_count(s: Seq<char>) -> nat {
    newline_count(s) + (if s.len() > 0 && s.last() != '\n' { 1nat } else { 0nat })
}

proof fn lemma_newline_count_bound(s: Seq<char>)
    ensures
        newline_count(s) <= s.len(),
    decreases s.len(),
{
    if s.len() > 0 {
        lemma_newline_count_bound(s.drop_last());
    }
}

/// The number of lines of `v` (see `line_count`).
pub fn count_lines(v: &[char]) -> (n: usize)
    ensures
        n == line_count(v@),
{
    let mut n: usize = 0;
    let mut i: usize = 0;
    while i < v.len()
        invariant
            i <= v.len(),
            n == newline_count(v@.take(i as int)),
            n <= i,
        decreases v.len() - i,
    {
        assert(v@.take(i + 1).drop_last() == v@.take(i as int));
        if v[i] == '\n' {
            n = n + 1;
        }
        i = i + 1;
    }
    assert(v@.take(v.len() as int) == v@);
    if v.len() > 0 && v[v.len() - 1] != '\n' {
        proof { lemma_newline_count_bound(v@.drop_last()); }
        n = n + 1;
    }
    n
}

proof fn lemma_newline_count_concat(a: Seq<char>, b: Seq<char>)
    ensures
        newline_count(a + b) == newline_count(a) + newline_count(b),
    decreases b.len(),
{
    if b.len() > 0 {
        lemma_newline_count_concat(a, b.drop_last());
        assert((a + b).drop_last() =~= a + b.drop_last());
    } else {
        assert(a + b =~= a);
    }
}

proof fn lemma_newline_free(s: Seq<char>)
    requires
        free_of(s, '\n'),
    ensures
        newline_count(s) == 0,
    decreases s.len(),
{
    if s.len() > 0 {
        assert(free_of(s.drop_last(), '\n'));
        lemma_newline_free(s.drop_last());
    }
}

/// The JSON object of a sample is one line: it holds no newline.
proof fn lemma_sample_json_one_line(s: (Seq<char>, Seq<char>))
    requires
        free_of(json_string(s.0), '\n'),
        free_of(json_string(s.1), '\n'),
    ensures
        newline_count(sample_json(s)) == 0,
{
    reveal_strlit("{\"input\":");
    reveal_strlit(",\"output\":");
    reveal_strlit("}");
    let a = "{\"input\":"@;
    let b = ",\"output\":"@;
    let c = "}"@;
    assert(free_of(a, '\n'));
    assert(free_of(b, '\n'));
    assert(free_of(c, '\n'));
    lemma_newline_free(a);
    lemma_newline_free(b);
    lemma_newline_free(c);
    lemma_newline_free(json_string(s.0));
    lemma_newline_free(json_string(s.1));
    lemma_newline_count_concat(a, json_string(s.0));
    lemma_newline_count_concat(a + json_string(s.0), b);
    lemma_newline_count_concat(a + json_string(s.0) + b, json_string(s.1));
    lemma_newline_count_concat(a + json_string(s.0) + b + json_string(s.1), c);
}

/// Samples whose JSON strings hold no newline make one line each.
proof fn lemma_one_line_per_sample(samples: Seq<(Seq<char>, Seq<char>)>)
    requires
        forall|i: int| 0 <= i < samples.len() ==> free_of(json_string(#[trigger] samples[i].0), '\n')
            && free_of(json_string(samples[i].1), '\n'),
    ensures
        line_count(jsonl_text(samples)) == samples.len(),
        newline_count(jsonl_text(samples)) == samples.len(),
    decreases samples.len(),
{
    if samples.len() > 0 {
        let prev = samples.drop_last();
        assert forall|i: int| 0 <= i < prev.len() implies free_of(json_string(#[trigger] prev[i].0), '\n')
            && free_of(json_string(prev[i].1), '\n') by {
            assert(prev[i] == samples[i]);
        }
        lemma_one_line_per_sample(prev);
        let last = samples.last();
        assert(last == samples[samples.len() - 1]);
        lemma_sample_json_one_line(last);
        lemma_newline_count_concat(jsonl_text(prev), sample_json(last));
        lemma_newline_count_concat(jsonl_text(prev) + sample_json(last), seq!['\n']);
        let nl = seq!['\n'];
        assert(nl.drop_last() =~= Seq::<char>::empty());
        assert(nl.last() == '\n');
        assert(newline_count(Seq::<char>::empty()) == 0);
        assert(newline_count(nl) == newline_count(nl.drop_last()) + 1);
        assert(newline_count(nl) == 1);
    }
}

} // verus!
