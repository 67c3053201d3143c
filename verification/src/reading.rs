//! Moving through a book (chapters and pages), recording reading time per
//! day, and the in-memory feedback log with its exported report.
use vstd::prelude::*;
use crate::text::{chars_of, string_of, chars_eq, extend_chars, decimal, decimal_chars, string_views};

verus! {

/// Where the reader is in the open book.
#[derive(Clone, Copy, Debug, PartialEq, Eq, Structural)]
pub struct ReadingPosition {
    pub chapter: usize,
    pub page: usize,
    /// The view must scroll back to the top.
    pub scroll_to_top: bool,
    /// The pages of the chapter must be laid out again.
    pub pages_dirty: bool,
}

/// The position at the start of `chapter`.
pub open spec fn start_of(chapter: usize) -> ReadingPosition {
    ReadingPosition { chapter, page: 0, scroll_to_top: true, pages_dirty: true }
}

/// The position after moving to the next chapter of a book of `total`
/// chapters; None at the last chapter.
pub open spec fn next_chapter_pos(p: ReadingPosition, total: usize) -> Option<ReadingPosition> {
    if total > 0 && p.chapter < total - 1 {
        Some(start_of((p.chapter + 1) as usize))
    } else {
        None
    }
}

/// The position after moving to the previous chapter; None at the first.
pub open spec fn prev_chapter_pos(p: ReadingPosition) -> Option<ReadingPosition> {
    if p.chapter > 0 {
        Some(start_of((p.chapter - 1) as usize))
    } else {
        None
    }
}

/// The chapters whose corrections are prepared after moving to `chapter`:
/// that chapter, then the one before and the one after when they exist.
pub open spec fn prefetch_chapters(chapter: int, total: int) -> Seq<usize> {
    seq![chapter as usize]
        + (if chapter > 0 { seq![(chapter - 1) as usize] } else { Seq::empty() })
        + (if chapter + 1 < total { seq![(chapter + 1) as usize] } else { Seq::empty() })
}

fn prefetch_list(chapter: usize, total: usize) -> (v: Vec<usize>)
    ensures
        v@ == prefetch_chapters(chapter as int, total as int),
{
    let mut v: Vec<usize> = Vec::new();
    v.push(chapter);
    if chapter > 0 {
        v.push(chapter - 1);
    }
    if chapter < total && total - chapter > 1 {
        v.push(chapter + 1);
    }
    assert(v@ =~= prefetch_chapters(chapter as int, total as int));
    v
}

/// Moves to the next chapter of a book of `total` chapters, unless the
/// reader is at the last one; the result lists the chapters to prepare.
pub fn next_chapter(pos: &mut ReadingPosition, total: usize) -> (prefetch: Option<Vec<usize>>)
    ensures
        match next_chapter_pos(*old(pos), total) {
            Some(q) => *final(pos) == q && prefetch is Some
                && prefetch->0@ == prefetch_chapters(q.chapter as int, total as int),
            None => *final(pos) == *old(pos) && prefetch is None,
        },
{
    if total > 0 && pos.chapter < total - 1 {
        pos.chapter = pos.chapter + 1;
        pos.scroll_to_top = true;
        pos.pages_dirty = true;
        pos.page = 0;
        Some(prefetch_list(pos.chapter, total))
    } else {
        None
    }
}

/// Moves to the previous chapter, unless the reader is at the first one; the
/// result lists the chapters to prepare.
pub fn prev_chapter(pos: &mut ReadingPosition, total: usize) -> (prefetch: Option<Vec<usize>>)
    ensures
        match prev_chapter_pos(*old(pos)) {
            Some(q) => *final(pos) == q && prefetch is Some
                && prefetch->0@ == prefetch_chapters(q.chapter as int, total as int),
            None => *final(pos) == *old(pos) && prefetch is None,
        },
{
    if pos.chapter > 0 {
        pos.chapter = pos.chapter - 1;
        pos.scroll_to_top = true;
        pos.pages_dirty = true;
        pos.page = 0;
        Some(prefetch_list(pos.chapter, total))
    } else {
        None
    }
}

/// Going to the next chapter and back returns to the chapter one started
/// from, at its first page; and so does going back and forth again.
pub proof fn law_prev_undoes_next(p: ReadingPosition, total: usize)
    ensures
        next_chapter_pos(p, total) matches Some(q) ==> (prev_chapter_pos(q) matches Some(r)
            && r.chapter == p.chapter && r.page == 0),
        p.chapter < total ==> (prev_chapter_pos(p) matches Some(q) ==> (next_chapter_pos(q, total) matches Some(r)
            && r.chapter == p.chapter && r.page == 0)),
{
}

/// What turning a page comes to.
#[derive(Clone, Copy, Debug, PartialEq, Eq, Structural)]
pub enum PageTurn {
    /// Animate to this page of the chapter.
    AnimateTo(usize),
    /// Go on with the next chapter.
    NextChapter,
    /// Go back to the previous chapter, at its last page.
    PrevChapter,
    /// At the very start: nothing to do.
    Stay,
}

/// What turning forward comes to: the next page while there is one, else the
/// next chapter.
pub open spec fn next_page_spec(pos: ReadingPosition, total_pages: usize) -> PageTurn {
    if pos.page + 1 < total_pages { PageTurn::AnimateTo((pos.page + 1) as usize) } else { PageTurn::NextChapter }
}

/// Turning forward (see `next_page_spec`).
pub fn next_page(pos: &ReadingPosition, total_pages: usize) -> (t: PageTurn)
    ensures
        t == next_page_spec(*pos, total_pages),
{
    if total_pages > 0 && pos.page < total_pages - 1 {
        PageTurn::AnimateTo(pos.page + 1)
    } else {
        PageTurn::NextChapter
    }
}

/// What turning back comes to: the previous page while there is one, else
/// the previous chapter, and nothing at the first page of the first chapter.
pub open spec fn prev_page_spec(pos: ReadingPosition) -> PageTurn {
    if pos.page > 0 {
        PageTurn::AnimateTo((pos.page - 1) as usize)
    } else if pos.chapter > 0 {
        PageTurn::PrevChapter
    } else {
        PageTurn::Stay
    }
}

/// Turning back (see `prev_page_spec`).
pub fn prev_page(pos: &ReadingPosition) -> (t: PageTurn)
    ensures
        t == prev_page_spec(*pos),
{
    if pos.page > 0 {
        PageTurn::AnimateTo(pos.page - 1)
    } else if pos.chapter > 0 {
        PageTurn::PrevChapter
    } else {
        PageTurn::Stay
    }
}

/// Turning forward and then back within a chapter returns to the same page.
pub proof fn law_page_turns_undo(p: ReadingPosition, total_pages: usize)
    requires
        p.page + 1 < total_pages,
    ensures
        next_page_spec(p, total_pages) == PageTurn::AnimateTo((p.page + 1) as usize),
        prev_page_spec(ReadingPosition { page: (p.page + 1) as usize, ..p }) == PageTurn::AnimateTo(p.page),
{
}

/// Reading time on one day; `date` is the day number since the Unix epoch,
/// written in decimal.
#[derive(Clone, Debug)]
pub struct ReadingSession {
    pub date: String,
    pub seconds: u64,
}

/// Reading time of a book, in total and per day.
#[derive(Clone, Debug)]
pub struct ReadingStats {
    pub total_seconds: u64,
    pub sessions: Vec<ReadingSession>,
}

pub open spec fn session_view(s: ReadingSession) -> (Seq<char>, int) {
    (s.date@, s.seconds as int)
}

pub open spec fn sessions_view(v: Seq<ReadingSession>) -> Seq<(Seq<char>, int)> {
    v.map_values(|s: ReadingSession| session_view(s))
}

/// The stats as the total and the list of (day, seconds).
pub open spec fn stats_view(s: ReadingStats) -> (int, Seq<(Seq<char>, int)>) {
    (s.total_seconds as int, sessions_view(s.sessions@))
}

/// The first index of a session of `day`, if any.
pub open spec fn first_session(ss: Seq<(Seq<char>, int)>, day: Seq<char>) -> Option<int>
    decreases ss.len(),
{
    if ss.len() == 0 {
        None
    } else {
        match first_session(ss.drop_last(), day) {
            Some(i) => Some(i),
            None => if ss.last().0 == day { Some(ss.len() - 1) } else { None },
        }
    }
}

proof fn lemma_first_session(ss: Seq<(Seq<char>, int)>, day: Seq<char>)
    ensures
        match first_session(ss, day) {
            Some(i) => 0 <= i < ss.len() && ss[i].0 == day && forall|j: int| 0 <= j < i ==> ss[j].0 != day,
            None => forall|j: int| 0 <= j < ss.len() ==> ss[j].0 != day,
        },
    decreases ss.len(),
{
    if ss.len() > 0 {
        lemma_first_session(ss.drop_last(), day);
        assert forall|j: int| 0 <= j < ss.len() - 1 implies ss.drop_last()[j] == ss[j] by {}
    }
}

/// `secs` added to the first session of `day`, or a new session for it at
/// the end.
pub open spec fn add_session_time(ss: Seq<(Seq<char>, int)>, day: Seq<char>, secs: int) -> Seq<(Seq<char>, int)> {
    match first_session(ss, day) {
        Some(i) => ss.update(i, (day, ss[i].1 + secs)),
        None => ss.push((day, secs)),
    }
}

/// The day key of a Unix time: the day number, in decimal.
pub open spec fn day_key(now: u64) -> Seq<char> {
    decimal((now / 86400) as nat)
}

/// Seconds read since `start`; zero when the clock went back.
pub open spec fn elapsed_since(start: u64, now: u64) -> int {
    if now >= start { now - start } else { 0 }
}

/// The stats after `secs` seconds read on `day` (empty stats when there were
/// none).
pub open spec fn recorded(stats: Option<(int, Seq<(Seq<char>, int)>)>, day: Seq<char>, secs: int) -> (int, Seq<(Seq<char>, int)>) {
    let (total, ss) = match stats {
        Some(s) => s,
        None => (0, Seq::empty()),
    };
    (total + secs, add_session_time(ss, day, secs))
}

pub open spec fn opt_stats_view(s: Option<ReadingStats>) -> Option<(int, Seq<(Seq<char>, int)>)> {
    match s {
        Some(st) => Some(stats_view(st)),
        None => None,
    }
}

/// Sum of the seconds of the sessions.
pub open spec fn sum_seconds(ss: Seq<(Seq<char>, int)>) -> int
    decreases ss.len(),
{
    if ss.len() == 0 {
        0
    } else {
        sum_seconds(ss.drop_last()) + ss.last().1
    }
}

/// The first session of `day` among `v`, if any.
fn find_session(v: &Vec<ReadingSession>, day: &Vec<char>) -> (r: Option<usize>)
    ensures
        match r {
            Some(i) => first_session(sessions_view(v@), day@) == Some(i as int) && i < v.len(),
            None => first_session(sessions_view(v@), day@) is None,
        },
{
    let ghost ss = sessions_view(v@);
    proof { lemma_first_session(ss, day@); }
    let mut i: usize = 0;
    while i < v.len()
        invariant
            i <= v.len(),
            ss == sessions_view(v@),
            forall|j: int| 0 <= j < i ==> ss[j].0 != day@,
            match first_session(ss, day@) {
                Some(k) => 0 <= k < ss.len() && ss[k].0 == day@ && forall|j: int| 0 <= j < k ==> ss[j].0 != day@,
                None => forall|j: int| 0 <= j < ss.len() ==> ss[j].0 != day@,
            },
        decreases v.len() - i,
    {
        let date = chars_of(v[i].date.as_str());
        if chars_eq(&date, day) {
            assert(ss[i as int].0 == day@);
            return Some(i);
        }
        i = i + 1;
    }
    None
}

/// Ends the current reading session at `now` (Unix seconds): the session
/// start is cleared; sessions shorter than five seconds, and books without a
/// configuration, record nothing; otherwise the seconds are added to the
/// total and to today's session. The result says whether the book's
/// configuration must be saved.
pub fn flush_reading_stats(session_start: &mut Option<u64>, stats: &mut Option<ReadingStats>, has_config: bool, now: u64) -> (save: bool)
    requires
        ({
            let secs = match *old(session_start) { Some(st) => elapsed_since(st, now), None => 0 };
            match *old(stats) {
                Some(st) => st.total_seconds + secs <= u64::MAX
                    && forall|i: int| 0 <= i < st.sessions@.len() && st.sessions@[i].date@ == day_key(now)
                        ==> st.sessions@[i].seconds + secs <= u64::MAX,
                None => true,
            }
        }),
    ensures
        *final(session_start) is None,
        save <==> (*old(session_start) is Some && elapsed_since(old(session_start)->0, now) >= 5 && has_config),
        save ==> *final(stats) is Some && opt_stats_view(*final(stats)) == Some(recorded(
            opt_stats_view(*old(stats)), day_key(now), elapsed_since(old(session_start)->0, now))),
        !save ==> *final(stats) == *old(stats),
{
    let start = match *session_start {
        Some(s) => s,
        None => {
            return false;
        },
    };
    *session_start = None;
    let elapsed = if now >= start { now - start } else { 0 };
    if elapsed < 5 || !has_config {
        return false;
    }
    let mut st = match stats.take() {
        Some(s) => s,
        None => ReadingStats { total_seconds: 0, sessions: Vec::new() },
    };
    let ghost ss = sessions_view(st.sessions@);
    assert(ss == sessions_view(st.sessions@));
    st.total_seconds = st.total_seconds + elapsed;
    let today = decimal_chars(now / 86400);
    proof { lemma_first_session(ss, today@); }
    match find_session(&st.sessions, &today) {
        Some(i) => {
            assert(st.sessions@[i as int].date@ == day_key(now));
            let old_secs = st.sessions[i].seconds;
            let date = st.sessions[i].date.clone();
            st.sessions.set(i, ReadingSession { date, seconds: old_secs + elapsed });
            assert(sessions_view(st.sessions@) =~= ss.update(i as int, (day_key(now), ss[i as int].1 + elapsed)));
        },
        None => {
            st.sessions.push(ReadingSession { date: string_of(&today), seconds: elapsed });
            assert(sessions_view(st.sessions@) =~= ss.push((day_key(now), elapsed as int)));
        },
    }
    *stats = Some(st);
    true
}

proof fn lemma_sum_update(ss: Seq<(Seq<char>, int)>, i: int, v: (Seq<char>, int))
    requires
        0 <= i < ss.len(),
    ensures
        sum_seconds(ss.update(i, v)) == sum_seconds(ss) - ss[i].1 + v.1,
    decreases ss.len(),
{
    if i == ss.len() - 1 {
        assert(ss.update(i, v).drop_last() =~= ss.drop_last());
    } else {
        lemma_sum_update(ss.drop_last(), i, v);
        assert(ss.update(i, v).drop_last() =~= ss.drop_last().update(i, v));
    }
}

/// Recording reading time keeps the total equal to the sum of the days: if it
/// was before, it is after.
pub proof fn law_total_is_sum_of_days(stats: Option<(int, Seq<(Seq<char>, int)>)>, day: Seq<char>, secs: int)
    requires
        match stats {
            Some(s) => s.0 == sum_seconds(s.1),
            None => true,
        },
    ensures
        recorded(stats, day, secs).0 == sum_seconds(recorded(stats, day, secs).1),
{
    let (total, ss) = match stats {
        Some(s) => s,
        None => (0, Seq::empty()),
    };
    assert(total == sum_seconds(ss));
    lemma_first_session(ss, day);
    match first_session(ss, day) {
        Some(i) => {
            lemma_sum_update(ss, i, (day, ss[i].1 + secs));
            assert(recorded(stats, day, secs).1 == ss.update(i, (day, ss[i].1 + secs)));
        },
        None => {
            assert(ss.push((day, secs)).drop_last() =~= ss);
            assert(recorded(stats, day, secs).1 == ss.push((day, secs)));
        },
    }
}

/// Most lines the feedback log keeps.
pub const MAX_FEEDBACK_LINES: usize = 600;

/// The recent events of the session, oldest first.
#[derive(Clone, Debug)]
pub struct FeedbackLog {
    pub lines: Vec<String>,
}

/// A log line: `[<unix seconds>] <message>`.
pub open spec fn log_line(ts: u64, msg: Seq<char>) -> Seq<char> {
    "["@ + decimal(ts as nat) + "] "@ + msg
}

/// The last 600 lines of `lines`.
pub open spec fn keep_newest(lines: Seq<Seq<char>>) -> Seq<Seq<char>> {
    if lines.len() > MAX_FEEDBACK_LINES {
        lines.subrange(lines.len() - MAX_FEEDBACK_LINES, lines.len() as int)
    } else {
        lines
    }
}

impl FeedbackLog {
    pub fn new() -> (log: FeedbackLog)
        ensures
            log.lines@.len() == 0,
    {
        FeedbackLog { lines: Vec::new() }
    }

    /// Appends `[ts] msg`, dropping the oldest lines beyond 600.
    pub fn push_feedback_log(&mut self, ts: u64, msg: &str)
        ensures
            string_views(final(self).lines@) == keep_newest(string_views(old(self).lines@).push(log_line(ts, msg@))),
    {
        let mut line = chars_of("[");
        extend_chars(&mut line, &decimal_chars(ts));
        extend_chars(&mut line, &chars_of("] "));
        extend_chars(&mut line, &chars_of(msg));
        self.lines.push(string_of(&line));
        let ghost all = string_views(self.lines@);
        assert(all == string_views(old(self).lines@).push(log_line(ts, msg@)));
        if self.lines.len() > MAX_FEEDBACK_LINES {
            let remove = self.lines.len() - MAX_FEEDBACK_LINES;
            let mut kept: Vec<String> = Vec::new();
            let mut i = remove;
            while i < self.lines.len()
                invariant
                    remove <= i <= self.lines.len(),
                    all == string_views(self.lines@),
                    remove == self.lines.len() - MAX_FEEDBACK_LINES,
                    string_views(kept@) == all.subrange(remove as int, i as int),
                decreases self.lines.len() - i,
            {
                let ghost before = string_views(kept@);
                let line_i = self.lines[i].clone();
                assert(line_i@ == all[i as int]);
                kept.push(line_i);
                assert(string_views(kept@) =~= before.push(all[i as int]));
                i = i + 1;
                assert(string_views(kept@) =~= all.subrange(remove as int, i as int));
            }
            self.lines = kept;
        }
    }
}

/// The log keeps at most 600 lines, the newest last, and they are the newest
/// lines pushed, in order.
pub proof fn law_feedback_log_bounded(lines: Seq<Seq<char>>, line: Seq<char>)
    ensures
        keep_newest(lines.push(line)).len() <= MAX_FEEDBACK_LINES,
        keep_newest(lines.push(line)).last() == line,
        keep_newest(lines.push(line)).len() == (if lines.len() + 1 > MAX_FEEDBACK_LINES { MAX_FEEDBACK_LINES as int } else { lines.len() + 1int }),
        keep_newest(lines.push(line)) == lines.push(line).subrange(
            lines.len() + 1 - keep_newest(lines.push(line)).len(), lines.len() + 1int),
{
    assert(lines.push(line).subrange(0, lines.len() + 1int) =~= lines.push(line));
}

/// A book of the library as the feedback report lists it.
#[derive(Clone, Debug)]
pub struct RecentBook {
    pub title: String,
    pub path: String,
    pub last_chapter: usize,
    pub last_opened: u64,
}

/// The facts about the running application that head the feedback report.
#[derive(Clone, Debug)]
pub struct ReportInfo {
    pub generated_ts: u64,
    pub app_version: String,
    pub data_dir: String,
    pub sharing_server_running: bool,
    pub sharing_server_addr: String,
    pub language: String,
}

/// Most books the report lists.
pub const REPORT_BOOKS: usize = 30;

pub open spec fn bool_text(b: bool) -> Seq<char> {
    if b { "true"@ } else { "false"@ }
}

pub open spec fn book_line(b: RecentBook) -> Seq<char> {
    "- "@ + b.title@ + " | "@ + b.path@ + " | chapter="@ + decimal(b.last_chapter as nat)
        + " | last_opened="@ + decimal(b.last_opened as nat) + "\n"@
}

pub open spec fn book_lines(books: Seq<RecentBook>) -> Seq<char>
    decreases books.len(),
{
    if books.len() == 0 {
        Seq::empty()
    } else {
        book_lines(books.drop_last()) + book_line(books.last())
    }
}

pub open spec fn text_lines(lines: Seq<Seq<char>>) -> Seq<char>
    decreases lines.len(),
{
    if lines.len() == 0 {
        Seq::empty()
    } else {
        text_lines(lines.drop_last()) + lines.last() + "\n"@
    }
}

pub open spec fn report_header(info: ReportInfo, books_count: nat) -> Seq<char> {
    "RustEpubReader Desktop Feedback Log\n"@
        + "generated_unix_ts="@ + decimal(info.generated_ts as nat) + "\n"@
        + "app_version="@ + info.app_version@ + "\n"@
        + "data_dir="@ + info.data_dir@ + "\n"@
        + "books_count="@ + decimal(books_count) + "\n"@
        + "sharing_server_running="@ + bool_text(info.sharing_server_running) + "\n"@
        + "sharing_server_addr="@ + info.sharing_server_addr@ + "\n"@
        + "language="@ + info.language@ + "\n"@
        + "---\n"@
}

/// The feedback report: the header facts, the first 30 books of the
/// library, and the event log lines, each line ending with a newline.
pub open spec fn report_text(info: ReportInfo, books: Seq<RecentBook>, logs: Seq<Seq<char>>) -> Seq<char> {
    report_header(info, books.len())
        + "Recent Books:\n"@
        + book_lines(books.take(if books.len() < REPORT_BOOKS { books.len() as int } else { REPORT_BOOKS as int }))
        + "---\n"@
        + "Event Logs:\n"@
        + text_lines(logs)
}

fn push_field(v: &mut Vec<char>, name: &str, value: &[char])
    ensures
        final(v)@ == old(v)@ + name@ + value@ + "\n"@,
{
    extend_chars(v, &chars_of(name));
    extend_chars(v, value);
    extend_chars(v, &chars_of("\n"));
}

fn report_header_chars(info: &ReportInfo, books_count: usize) -> (v: Vec<char>)
    ensures
        v@ == report_header(*info, books_count as nat),
{
    let mut v = chars_of("RustEpubReader Desktop Feedback Log\n");
    push_field(&mut v, "generated_unix_ts=", &decimal_chars(info.generated_ts));
    push_field(&mut v, "app_version=", &chars_of(info.app_version.as_str()));
    push_field(&mut v, "data_dir=", &chars_of(info.data_dir.as_str()));
    push_field(&mut v, "books_count=", &decimal_chars(books_count as u64));
    let running = if info.sharing_server_running { chars_of("true") } else { chars_of("false") };
    push_field(&mut v, "sharing_server_running=", &running);
    push_field(&mut v, "sharing_server_addr=", &chars_of(info.sharing_server_addr.as_str()));
    push_field(&mut v, "language=", &chars_of(info.language.as_str()));
    extend_chars(&mut v, &chars_of("---\n"));
    v
}

/// The text of the feedback report (see `report_text`).
pub fn feedback_report(info: &ReportInfo, books: &[RecentBook], logs: &[String]) -> (s: String)
    ensures
        s@ == report_text(*info, books@, string_views(logs@)),
{
    let mut v = report_header_chars(info, books.len());
    extend_chars(&mut v, &chars_of("Recent Books:\n"));
    let ghost head = v@;
    let n = if books.len() < REPORT_BOOKS { books.len() } else { REPORT_BOOKS };
    let mut i: usize = 0;
    while i < n
        invariant
            i <= n <= books.len(),
            v@ == head + book_lines(books@.take(i as int)),
        decreases n - i,
    {
        assert(books@.take(i + 1).drop_last() == books@.take(i as int));
        let b = &books[i];
        extend_chars(&mut v, &chars_of("- "));
        extend_chars(&mut v, &chars_of(b.title.as_str()));
        extend_chars(&mut v, &chars_of(" | "));
        extend_chars(&mut v, &chars_of(b.path.as_str()));
        extend_chars(&mut v, &chars_of(" | chapter="));
        extend_chars(&mut v, &decimal_chars(b.last_chapter as u64));
        extend_chars(&mut v, &chars_of(" | last_opened="));
        extend_chars(&mut v, &decimal_chars(b.last_opened));
        extend_chars(&mut v, &chars_of("\n"));
        i = i + 1;
        assert(v@ =~= head + book_lines(books@.take(i as int)));
    }
    extend_chars(&mut v, &chars_of("---\n"));
    extend_chars(&mut v, &chars_of("Event Logs:\n"));
    let ghost mid = v@;
    let mut k: usize = 0;
    while k < logs.len()
        invariant
            k <= logs.len(),
            v@ == mid + text_lines(string_views(logs@).take(k as int)),
        decreases logs.len() - k,
    {
        assert(string_views(logs@).take(k + 1).drop_last() == string_views(logs@).take(k as int));
        extend_chars(&mut v, &chars_of(logs[k].as_str()));
        extend_chars(&mut v, &chars_of("\n"));
        k = k + 1;
        assert(v@ =~= mid + text_lines(string_views(logs@).take(k as int)));
    }
    assert(string_views(logs@).take(logs.len() as int) == string_views(logs@));
    string_of(&v)
}

} // verus!
