use rust_epub_reader::reading::{
    feedback_report, flush_reading_stats, next_chapter, next_page, prev_chapter, prev_page,
    FeedbackLog, PageTurn, ReadingPosition, ReadingSession, ReadingStats, RecentBook, ReportInfo,
};

fn pos(chapter: usize, page: usize) -> ReadingPosition {
    ReadingPosition { chapter, page, scroll_to_top: false, pages_dirty: false }
}

#[test]
fn chapters_move_and_prefetch_neighbours() {
    let mut p = pos(0, 4);
    assert_eq!(next_chapter(&mut p, 3), Some(vec![1, 0, 2]));
    assert_eq!(p, ReadingPosition { chapter: 1, page: 0, scroll_to_top: true, pages_dirty: true });
    assert_eq!(next_chapter(&mut p, 3), Some(vec![2, 1]));
    assert_eq!(next_chapter(&mut p, 3), None);
    assert_eq!(p.chapter, 2);
    assert_eq!(prev_chapter(&mut p, 3), Some(vec![1, 0, 2]));
    assert_eq!(prev_chapter(&mut p, 3), Some(vec![0, 1]));
    assert_eq!(prev_chapter(&mut p, 3), None);
    let mut empty = pos(0, 0);
    assert_eq!(next_chapter(&mut empty, 0), None);
}

#[test]
fn next_then_prev_chapter_returns() {
    let mut p = pos(4, 9);
    next_chapter(&mut p, 10);
    prev_chapter(&mut p, 10);
    assert_eq!(p.chapter, 4);
    assert_eq!(p.page, 0);
}

#[test]
fn pages_turn_within_and_across_chapters() {
    assert_eq!(next_page(&pos(0, 2), 5), PageTurn::AnimateTo(3));
    assert_eq!(next_page(&pos(0, 4), 5), PageTurn::NextChapter);
    assert_eq!(next_page(&pos(0, usize::MAX), 5), PageTurn::NextChapter);
    assert_eq!(next_page(&pos(0, 0), 0), PageTurn::NextChapter);
    assert_eq!(prev_page(&pos(2, 3)), PageTurn::AnimateTo(2));
    assert_eq!(prev_page(&pos(2, 0)), PageTurn::PrevChapter);
    assert_eq!(prev_page(&pos(0, 0)), PageTurn::Stay);
}

#[test]
fn reading_time_is_recorded_per_day() {
    let day = 20000u64;
    let now = day * 86400 + 100;
    let mut start = Some(now - 60);
    let mut stats: Option<ReadingStats> = None;
    assert!(flush_reading_stats(&mut start, &mut stats, true, now));
    assert!(start.is_none());
    let s = stats.clone().unwrap();
    assert_eq!(s.total_seconds, 60);
    assert_eq!(s.sessions.len(), 1);
    assert_eq!(s.sessions[0].date, "20000");
    assert_eq!(s.sessions[0].seconds, 60);

    let mut start = Some(now);
    assert!(flush_reading_stats(&mut start, &mut stats, true, now + 40));
    let s = stats.clone().unwrap();
    assert_eq!(s.total_seconds, 100);
    assert_eq!(s.sessions.len(), 1);
    assert_eq!(s.sessions[0].seconds, 100);

    let mut start = Some(now + 86400);
    assert!(flush_reading_stats(&mut start, &mut stats, true, now + 86400 + 30));
    let s = stats.unwrap();
    assert_eq!(s.sessions.len(), 2);
    assert_eq!(s.sessions[1].date, "20001");
    assert_eq!(s.total_seconds, s.sessions.iter().map(|x| x.seconds).sum::<u64>());
}

#[test]
fn short_or_unsaved_sessions_record_nothing() {
    let mut stats = Some(ReadingStats {
        total_seconds: 7,
        sessions: vec![ReadingSession { date: "1".to_string(), seconds: 7 }],
    });
    let mut start = Some(1000);
    assert!(!flush_reading_stats(&mut start, &mut stats, true, 1004));
    assert!(start.is_none());
    assert_eq!(stats.as_ref().unwrap().total_seconds, 7);
    let mut start = Some(1000);
    assert!(!flush_reading_stats(&mut start, &mut stats, false, 2000));
    assert_eq!(stats.as_ref().unwrap().total_seconds, 7);
    let mut none = None;
    assert!(!flush_reading_stats(&mut none, &mut stats, true, 2000));
    let mut later = Some(3000);
    assert!(!flush_reading_stats(&mut later, &mut stats, true, 2000));
}

#[test]
fn feedback_log_keeps_the_newest_six_hundred() {
    let mut log = FeedbackLog::new();
    log.push_feedback_log(1700000000, "[GitHub] start");
    assert_eq!(log.lines, vec!["[1700000000] [GitHub] start".to_string()]);
    for i in 0..700u64 {
        log.push_feedback_log(i, "m");
    }
    assert_eq!(log.lines.len(), 600);
    assert_eq!(log.lines[0], "[100] m");
    assert_eq!(log.lines[599], "[699] m");
}

#[test]
fn feedback_report_lists_facts_books_and_events() {
    let info = ReportInfo {
        generated_ts: 42,
        app_version: "1.2.3".to_string(),
        data_dir: "/data".to_string(),
        sharing_server_running: true,
        sharing_server_addr: "0.0.0.0:1".to_string(),
        language: "zh".to_string(),
    };
    let books: Vec<RecentBook> = (0..31)
        .map(|i| RecentBook { title: format!("T{i}"), path: format!("/b/{i}"), last_chapter: i, last_opened: 1000 + i as u64 })
        .collect();
    let logs = vec!["[1] a".to_string(), "[2] b".to_string()];
    let r = feedback_report(&info, &books, &logs);
    let lines: Vec<&str> = r.split('\n').collect();
    assert_eq!(lines[0], "RustEpubReader Desktop Feedback Log");
    assert_eq!(lines[1], "generated_unix_ts=42");
    assert_eq!(lines[2], "app_version=1.2.3");
    assert_eq!(lines[3], "data_dir=/data");
    assert_eq!(lines[4], "books_count=31");
    assert_eq!(lines[5], "sharing_server_running=true");
    assert_eq!(lines[6], "sharing_server_addr=0.0.0.0:1");
    assert_eq!(lines[7], "language=zh");
    assert_eq!(lines[8], "---");
    assert_eq!(lines[9], "Recent Books:");
    assert_eq!(lines[10], "- T0 | /b/0 | chapter=0 | last_opened=1000");
    assert_eq!(lines[39], "- T29 | /b/29 | chapter=29 | last_opened=1029");
    assert_eq!(lines[40], "---");
    assert_eq!(lines[41], "Event Logs:");
    assert_eq!(lines[42], "[1] a");
    assert_eq!(lines[43], "[2] b");
    assert_eq!(lines[44], "");
    assert_eq!(lines.len(), 45);
}

#[test]
fn turning_forward_then_back_returns() {
    let p = pos(3, 6);
    assert_eq!(next_page(&p, 10), PageTurn::AnimateTo(7));
    assert_eq!(prev_page(&pos(3, 7)), PageTurn::AnimateTo(6));
}
