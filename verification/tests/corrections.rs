use rust_epub_reader::csc::{
    count_resolved, csc_check_contribution_prompt, csc_collect_samples, csc_format_jsonl, csc_trigger_chapter,
    utf8_len_of, BookCorrections, ContributePrompt, CorrectionRecord, CscSample,
};
use rust_epub_reader::tts::ContentBlock;

fn rec(chapter: usize, block: usize, off: usize, orig: &str, corr: &str, status: &str) -> CorrectionRecord {
    CorrectionRecord {
        chapter,
        block_idx: block,
        char_offset: off,
        original: orig.to_string(),
        corrected: corr.to_string(),
        status: status.to_string(),
    }
}

fn book() -> Vec<Vec<ContentBlock>> {
    vec![vec![
        ContentBlock::Paragraph { text: "abcdefghijklmnopqrstuvwxyz".to_string() },
        ContentBlock::Separator,
        ContentBlock::Heading { text: "今天天气很好".to_string() },
    ]]
}

fn fresh_prompt() -> ContributePrompt {
    ContributePrompt { prompted: false, dismissed: false, show_dialog: false }
}

fn resolved(n: usize) -> Vec<CorrectionRecord> {
    (0..n).map(|i| rec(0, 0, i, "x", "y", if i % 2 == 0 { "accepted" } else { "rejected" })).collect()
}

#[test]
fn resolved_corrections_are_counted() {
    let mut v = resolved(4);
    v.push(rec(0, 0, 0, "a", "b", "pending"));
    assert_eq!(count_resolved(&v), 4);
}

#[test]
fn first_prompt_at_thirty_resolved() {
    let mut p = fresh_prompt();
    let mut cfg = BookCorrections { corrections: resolved(29), last_contribute_prompt_count: 0 };
    assert!(!csc_check_contribution_prompt(&mut p, &mut cfg));
    assert!(!p.show_dialog);
    cfg.corrections = resolved(30);
    assert!(csc_check_contribution_prompt(&mut p, &mut cfg));
    assert!(p.prompted && p.show_dialog);
    assert_eq!(cfg.last_contribute_prompt_count, 30);
    // Not twice in one session.
    cfg.corrections = resolved(200);
    assert!(!csc_check_contribution_prompt(&mut p, &mut cfg));
}

#[test]
fn later_prompts_need_fifty_more() {
    let mut p = fresh_prompt();
    let mut cfg = BookCorrections { corrections: resolved(79), last_contribute_prompt_count: 30 };
    assert!(!csc_check_contribution_prompt(&mut p, &mut cfg));
    cfg.corrections = resolved(80);
    assert!(csc_check_contribution_prompt(&mut p, &mut cfg));
    assert_eq!(cfg.last_contribute_prompt_count, 80);
    let mut dismissed = ContributePrompt { prompted: false, dismissed: true, show_dialog: false };
    let mut cfg = BookCorrections { corrections: resolved(100), last_contribute_prompt_count: 0 };
    assert!(!csc_check_contribution_prompt(&mut dismissed, &mut cfg));
    assert_eq!(cfg.last_contribute_prompt_count, 0);
}

#[test]
fn samples_keep_ten_characters_of_context() {
    let recs = vec![
        rec(0, 0, 12, "M", "m", "accepted"),
        rec(0, 0, 2, "X", "c", "accepted"),
    ];
    let s = csc_collect_samples(&recs, &book());
    assert_eq!(s.len(), 2);
    assert_eq!(s[0].input, "cdefghijklMnopqrstuvw");
    assert_eq!(s[0].output, "cdefghijklmnopqrstuvw");
    assert_eq!(s[1].input, "abXdefghijklm");
    assert_eq!(s[1].output, "abcdefghijklm");
}

#[test]
fn unusable_corrections_give_no_sample() {
    let recs = vec![
        rec(0, 0, 3, "D", "d", "rejected"),
        rec(0, 0, 3, "d", "d", "accepted"),
        rec(0, 0, 3, "é", "d", "accepted"),
        rec(0, 0, 26, "a", "b", "accepted"),
        rec(0, 1, 0, "a", "b", "accepted"),
        rec(1, 0, 0, "a", "b", "accepted"),
        rec(0, 0, 3, "", "", "accepted"),
    ];
    assert!(csc_collect_samples(&recs, &book()).is_empty());
}

#[test]
fn cjk_samples_compare_utf8_lengths() {
    let recs = vec![rec(0, 2, 3, "汽", "气", "accepted"), rec(0, 2, 3, "q", "气", "accepted")];
    let s = csc_collect_samples(&recs, &book());
    assert_eq!(s.len(), 1);
    assert_eq!(s[0].input, "今天天汽很好");
    assert_eq!(s[0].output, "今天天气很好");
    assert_eq!(utf8_len_of(&['a', 'é', '气', '😀']), 1 + 2 + 3 + 4);
}

#[test]
fn samples_are_written_as_json_lines() {
    let samples = vec![
        CscSample { input: "a\"b".to_string(), output: "c\n".to_string() },
        CscSample { input: "汽".to_string(), output: "气".to_string() },
    ];
    assert_eq!(
        csc_format_jsonl(&samples),
        "{\"input\":\"a\\\"b\",\"output\":\"c\\n\"}\n{\"input\":\"汽\",\"output\":\"气\"}\n"
    );
    assert_eq!(csc_format_jsonl(&samples).lines().count(), samples.len());
    assert_eq!(csc_format_jsonl(&[]), "");
}

#[test]
fn each_sample_changes_one_character() {
    let recs = vec![
        rec(0, 0, 12, "M", "m", "accepted"),
        rec(0, 0, 3, "D", "d", "rejected"),
        rec(0, 0, 2, "X", "c", "accepted"),
        rec(0, 0, 3, "d", "d", "accepted"),
    ];
    let accepted = recs.iter().filter(|r| r.status == "accepted").count();
    let s = csc_collect_samples(&recs, &book());
    assert!(s.len() <= accepted);
    for sample in &s {
        let a: Vec<char> = sample.input.chars().collect();
        let b: Vec<char> = sample.output.chars().collect();
        assert_eq!(a.len(), b.len());
        assert_eq!(a.iter().zip(b.iter()).filter(|(x, y)| x != y).count(), 1);
    }
}

#[test]
fn json_strings_escape_quotes_backslashes_and_controls() {
    let samples = vec![CscSample { input: "a\"\\\u{1}\t\u{7f}".to_string(), output: "é\n\u{8}\u{c}\r".to_string() }];
    assert_eq!(
        csc_format_jsonl(&samples),
        "{\"input\":\"a\\\"\\\\\\u0001\\t\u{7f}\",\"output\":\"é\\n\\b\\f\\r\"}\n"
    );
}

#[test]
fn chapter_work_lists_text_blocks() {
    let mut chapters = book();
    chapters.push(vec![ContentBlock::Paragraph { text: "  ".to_string() }, ContentBlock::BlankLine]);
    let work = csc_trigger_chapter(true, true, &[(1, 0)], &chapters, 0).unwrap();
    assert_eq!(
        work,
        vec![(0, "abcdefghijklmnopqrstuvwxyz".to_string()), (2, "今天天气很好".to_string())]
    );
    assert_eq!(csc_trigger_chapter(false, true, &[], &chapters, 0), None);
    assert_eq!(csc_trigger_chapter(true, false, &[], &chapters, 0), None);
    assert_eq!(csc_trigger_chapter(true, true, &[(0, 5)], &chapters, 0), None);
    assert_eq!(csc_trigger_chapter(true, true, &[], &chapters, 1), None);
    assert_eq!(csc_trigger_chapter(true, true, &[], &chapters, 7), None);
}
