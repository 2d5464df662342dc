use git_time_machine::reflog::{parse_reflog, parse_reflog_line};
use git_time_machine::display::{decimal_string, hash_is_displayable, short_hash, Footer};
use git_time_machine::highlight::{highlight_ranges, highlight_segments, Segment};
use git_time_machine::lines::{classify_diff_line, count_lines, split_lines, DiffLineKind};
use git_time_machine::text::{chars_of, contains_chars, is_whitespace, split_whitespace};
use git_time_machine::timeline::{App, Entry};
use git_time_machine::keys::{KeyCode, KeyInput};

fn seg(start: usize, end: usize, highlighted: bool) -> Segment {
    Segment { start, end, highlighted }
}

#[test]
fn whitespace_is_unicode_white_space() {
    for c in [' ', '\t', '\n', '\r', '\u{0b}', '\u{0c}', '\u{85}', '\u{a0}', '\u{2000}', '\u{3000}'] {
        assert!(is_whitespace(c));
        assert!(c.is_whitespace());
    }
    for c in ['a', '_', '\u{200b}', '\u{180e}'] {
        assert!(!is_whitespace(c));
        assert_eq!(is_whitespace(c), c.is_whitespace());
    }
}

#[test]
fn split_whitespace_matches_std() {
    for s in ["", "   ", "a", " fix  login\tbug ", "x\u{3000}y"] {
        let ours: Vec<String> = split_whitespace(&chars_of(s))
            .iter()
            .map(|w| w.iter().collect())
            .collect();
        let std: Vec<String> = s.split_whitespace().map(|w| w.to_string()).collect();
        assert_eq!(ours, std);
    }
}

#[test]
fn contains_finds_substrings() {
    let h = chars_of("fix login bug");
    assert!(contains_chars(&h, &chars_of("login")));
    assert!(contains_chars(&h, &chars_of("")));
    assert!(!contains_chars(&h, &chars_of("logout")));
    assert!(contains_chars(&h, &chars_of("n bug")));
}

#[test]
fn filter_lowercases_non_ascii_letters() {
    let mut app = App::new(vec![entry("abcdef0123", "commit: Ärger"), entry("abcdef0124", "commit: b")], false);
    app.handle_key(ch('/'));
    app.handle_key(ch('ä'));
    assert_eq!(app.filtered_entries(), &vec![0]);
    assert_eq!(highlight_segments("ÄRGER", "ä"), vec![seg(0, 2, true), seg(2, 6, false)]);
}

#[test]
fn highlight_marks_every_word() {
    let segs = highlight_segments("Fix login Bug", "bug FIX");
    assert_eq!(segs, vec![seg(0, 3, true), seg(3, 10, false), seg(10, 13, true)]);
}

#[test]
fn highlight_merges_touching_and_overlapping_matches() {
    assert_eq!(highlight_segments("abcd", "ab bc cd"), vec![seg(0, 4, true)]);
    assert_eq!(highlight_segments("abxcd", "ab cd"), vec![seg(0, 2, true), seg(2, 3, false), seg(3, 5, true)]);
}

#[test]
fn highlight_takes_leftmost_non_overlapping_matches() {
    assert_eq!(highlight_segments("aaa", "aa"), vec![seg(0, 2, true), seg(2, 3, false)]);
    assert_eq!(highlight_segments("aaaa", "aa"), vec![seg(0, 4, true)]);
}

#[test]
fn highlight_without_match_is_plain() {
    assert_eq!(highlight_segments("commit", "zz"), vec![seg(0, 6, false)]);
    assert_eq!(highlight_segments("commit", "   "), vec![seg(0, 6, false)]);
    assert_eq!(highlight_segments("", "x"), Vec::<Segment>::new());
}

#[test]
fn highlight_ranges_reach_past_the_message_when_matches_do() {
    let tokens = vec![b"cd".to_vec()];
    assert_eq!(highlight_ranges(3, b"abcd", &tokens), vec![seg(0, 2, false), seg(2, 4, true)]);
    assert_eq!(highlight_ranges(6, b"abcd", &tokens), vec![seg(0, 2, false), seg(2, 4, true), seg(4, 6, false)]);
}

#[test]
fn lines_follow_str_lines() {
    for s in ["", "a", "a\n", "a\r\nb\n", "a\r", "\n\n", "x\ny\r\nz", "a\r\r\n"] {
        let ours = split_lines(s);
        let std: Vec<String> = s.lines().map(|l| l.to_string()).collect();
        assert_eq!(ours, std);
        assert_eq!(count_lines(s), s.lines().count());
    }
}

#[test]
fn diff_lines_are_classified() {
    assert_eq!(classify_diff_line("+added"), DiffLineKind::Added);
    assert_eq!(classify_diff_line("+++ b/file"), DiffLineKind::Plain);
    assert_eq!(classify_diff_line("-removed"), DiffLineKind::Removed);
    assert_eq!(classify_diff_line("--- a/file"), DiffLineKind::Plain);
    assert_eq!(classify_diff_line("@@ -1,2 +1,2 @@"), DiffLineKind::Hunk);
    assert_eq!(classify_diff_line("diff --git a/x b/x"), DiffLineKind::FileHeader);
    assert_eq!(classify_diff_line("index 123..456"), DiffLineKind::FileHeader);
    assert_eq!(classify_diff_line("diffx"), DiffLineKind::Plain);
    assert_eq!(classify_diff_line(""), DiffLineKind::Plain);
}

#[test]
fn decimal_strings() {
    assert_eq!(decimal_string(0), "0");
    assert_eq!(decimal_string(7), "7");
    assert_eq!(decimal_string(1234), "1234");
    assert_eq!(decimal_string(usize::MAX), usize::MAX.to_string());
}

#[test]
fn short_hashes() {
    assert_eq!(short_hash("0123456789abcdef"), "0123456");
    assert_eq!(short_hash("abcdefg"), "abcdefg");
    assert!(hash_is_displayable("abcdefg"));
    assert!(!hash_is_displayable("abc"));
    assert!(!hash_is_displayable("abcdefé"));
}

fn entry(hash: &str, message: &str) -> Entry {
    Entry { hash: hash.to_string(), message: message.to_string(), relative_time: "now".to_string(), timestamp: 0 }
}

fn ch(c: char) -> KeyInput {
    KeyInput { code: KeyCode::Char(c), shift: false, press: true }
}

#[test]
fn footer_previews_the_restore_target() {
    let app = App::new(vec![entry("1234567890", "commit: one")], false);
    match app.footer() {
        Footer::Preview(t) => assert_eq!(t, "📍 Will restore to: 1234567 - commit: one | / to search | Space for diff"),
        _ => panic!("expected a preview"),
    }
    let empty = App::new(vec![], false);
    match empty.footer() {
        Footer::Preview(t) => assert_eq!(t, "No entries found"),
        _ => panic!("expected a preview"),
    }
}

#[test]
fn footer_asks_for_confirmation() {
    let mut app = App::new(vec![entry("abcdef0123", "commit: one")], true);
    app.handle_key(KeyInput { code: KeyCode::Enter, shift: false, press: true });
    match app.footer() {
        Footer::Confirm(t) => assert_eq!(
            t,
            "⚠️  CONFIRM: Reset to abcdef0 - commit: one? This will discard uncommitted changes! [y/N]"
        ),
        _ => panic!("expected a confirmation"),
    }
    let mut clean = App::new(vec![entry("abcdef0123", "commit: one")], false);
    clean.show_confirmation_dialog();
    match clean.footer() {
        Footer::Confirm(t) => assert_eq!(t, "⚠️  CONFIRM: Reset to abcdef0 - commit: one? [y/N]"),
        _ => panic!("expected a confirmation"),
    }
    let mut none = App::new(vec![], false);
    none.show_confirmation_dialog();
    match none.footer() {
        Footer::Confirm(t) => assert_eq!(t, "No entry selected"),
        _ => panic!("expected a confirmation"),
    }
}

#[test]
fn footer_counts_matches() {
    let mut app = App::new(vec![entry("abcdef0123", "commit: one"), entry("abcdef0124", "commit: two")], false);
    app.handle_key(ch('/'));
    app.handle_key(ch('o'));
    match app.footer() {
        Footer::Search { query, matches } => {
            assert_eq!(query, "o");
            assert_eq!(matches, "(2 matches)");
        }
        _ => panic!("expected a search"),
    }
    app.handle_key(ch('n'));
    app.handle_key(KeyInput { code: KeyCode::Enter, shift: false, press: true });
    match app.footer() {
        Footer::Filtered(t) => assert_eq!(t, "🔍 Filtered: on (1 matches) | / to edit | Esc to clear"),
        _ => panic!("expected a filter"),
    }
}

#[test]
fn highlight_ranges_follow_the_lower_case_bytes() {
    // "İ" lower-cases to "i̇", one byte longer than the message.
    let segs = highlight_segments("İ", "i");
    assert_eq!(segs, vec![seg(0, 1, true), seg(1, 2, false)]);
}

#[test]
fn reflog_listing_is_read_line_by_line() {
    let text = "abcdef0123\u{1f}1700000000\u{1f}2 hours ago\u{1f}commit: a\u{1f}b\n\
                broken line\n\
                1234567890\u{1f}12x\u{1f}now\u{1f}commit: bad time\n\
                fedcba9876\u{1f}99999999999999999999\u{1f}now\u{1f}too big\n\
                0000000000\u{1f}0\u{1f}3 days ago\u{1f}\r\n";
    let entries = parse_reflog(text);
    assert_eq!(entries.len(), 2);
    assert_eq!(entries[0].hash, "abcdef0123");
    assert_eq!(entries[0].timestamp, 1_700_000_000);
    assert_eq!(entries[0].relative_time, "2 hours ago");
    assert_eq!(entries[0].message, "commit: a\u{1f}b");
    assert_eq!(entries[1].hash, "0000000000");
    assert_eq!(entries[1].timestamp, 0);
    assert_eq!(entries[1].message, "");
    assert!(parse_reflog_line("a\u{1f}1\u{1f}b").is_none());
    assert!(parse_reflog_line("a\u{1f}\u{1f}b\u{1f}c").is_none());
    let e = parse_reflog_line("h\u{1f}9223372036854775807\u{1f}r\u{1f}m").expect("fits");
    assert_eq!(e.timestamp, i64::MAX);
    assert!(parse_reflog_line("h\u{1f}9223372036854775808\u{1f}r\u{1f}m").is_none());
    assert!(parse_reflog("").is_empty());
}
