use git_time_machine::keys::{Action, KeyCode, KeyInput};
use git_time_machine::timeline::{App, Entry};

fn entry(n: usize, message: &str) -> Entry {
    Entry {
        hash: format!("{:040x}", n + 0xabcdef0),
        message: message.to_string(),
        relative_time: format!("{} hours ago", n),
        timestamp: 1_700_000_000 - n as i64,
    }
}

fn sample() -> App {
    App::new(
        vec![
            entry(0, "commit: Fix Login bug"),
            entry(1, "checkout: moving from main to feature"),
            entry(2, "commit: fix typo in README"),
            entry(3, "reset: moving to HEAD~1"),
        ],
        false,
    )
}

fn press(code: KeyCode) -> KeyInput {
    KeyInput { code, shift: false, press: true }
}

fn ch(c: char) -> KeyInput {
    press(KeyCode::Char(c))
}

fn type_query(app: &mut App, q: &str) {
    app.handle_key(ch('/'));
    for c in q.chars() {
        app.handle_key(ch(c));
    }
}

#[test]
fn new_selects_first_entry_and_lists_all() {
    let app = sample();
    assert_eq!(app.selected(), Some(0));
    assert_eq!(app.filtered_entries(), &vec![0, 1, 2, 3]);
    assert_eq!(app.selected_entry_idx(), Some(0));
    assert!(!app.show_diff());
    assert!(!app.search_mode());
    assert_eq!(app.diff_visible_height(), 10);
}

#[test]
fn new_without_entries_selects_nothing() {
    let app = App::new(vec![], true);
    assert_eq!(app.selected(), None);
    assert_eq!(app.selected_index(), 0);
    assert_eq!(app.selected_entry_idx(), None);
    assert!(app.has_uncommitted_changes());
}

#[test]
fn filter_is_case_insensitive() {
    let mut app = sample();
    type_query(&mut app, "FIX");
    assert_eq!(app.filtered_entries(), &vec![0, 2]);
    assert_eq!(app.search_query(), "FIX");
}

#[test]
fn filter_needs_every_word() {
    let mut app = sample();
    type_query(&mut app, "fix  bug");
    assert_eq!(app.filtered_entries(), &vec![0]);
    for c in " nothing".chars() {
        app.handle_key(ch(c));
    }
    assert_eq!(app.search_query(), "fix  bug nothing");
    assert_eq!(app.filtered_entries(), &Vec::<usize>::new());
    assert_eq!(app.selected(), None);
}

#[test]
fn filter_clamps_selection_to_last_row() {
    let mut app = sample();
    app.handle_key(press(KeyCode::End));
    assert_eq!(app.selected(), Some(3));
    type_query(&mut app, "moving");
    assert_eq!(app.filtered_entries(), &vec![1, 3]);
    assert_eq!(app.selected(), Some(1));
    assert_eq!(app.selected_entry_idx(), Some(3));
}

#[test]
fn whitespace_query_lists_all_but_is_active() {
    let mut app = sample();
    type_query(&mut app, "   ");
    assert_eq!(app.filtered_entries(), &vec![0, 1, 2, 3]);
    app.handle_key(press(KeyCode::Enter));
    assert!(!app.search_mode());
    assert!(app.search_active());
    assert!(!app.highlight_query());
}

#[test]
fn enter_applies_and_esc_clears_filter() {
    let mut app = sample();
    type_query(&mut app, "typo");
    app.handle_key(press(KeyCode::Enter));
    assert!(app.search_active());
    assert!(app.highlight_query());
    assert_eq!(app.filtered_entries(), &vec![2]);
    let a = app.handle_key(press(KeyCode::Esc));
    assert!(matches!(a, Action::Continue | Action::Load(_)));
    assert!(!app.search_active());
    assert_eq!(app.search_query(), "");
    assert_eq!(app.filtered_entries(), &vec![0, 1, 2, 3]);
    assert_eq!(app.selected(), Some(0));
}

#[test]
fn empty_enter_does_not_activate_search() {
    let mut app = sample();
    app.handle_key(ch('/'));
    app.handle_key(press(KeyCode::Enter));
    assert!(!app.search_active());
    assert!(!app.search_mode());
}

#[test]
fn esc_while_typing_cancels_search() {
    let mut app = sample();
    type_query(&mut app, "typo");
    app.handle_key(press(KeyCode::Down));
    assert_eq!(app.selected(), Some(0));
    app.handle_key(press(KeyCode::Esc));
    assert!(!app.search_mode());
    assert_eq!(app.search_query(), "");
    assert_eq!(app.filtered_entries().len(), 4);
    assert_eq!(app.selected(), Some(0));
}

#[test]
fn type_then_backspace_restores_list() {
    let mut app = sample();
    type_query(&mut app, "fix");
    assert_eq!(app.filtered_entries(), &vec![0, 2]);
    app.handle_key(ch('z'));
    assert_eq!(app.filtered_entries(), &Vec::<usize>::new());
    app.handle_key(press(KeyCode::Backspace));
    assert_eq!(app.search_query(), "fix");
    assert_eq!(app.filtered_entries(), &vec![0, 2]);
    app.handle_key(press(KeyCode::Backspace));
    app.handle_key(press(KeyCode::Backspace));
    app.handle_key(press(KeyCode::Backspace));
    app.handle_key(press(KeyCode::Backspace));
    assert_eq!(app.search_query(), "");
    assert_eq!(app.filtered_entries().len(), 4);
}

#[test]
fn navigation_clamps_at_both_ends() {
    let mut app = sample();
    app.handle_key(press(KeyCode::Up));
    assert_eq!(app.selected(), Some(0));
    app.handle_key(ch('j'));
    app.handle_key(press(KeyCode::Down));
    assert_eq!(app.selected(), Some(2));
    app.handle_key(ch('k'));
    assert_eq!(app.selected(), Some(1));
    app.handle_key(press(KeyCode::Down));
    app.handle_key(press(KeyCode::Down));
    app.handle_key(press(KeyCode::Down));
    assert_eq!(app.selected(), Some(3));
    app.handle_key(press(KeyCode::Home));
    assert_eq!(app.selected(), Some(0));
}

#[test]
fn pages_move_ten_rows_within_bounds() {
    let entries: Vec<Entry> = (0..25).map(|i| entry(i, "commit: x")).collect();
    let mut app = App::new(entries, false);
    app.handle_key(press(KeyCode::PageDown));
    assert_eq!(app.selected(), Some(10));
    app.handle_key(press(KeyCode::PageDown));
    assert_eq!(app.selected(), Some(20));
    app.handle_key(press(KeyCode::PageDown));
    assert_eq!(app.selected(), Some(24));
    app.handle_key(press(KeyCode::PageUp));
    assert_eq!(app.selected(), Some(14));
    app.handle_key(press(KeyCode::PageUp));
    app.handle_key(press(KeyCode::PageUp));
    assert_eq!(app.selected(), Some(0));
    app.handle_key(press(KeyCode::End));
    assert_eq!(app.selected(), Some(24));
}

#[test]
fn next_and_previous_report_diff_loads() {
    let mut app = sample();
    app.toggle_diff();
    let load = app.next().expect("an entry is selected");
    assert_eq!(load.hash, format!("{:040x}", 1 + 0xabcdef0));
    assert!(load.stat && !load.full);
    let load = app.previous().expect("an entry is selected");
    assert_eq!(load.hash, format!("{:040x}", 0xabcdef0));
}

#[test]
fn releases_are_ignored() {
    let mut app = sample();
    let a = app.handle_key(KeyInput { code: KeyCode::Down, shift: false, press: false });
    assert!(matches!(a, Action::Continue));
    assert_eq!(app.selected(), Some(0));
}

#[test]
fn q_quits_and_esc_quits_without_filter() {
    let mut app = sample();
    assert!(matches!(app.handle_key(ch('q')), Action::Quit));
    assert!(matches!(app.handle_key(press(KeyCode::Esc)), Action::Quit));
}

#[test]
fn confirmation_dialog_flow() {
    let mut app = sample();
    app.handle_key(press(KeyCode::Down));
    app.handle_key(press(KeyCode::Enter));
    assert!(app.show_confirmation());
    app.handle_key(ch('n'));
    assert!(!app.show_confirmation());
    app.handle_key(press(KeyCode::Enter));
    app.handle_key(ch('x'));
    assert!(app.show_confirmation());
    app.handle_key(press(KeyCode::Esc));
    assert!(!app.show_confirmation());
    app.handle_key(press(KeyCode::Enter));
    match app.handle_key(ch('Y')) {
        Action::Restore(e) => {
            assert_eq!(e.message, "checkout: moving from main to feature");
            assert_eq!(e.hash, format!("{:040x}", 1 + 0xabcdef0));
        }
        other => panic!("expected a restore, got {:?}", other),
    }
}

#[test]
fn enter_without_selection_opens_no_dialog() {
    let mut app = sample();
    type_query(&mut app, "nothing");
    app.handle_key(press(KeyCode::Enter));
    app.handle_key(press(KeyCode::Enter));
    assert!(!app.show_confirmation());
}

#[test]
fn restore_selected_is_the_selected_entry() {
    let mut app = sample();
    app.handle_key(press(KeyCode::End));
    let e = app.restore_selected().expect("selected");
    assert_eq!(e.message, "reset: moving to HEAD~1");
    assert!(App::new(vec![], false).restore_selected().is_none());
}

#[test]
fn toggle_diff_asks_for_summary() {
    let mut app = sample();
    match app.handle_key(ch(' ')) {
        Action::Load(l) => {
            assert_eq!(l.hash, format!("{:040x}", 0xabcdef0));
            assert!(l.stat);
            assert!(!l.full);
        }
        other => panic!("expected a load, got {:?}", other),
    }
    assert!(app.show_diff());
    assert_eq!(app.diff_pane_text(), "Loading diff...");
    app.store_diff_stat(" a.rs | 2 +-".to_string());
    app.finish_diff_load();
    assert_eq!(app.diff_pane_text(), " a.rs | 2 +-");
    assert!(matches!(app.handle_key(ch(' ')), Action::Continue));
    assert!(!app.show_diff());
}

#[test]
fn diff_mode_switches_only_with_pane_open() {
    let mut app = sample();
    assert!(app.toggle_diff_mode().is_none());
    assert!(!app.show_full_diff());
    app.toggle_diff();
    let l = app.toggle_diff_mode().expect("full diff requested");
    assert!(l.full && !l.stat);
    assert!(app.show_full_diff());
    assert!(app.toggle_diff_mode().is_none());
    assert!(!app.show_full_diff());
}

#[test]
fn moving_with_pane_open_reloads_both_texts() {
    let mut app = sample();
    app.toggle_diff();
    app.toggle_diff_mode();
    match app.handle_key(ch('j')) {
        Action::Load(l) => {
            assert!(l.stat && l.full);
            assert_eq!(l.hash, format!("{:040x}", 1 + 0xabcdef0));
        }
        other => panic!("expected a load, got {:?}", other),
    }
}

#[test]
fn scrolling_stays_within_the_text() {
    let mut app = sample();
    app.toggle_diff();
    let text: String = (0..15).map(|i| format!("line {}\n", i)).collect();
    app.store_diff_stat(text);
    app.finish_diff_load();
    for _ in 0..20 {
        app.handle_key(ch('J'));
    }
    assert_eq!(app.diff_scroll_offset(), 5);
    app.handle_key(KeyInput { code: KeyCode::Up, shift: true, press: true });
    assert_eq!(app.diff_scroll_offset(), 4);
    app.handle_key(KeyInput { code: KeyCode::Down, shift: true, press: true });
    assert_eq!(app.diff_scroll_offset(), 5);
    for _ in 0..10 {
        app.handle_key(ch('K'));
    }
    assert_eq!(app.diff_scroll_offset(), 0);
    app.set_diff_visible_height(12);
    assert_eq!(app.diff_visible_height(), 10);
    app.set_diff_visible_height(1);
    assert_eq!(app.diff_visible_height(), 0);
}

#[test]
fn scroll_keys_need_the_pane() {
    let mut app = sample();
    app.store_diff_stat("a\nb\nc\n".repeat(10));
    app.handle_key(ch('J'));
    assert_eq!(app.diff_scroll_offset(), 0);
    assert!(!app.scrolls_down(ch('J')));
    app.toggle_diff();
    assert!(app.scrolls_down(ch('J')));
    assert!(!app.scrolls_down(ch('j')));
}

#[test]
fn absolute_time_toggles() {
    let mut app = sample();
    app.handle_key(ch('t'));
    assert!(app.show_absolute_time());
    app.handle_key(ch('t'));
    assert!(!app.show_absolute_time());
}

#[test]
fn scroll_resets_only_after_texts_are_stored() {
    let mut app = sample();
    app.toggle_diff();
    app.store_diff_stat("x\n".repeat(30));
    app.finish_diff_load();
    app.handle_key(ch('J'));
    app.handle_key(ch('J'));
    assert_eq!(app.diff_scroll_offset(), 2);
    // Moving asks for the next summary; until it is stored nothing changes.
    assert!(matches!(app.handle_key(ch('j')), Action::Load(_)));
    assert_eq!(app.selected(), Some(1));
    assert_eq!(app.diff_scroll_offset(), 2);
    assert_eq!(app.diff_pane_text(), "x\n".repeat(30));
    app.store_diff_stat("y\n".to_string());
    assert_eq!(app.diff_scroll_offset(), 2);
    app.finish_diff_load();
    assert_eq!(app.diff_scroll_offset(), 0);
    assert_eq!(app.diff_pane_text(), "y\n");
}

#[test]
fn moving_with_nothing_to_load_resets_scroll_at_once() {
    let mut app = sample();
    app.toggle_diff();
    app.store_diff_stat("x\n".repeat(30));
    app.finish_diff_load();
    app.handle_key(ch('J'));
    app.toggle_diff();
    assert_eq!(app.diff_scroll_offset(), 0);
    assert!(app.next().is_none());
    assert_eq!(app.selected(), Some(1));
}

#[test]
fn full_diff_is_asked_for_while_the_pane_is_closed() {
    let mut app = sample();
    app.toggle_diff();
    app.toggle_diff_mode();
    app.toggle_diff();
    assert!(!app.show_diff() && app.show_full_diff());
    let l = app.next().expect("full diff asked for");
    assert!(l.full && !l.stat);
}

#[test]
fn rows_mark_the_selected_entry() {
    let mut app = sample();
    type_query(&mut app, "moving");
    app.handle_key(press(KeyCode::Enter));
    app.handle_key(press(KeyCode::Down));
    let rows = app.rows();
    assert_eq!(rows.len(), 2);
    assert_eq!((rows[0].entry, rows[0].selected), (1, false));
    assert_eq!((rows[1].entry, rows[1].selected), (3, true));
}

#[test]
fn word_order_and_case_do_not_change_the_list() {
    let mut a = sample();
    type_query(&mut a, "bug FIX");
    let mut b = sample();
    type_query(&mut b, " fix  Bug fix");
    assert_eq!(a.filtered_entries(), b.filtered_entries());
    assert_eq!(a.filtered_entries(), &vec![0]);
}

#[test]
fn another_word_only_narrows() {
    let mut app = sample();
    type_query(&mut app, "moving");
    assert_eq!(app.filtered_entries(), &vec![1, 3]);
    for c in " main".chars() {
        app.handle_key(ch(c));
    }
    assert_eq!(app.search_query(), "moving main");
    assert_eq!(app.filtered_entries(), &vec![1]);
}

#[test]
fn dialog_ignores_other_keys() {
    let mut app = sample();
    app.handle_key(press(KeyCode::Enter));
    for k in [ch('q'), ch('/'), ch('j'), press(KeyCode::Down), press(KeyCode::Enter), ch(' ')] {
        assert!(matches!(app.handle_key(k), Action::Continue));
        assert!(app.show_confirmation());
        assert!(!app.search_mode());
        assert_eq!(app.selected(), Some(0));
        assert!(!app.show_diff());
    }
}
