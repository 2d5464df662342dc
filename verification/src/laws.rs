//! Properties of the viewer that hold across its operations.
use vstd::prelude::*;
use crate::filter::{entry_matches, increasing_below, lemma_matching_same, lemma_matching_upto};
use crate::highlight::{covered, query_token_bytes};
use crate::keys::{
    ActionView, KeyCode, KeyInput, char_step, down_step, normal_step, search_step, step, up_step,
};
use crate::display::{FooterView, decimal, footer_of, short_hash_of};
use crate::lines::line_count;
use crate::text::{ascii_lower, contains_seq, lower_form, words};
use crate::timeline::{
    AppView, EntryView, all_positions, initial_state, filter_for, lemma_all_match_upto, lemma_all_positions, lemma_empty_query_keeps_all, lowered_messages,
    query_tokens,
};

verus! {

/// The search is case-insensitive and multi-word AND: an entry is listed
/// exactly when every word of the lower-cased query occurs in its lower-cased
/// message.
pub proof fn law_filter_keeps_matching_entries(entries: Seq<EntryView>, query: Seq<char>, i: int)
    requires
        entries.len() <= usize::MAX,
        0 <= i < entries.len(),
    ensures
        filter_for(entries, query).contains(i as usize) <==> forall|k: int|
            0 <= k < words(lower_form(query)).len() ==> #[trigger] contains_seq(
                lower_form(entries[i].message),
                words(lower_form(query))[k],
            ),
{
    lemma_matching_upto(lowered_messages(entries), query_tokens(query), entries.len() as int);
    assert(lowered_messages(entries)[i] == lower_form(entries[i].message));
}

/// The filtered list keeps the timeline's order and lists each entry once.
pub proof fn law_filter_keeps_order(entries: Seq<EntryView>, query: Seq<char>)
    requires
        entries.len() <= usize::MAX,
    ensures
        increasing_below(filter_for(entries, query), entries.len() as int),
{
    lemma_matching_upto(lowered_messages(entries), query_tokens(query), entries.len() as int);
}

/// The list depends on the query only through its set of words: queries whose
/// lower-cased words are the same up to order, repetition and spacing list
/// the same entries.
pub proof fn law_word_set_decides(entries: Seq<EntryView>, q1: Seq<char>, q2: Seq<char>)
    requires
        forall|k: int|
            0 <= k < query_tokens(q1).len() ==> query_tokens(q2).contains(
                #[trigger] query_tokens(q1)[k],
            ),
        forall|k: int|
            0 <= k < query_tokens(q2).len() ==> query_tokens(q1).contains(
                #[trigger] query_tokens(q2)[k],
            ),
    ensures
        filter_for(entries, q1) == filter_for(entries, q2),
{
    let t1 = query_tokens(q1);
    let t2 = query_tokens(q2);
    let msgs = lowered_messages(entries);
    assert forall|k: int| 0 <= k < entries.len() implies entry_matches(#[trigger] msgs[k], t1)
        == entry_matches(msgs[k], t2) by {
        if entry_matches(msgs[k], t1) {
            assert forall|j: int| 0 <= j < t2.len() implies contains_seq(msgs[k], #[trigger] t2[j]) by {
                let m = choose|m: int| 0 <= m < t1.len() && t1[m] == t2[j];
                assert(contains_seq(msgs[k], t1[m]));
            }
        }
        if entry_matches(msgs[k], t2) {
            assert forall|j: int| 0 <= j < t1.len() implies contains_seq(msgs[k], #[trigger] t1[j]) by {
                let m = choose|m: int| 0 <= m < t2.len() && t2[m] == t1[j];
                assert(contains_seq(msgs[k], t2[m]));
            }
        }
    }
    lemma_matching_same(msgs, t1, t2, entries.len() as int);
}

/// The search ignores case: queries with the same lower-case form list the
/// same entries.
pub proof fn law_case_ignored(entries: Seq<EntryView>, q1: Seq<char>, q2: Seq<char>)
    requires
        lower_form(q1) == lower_form(q2),
    ensures
        filter_for(entries, q1) == filter_for(entries, q2),
{
}

/// For ASCII queries the search ignores the case of letters: two ASCII
/// queries that differ only in the case of letters list the same entries.
pub proof fn law_ascii_case_ignored(entries: Seq<EntryView>, q1: Seq<char>, q2: Seq<char>)
    requires
        vstd::utf8::is_ascii_chars(q1),
        vstd::utf8::is_ascii_chars(q2),
        ascii_lower(q1) == ascii_lower(q2),
    ensures
        filter_for(entries, q1) == filter_for(entries, q2),
{
}

/// Adding a word can only narrow the list: every entry listed for the query
/// `q w` (the words of `q`, a blank, then `w`) is listed for `q`, provided
/// lower-casing `q w` lower-cases `q` and `w` apart (always so for ASCII,
/// see `law_ascii_more_words_narrow`).
pub proof fn law_more_words_narrow(entries: Seq<EntryView>, q: Seq<char>, w: Seq<char>, i: int)
    requires
        entries.len() <= usize::MAX,
        lower_form(q.push(' ') + w) == lower_form(q).push(' ') + lower_form(w),
        0 <= i < entries.len(),
        filter_for(entries, q.push(' ') + w).contains(i as usize),
    ensures
        filter_for(entries, q).contains(i as usize),
{
    let q2 = q.push(' ') + w;
    crate::text::lemma_words_join(lower_form(q), lower_form(w));
    let t1 = query_tokens(q);
    let t2 = query_tokens(q2);
    assert(t2 == t1 + words(lower_form(w)));
    law_filter_keeps_matching_entries(entries, q2, i);
    law_filter_keeps_matching_entries(entries, q, i);
    let m = lower_form(entries[i].message);
    assert forall|k: int| 0 <= k < t1.len() implies contains_seq(m, #[trigger] t1[k]) by {
        assert(t2[k] == t1[k]);
    }
}

/// Lower-casing ASCII texts joined by a blank lower-cases each apart.
pub proof fn lemma_ascii_lower_join(q: Seq<char>, w: Seq<char>)
    requires
        vstd::utf8::is_ascii_chars(q),
        vstd::utf8::is_ascii_chars(w),
    ensures
        vstd::utf8::is_ascii_chars(q.push(' ') + w),
        lower_form(q.push(' ') + w) == lower_form(q).push(' ') + lower_form(w),
{
    let j = q.push(' ') + w;
    assert forall|k: int| 0 <= k < j.len() implies '\0' <= #[trigger] j[k] <= '\u{7f}' by {
        if k < q.len() {
            assert(j[k] == q[k]);
        } else if k > q.len() {
            assert(j[k] == w[k - q.len() - 1]);
        }
    }
    assert(ascii_lower(j) =~= ascii_lower(q).push(' ') + ascii_lower(w));
}

/// For ASCII queries, adding a word can only narrow the list.
pub proof fn law_ascii_more_words_narrow(entries: Seq<EntryView>, q: Seq<char>, w: Seq<char>, i: int)
    requires
        entries.len() <= usize::MAX,
        vstd::utf8::is_ascii_chars(q),
        vstd::utf8::is_ascii_chars(w),
        0 <= i < entries.len(),
        filter_for(entries, q.push(' ') + w).contains(i as usize),
    ensures
        filter_for(entries, q).contains(i as usize),
{
    lemma_ascii_lower_join(q, w);
    law_more_words_narrow(entries, q, w, i);
}

/// A query without words, such as one of blanks, lists every entry.
pub proof fn law_wordless_query_lists_all(entries: Seq<EntryView>, query: Seq<char>)
    requires
        entries.len() <= usize::MAX,
        query_tokens(query).len() == 0,
    ensures
        filter_for(entries, query) == all_positions(entries.len()),
{
    lemma_all_match_upto(lowered_messages(entries), query_tokens(query), entries.len() as int);
}

/// The empty query lists every entry.
pub proof fn law_empty_query_lists_all(entries: Seq<EntryView>)
    requires
        entries.len() <= usize::MAX,
    ensures
        filter_for(entries, Seq::empty()) == all_positions(entries.len()),
{
    lemma_empty_query_keeps_all(entries);
}

/// Key releases change nothing.
pub proof fn law_releases_ignored(s: AppView, k: KeyInput)
    requires
        !k.press,
    ensures
        step(s, k) == (s, ActionView::Continue),
{
}

/// A restore happens only from the open confirmation dialog, on `y` or `Y`,
/// and it restores the selected entry.
pub proof fn law_restore_only_when_confirmed(s: AppView, k: KeyInput)
    requires
        step(s, k).1 is Restore,
    ensures
        k.press,
        !s.search_mode,
        s.show_confirmation,
        k.code == KeyCode::Char('y') || k.code == KeyCode::Char('Y'),
        s.selected_entry() is Some,
        step(s, k).1 == ActionView::Restore(s.entries[s.selected_entry().unwrap() as int]),
        step(s, k).0 == s,
{
}

/// A new viewer is neither typing a search nor asking for confirmation.
pub proof fn law_initial_modes(entries: Seq<EntryView>, has_uncommitted_changes: bool)
    ensures
        initial_state(entries, has_uncommitted_changes).modes_ok(),
        !initial_state(entries, has_uncommitted_changes).show_confirmation,
{
}

/// No key opens the dialog while a search is typed, nor starts a search
/// while the dialog is open.
pub proof fn law_steps_keep_modes(s: AppView, k: KeyInput)
    requires
        s.modes_ok(),
    ensures
        step(s, k).0.modes_ok(),
{
}

/// While the dialog is open, every key but `y`, `Y`, `n`, `N` and Esc is
/// ignored.
pub proof fn law_dialog_ignores_other_keys(s: AppView, k: KeyInput)
    requires
        s.modes_ok(),
        s.show_confirmation,
        k.code != KeyCode::Char('y'),
        k.code != KeyCode::Char('Y'),
        k.code != KeyCode::Char('n'),
        k.code != KeyCode::Char('N'),
        k.code != KeyCode::Esc,
    ensures
        step(s, k) == (s, ActionView::Continue),
{
}

/// The dialog opens only from the timeline, on Enter with an entry selected.
pub proof fn law_dialog_opens_only_on_enter(s: AppView, k: KeyInput)
    requires
        !s.show_confirmation,
        step(s, k).0.show_confirmation,
    ensures
        k.press,
        !s.search_mode,
        k.code == KeyCode::Enter,
        s.selected_entry() is Some,
{
}

/// Enter in the timeline opens the dialog exactly when an entry is selected.
pub proof fn law_enter_opens_dialog(s: AppView)
    requires
        !s.search_mode,
        !s.show_confirmation,
    ensures
        step(s, KeyInput { code: KeyCode::Enter, shift: false, press: true }).0.show_confirmation
            == (s.selected_entry() is Some),
{
}

/// In the timeline, `q` quits and changes nothing.
pub proof fn law_q_quits(s: AppView, shift: bool)
    requires
        !s.search_mode,
        !s.show_confirmation,
    ensures
        step(s, KeyInput { code: KeyCode::Char('q'), shift: shift, press: true }) == (
            s,
            ActionView::Quit,
        ),
{
}

/// Esc with a filter applied clears it and lists every entry instead of quitting.
pub proof fn law_esc_clears_filter(s: AppView)
    requires
        !s.search_mode,
        !s.show_confirmation,
        s.search_active,
    ensures
        !(step(s, KeyInput { code: KeyCode::Esc, shift: false, press: true }).1 is Quit),
        step(s, KeyInput { code: KeyCode::Esc, shift: false, press: true }).0.filtered_entries
            == all_positions(s.entries.len()),
        step(s, KeyInput { code: KeyCode::Esc, shift: false, press: true }).0.search_query
            == Seq::<char>::empty(),
{
}

/// Home and End jump to the first and last row; PageDown and PageUp move
/// ten rows and stop at the ends.
pub proof fn law_jumps(s: AppView)
    requires
        s.wf(),
        0 < s.filtered_entries.len() <= usize::MAX,
        !s.search_mode,
        !s.show_confirmation,
    ensures
        step(s, KeyInput { code: KeyCode::Home, shift: false, press: true }).0.selected == Some(
            0usize,
        ),
        step(s, KeyInput { code: KeyCode::End, shift: false, press: true }).0.selected == Some(
            (s.filtered_entries.len() - 1) as usize,
        ),
        step(s, KeyInput { code: KeyCode::PageDown, shift: false, press: true }).0.selected
            == Some(
            (if s.selected_index() + 10 < s.filtered_entries.len() {
                s.selected_index() + 10
            } else {
                s.filtered_entries.len() - 1
            }) as usize,
        ),
        step(s, KeyInput { code: KeyCode::PageUp, shift: false, press: true }).0.selected == Some(
            (if s.selected_index() >= 10 {
                s.selected_index() - 10
            } else {
                0
            }) as usize,
        ),
{
}

/// Moving down then up comes back to the same row, unless on the last row.
pub proof fn law_next_then_previous(s: AppView)
    requires
        s.wf(),
        s.filtered_entries.len() <= usize::MAX,
        s.selected matches Some(i) && i + 1 < s.filtered_entries.len(),
    ensures
        s.moved_next().moved_previous().selected == s.selected,
{
}

/// Moving up then down comes back to the same row, unless on the first row.
pub proof fn law_previous_then_next(s: AppView)
    requires
        s.wf(),
        s.selected matches Some(i) && i > 0,
    ensures
        s.moved_previous().moved_next().selected == s.selected,
{
}

/// Moving stops at the ends of the list instead of wrapping around.
pub proof fn law_moves_clamp(s: AppView)
    requires
        s.wf(),
        0 < s.filtered_entries.len() <= usize::MAX,
    ensures
        s.selected == Some((s.filtered_entries.len() - 1) as usize) ==> s.moved_next().selected
            == s.selected,
        s.selected == Some(0usize) ==> s.moved_previous().selected == s.selected,
{
}

/// Recomputing the filter keeps the state well formed and consistent.
pub proof fn law_refilter_keeps_shape(s: AppView)
    requires
        s.wf(),
        s.entries.len() <= usize::MAX,
    ensures
        s.refiltered().wf(),
        s.refiltered().consistent(),
{
    lemma_matching_upto(lowered_messages(s.entries), query_tokens(s.search_query), s.entries.len() as int);
}

proof fn lemma_search_step_shape(s: AppView, code: KeyCode)
    requires
        s.wf(),
        s.entries.len() <= usize::MAX,
    ensures
        search_step(s, code).0.wf(),
{
    match code {
        KeyCode::Esc => {
            let t = AppView {
                search_mode: false,
                search_query: Seq::empty(),
                search_active: false,
                ..s
            };
            law_refilter_keeps_shape(t);
        },
        KeyCode::Backspace => {
            let q = if s.search_query.len() > 0 {
                s.search_query.drop_last()
            } else {
                s.search_query
            };
            law_refilter_keeps_shape(AppView { search_query: q, ..s });
        },
        KeyCode::Char(c) => {
            law_refilter_keeps_shape(AppView { search_query: s.search_query.push(c), ..s });
        },
        _ => {},
    }
}

proof fn lemma_char_step_shape(s: AppView, c: char, shift: bool)
    requires
        s.wf(),
    ensures
        char_step(s, c, shift).0.wf(),
{
    if c == 'j' {
        assert(down_step(s, shift).0.wf());
    } else if c == 'k' {
        assert(up_step(s, shift).0.wf());
    }
}

proof fn lemma_normal_step_shape(s: AppView, k: KeyInput)
    requires
        s.wf(),
        s.entries.len() <= usize::MAX,
    ensures
        normal_step(s, k).0.wf(),
{
    match k.code {
        KeyCode::Char(c) => {
            lemma_char_step_shape(s, c, k.shift);
        },
        KeyCode::Esc => {
            if s.search_active {
                if s.entries.len() == 0 && s.filtered_entries.len() > 0 {
                    assert(s.filtered_entries[0] < 0);
                }
                lemma_all_positions(s.entries.len());
                assert(s.cleared().wf());
                assert(s.cleared().refreshed().wf());
            }
        },
        KeyCode::Down => {
            assert(down_step(s, k.shift).0.wf());
        },
        KeyCode::Up => {
            assert(up_step(s, k.shift).0.wf());
        },
        _ => {},
    }
}

/// Every key keeps the state well formed.
pub proof fn law_steps_keep_shape(s: AppView, k: KeyInput)
    requires
        s.wf(),
        s.entries.len() <= usize::MAX,
    ensures
        step(s, k).0.wf(),
{
    if k.press {
        if s.search_mode {
            lemma_search_step_shape(s, k.code);
        } else if s.show_confirmation {
        } else {
            lemma_normal_step_shape(s, k);
        }
    }
}

/// Every key keeps the list equal to what the query selects.
pub proof fn law_steps_keep_filter_consistent(s: AppView, k: KeyInput)
    requires
        s.wf(),
        s.consistent(),
        s.entries.len() <= usize::MAX,
    ensures
        step(s, k).0.consistent(),
{
    lemma_empty_query_keeps_all(s.entries);
}

/// A key that asks for diff texts leaves the texts and the scroll as they
/// were; they change only as the loaded texts are stored, so a load that fails
/// leaves them untouched.
pub proof fn law_load_waits_for_texts(s: AppView, k: KeyInput)
    requires
        step(s, k).1 is Load,
    ensures
        step(s, k).0.diff_scroll_offset == s.diff_scroll_offset,
        step(s, k).0.diff_content == s.diff_content,
        step(s, k).0.full_diff_content == s.full_diff_content,
{
}

/// Every row of the list shows an entry, and exactly one row is marked
/// selected when the list is non-empty.
pub proof fn law_rows(s: AppView)
    requires
        s.wf(),
    ensures
        s.rows().len() == s.filtered_entries.len(),
        forall|i: int| 0 <= i < s.rows().len() ==> #[trigger] s.rows()[i].entry < s.entries.len(),
        s.selected matches Some(k) ==> s.rows()[k as int].selected && forall|i: int|
            0 <= i < s.rows().len() && i != k ==> !#[trigger] s.rows()[i].selected,
{
}

/// Typing a character into the search and deleting it again gives back the
/// query and the list it had.
pub proof fn law_type_then_delete(s: AppView, c: char)
    requires
        s.search_mode,
        s.consistent(),
    ensures
        ({
            let t = step(s, KeyInput { code: KeyCode::Char(c), shift: false, press: true }).0;
            let u = step(t, KeyInput { code: KeyCode::Backspace, shift: false, press: true }).0;
            &&& u.search_query == s.search_query
            &&& u.filtered_entries == s.filtered_entries
            &&& u.search_mode
        }),
{
    assert(s.search_query.push(c).drop_last() =~= s.search_query);
}

/// Opening and closing the diff pane leaves it as it was; opening shows the summary.
pub proof fn law_toggle_diff_twice(s: AppView)
    ensures
        s.toggled_diff().toggled_diff().show_diff == s.show_diff,
        s.toggled_diff().show_diff ==> !s.toggled_diff().show_full_diff,
{
}

/// Switching between summary and full diff does nothing while the pane is closed.
pub proof fn law_diff_mode_needs_pane(s: AppView)
    requires
        !s.show_diff,
    ensures
        s.toggled_diff_mode() == s,
        s.toggle_mode_load() is None,
{
}

/// Scrolling down never passes the last screenful once within it, and
/// scrolling up again comes back.
pub proof fn law_scroll_bounds(s: AppView)
    ensures
        s.diff_scroll_offset <= s.max_scroll() ==> s.scrolled_down().diff_scroll_offset
            <= s.max_scroll(),
        s.diff_scroll_offset < s.max_scroll() ==> s.scrolled_down().scrolled_up().diff_scroll_offset
            == s.diff_scroll_offset,
        s.scrolled_up().diff_scroll_offset <= s.diff_scroll_offset,
{
}

/// A query without words highlights nothing.
pub proof fn law_wordless_query_highlights_nothing(h: Seq<u8>, query: Seq<char>, i: int)
    requires
        query_token_bytes(query).len() == 0,
    ensures
        !covered(h, query_token_bytes(query), i),
{
}

/// The entry on row `r` of the list of `s`.
pub open spec fn row_entry(s: AppView, r: usize) -> EntryView {
    s.entries[s.filtered_entries[r as int] as int]
}

/// After the selection moves, a load names the entry on the selected row:
/// its summary when the pane is open, its full diff when the full view is
/// chosen; with a row selected and either view chosen a load is asked for.
pub proof fn law_move_load_names_selected_row(s: AppView)
    requires
        s.wf(),
    ensures
        s.diff_load() matches Some(l) ==> s.selected matches Some(r) && l.hash == row_entry(s, r).hash
            && l.stat == s.show_diff && l.full == s.show_full_diff,
        s.selected is Some && (s.show_diff || s.show_full_diff) ==> s.diff_load() is Some,
        s.diff_load() is Some ==> s.refreshed() == s,
        s.selected is Some && !(s.show_diff || s.show_full_diff) ==> s.refreshed() == (AppView {
            diff_scroll_offset: 0,
            ..s
        }),
        s.selected is None ==> s.refreshed() == s && s.diff_load() is None,
{
}

/// Opening the pane asks for the summary of the entry on the selected row;
/// the scroll goes back to the top at once only when nothing is asked for.
pub proof fn law_open_pane_loads_selected_row(s: AppView)
    requires
        s.wf(),
    ensures
        s.toggle_diff_load() matches Some(l) ==> s.selected matches Some(r) && l.hash == row_entry(
            s,
            r,
        ).hash && l.stat && !l.full && !s.show_diff,
        !s.show_diff && s.selected is Some ==> s.toggle_diff_load() is Some,
        s.toggled_diff().show_diff == !s.show_diff,
        !s.show_diff ==> !s.toggled_diff().show_full_diff,
        s.show_diff ==> s.toggled_diff().show_full_diff == s.show_full_diff,
        s.toggled_diff().diff_scroll_offset == if !s.show_diff && s.selected is Some {
            s.diff_scroll_offset
        } else {
            0
        },
        s.toggled_diff().selected == s.selected,
        s.toggled_diff().diff_content == s.diff_content,
        s.toggled_diff().full_diff_content == s.full_diff_content,
{
}

/// Switching to the full diff asks for the full diff of the entry on the
/// selected row.
pub proof fn law_full_view_loads_selected_row(s: AppView)
    requires
        s.wf(),
    ensures
        s.toggle_mode_load() matches Some(l) ==> s.selected matches Some(r) && l.hash == row_entry(
            s,
            r,
        ).hash && !l.stat && l.full && s.show_diff && !s.show_full_diff,
        s.show_diff && !s.show_full_diff && s.selected is Some ==> s.toggle_mode_load() is Some,
        s.show_diff ==> s.toggled_diff_mode().show_full_diff == !s.show_full_diff,
        s.show_diff ==> s.toggled_diff_mode().diff_scroll_offset == if !s.show_full_diff
            && s.selected is Some {
            s.diff_scroll_offset
        } else {
            0
        },
{
}

/// The result of a key, with any load it asks for naming the entry on the
/// row selected after the key.
pub open spec fn load_names_selected_row(r: (AppView, ActionView)) -> bool {
    r.1 matches ActionView::Load(l) ==> r.0.selected matches Some(x) && x
        < r.0.filtered_entries.len() && r.0.filtered_entries[x as int] < r.0.entries.len()
        && l.hash == row_entry(r.0, x).hash
}

proof fn lemma_after_selection_load(t: AppView)
    requires
        t.wf(),
    ensures
        load_names_selected_row(crate::keys::after_selection(t)),
{
}

proof fn lemma_search_step_load(s: AppView, code: KeyCode)
    requires
        s.wf(),
        s.entries.len() <= usize::MAX,
    ensures
        load_names_selected_row(search_step(s, code)),
{
    lemma_search_step_shape(s, code);
    match code {
        KeyCode::Esc => {
            let t = AppView {
                search_mode: false,
                search_query: Seq::empty(),
                search_active: false,
                ..s
            };
            law_refilter_keeps_shape(t);
            let u = t.refiltered();
            let u = if u.filtered_entries.len() > 0 {
                AppView { selected: Some(0usize), ..u }
            } else {
                u
            };
            lemma_after_selection_load(u);
        },
        KeyCode::Backspace => {
            let q = if s.search_query.len() > 0 {
                s.search_query.drop_last()
            } else {
                s.search_query
            };
            law_refilter_keeps_shape(AppView { search_query: q, ..s });
            lemma_after_selection_load(AppView { search_query: q, ..s }.refiltered());
        },
        KeyCode::Char(c) => {
            law_refilter_keeps_shape(AppView { search_query: s.search_query.push(c), ..s });
            lemma_after_selection_load(AppView { search_query: s.search_query.push(c), ..s }.refiltered());
        },
        _ => {},
    }
}

proof fn lemma_normal_step_load(s: AppView, k: KeyInput)
    requires
        s.wf(),
        s.entries.len() <= usize::MAX,
    ensures
        load_names_selected_row(normal_step(s, k)),
{
    let n = s.filtered_entries.len();
    match k.code {
        KeyCode::Char(c) => {
            if c == 'j' || c == 'k' || c == 'J' || c == 'K' {
                lemma_after_selection_load(s.moved_next());
                lemma_after_selection_load(s.moved_previous());
            }
        },
        KeyCode::Esc => {
            if s.search_active {
                lemma_normal_step_shape(s, k);
                if s.entries.len() == 0 && s.filtered_entries.len() > 0 {
                    assert(s.filtered_entries[0] < 0);
                }
                lemma_all_positions(s.entries.len());
                lemma_after_selection_load(s.cleared());
            }
        },
        KeyCode::Down => {
            lemma_after_selection_load(s.moved_next());
        },
        KeyCode::Up => {
            lemma_after_selection_load(s.moved_previous());
        },
        KeyCode::Home => {
            if n > 0 {
                lemma_after_selection_load(AppView { selected: Some(0usize), ..s });
            }
        },
        KeyCode::End => {
            if n > 0 {
                lemma_after_selection_load(AppView { selected: Some((n - 1) as usize), ..s });
            }
        },
        KeyCode::PageDown => {
            if n > 0 {
                lemma_after_selection_load(
                    AppView { selected: Some(crate::keys::page_down_row(s)), ..s },
                );
            }
        },
        KeyCode::PageUp => {
            if n > 0 {
                lemma_after_selection_load(AppView { selected: Some(crate::keys::page_up_row(s)), ..s });
            }
        },
        _ => {},
    }
}

/// Every load a key asks for names the entry on the row selected after the key.
pub proof fn law_key_loads_name_selected_row(s: AppView, k: KeyInput)
    requires
        s.wf(),
        s.entries.len() <= usize::MAX,
    ensures
        load_names_selected_row(step(s, k)),
{
    if k.press {
        if s.search_mode {
            lemma_search_step_load(s, k.code);
        } else if s.show_confirmation {
        } else {
            lemma_normal_step_load(s, k);
        }
    }
}

/// Confirming restores the entry on the selected row, and the question names
/// that same entry by its short hash and message.
pub proof fn law_confirm_names_restored_entry(s: AppView, c: char)
    requires
        s.wf(),
        !s.search_mode,
        s.show_confirmation,
        s.selected is Some,
        c == 'y' || c == 'Y',
    ensures
        ({
            let e = row_entry(s, s.selected.unwrap());
            &&& step(s, KeyInput { code: KeyCode::Char(c), shift: false, press: true }) == (
                s,
                ActionView::Restore(e),
            )
            &&& footer_of(s) == FooterView::Confirm(
                if s.has_uncommitted_changes {
                    "⚠️  CONFIRM: Reset to "@ + short_hash_of(e.hash) + " - "@ + e.message
                        + "? This will discard uncommitted changes! [y/N]"@
                } else {
                    "⚠️  CONFIRM: Reset to "@ + short_hash_of(e.hash) + " - "@ + e.message
                        + "? [y/N]"@
                },
            )
        }),
{
}

/// A restore always names the entry on the selected row.
pub proof fn law_restore_names_selected_row(s: AppView, k: KeyInput)
    requires
        s.wf(),
        step(s, k).1 is Restore,
    ensures
        s.selected matches Some(r) && step(s, k).1 == ActionView::Restore(row_entry(s, r)),
{
}

/// The footer previews the entry on the selected row (the first entry when
/// none is selected).
pub proof fn law_preview_names_selected_row(s: AppView)
    requires
        s.wf(),
        !s.show_confirmation,
        !s.search_mode,
        !s.search_active,
    ensures
        s.selected matches Some(r) ==> footer_of(s) == FooterView::Preview(
            "📍 Will restore to: "@ + short_hash_of(row_entry(s, r).hash) + " - "@ + row_entry(
                s,
                r,
            ).message + " | / to search | Space for diff"@,
        ),
        s.selected is None && s.entries.len() > 0 ==> footer_of(s) == FooterView::Preview(
            "📍 Will restore to: "@ + short_hash_of(s.entries[0].hash) + " - "@ + s.entries[0].message
                + " | / to search | Space for diff"@,
        ),
        s.entries.len() == 0 ==> footer_of(s) == FooterView::Preview("No entries found"@),
{
}

/// Scrolling down moves one line, capped by the line count of the text the
/// pane shows (the full diff in full view, the summary otherwise) less the
/// visible height.
pub proof fn law_scroll_down_within_shown_text(s: AppView)
    ensures
        ({
            let text = if s.show_full_diff {
                s.full_diff_content
            } else {
                s.diff_content
            };
            let lines = line_count(text) % 0x10000;
            let limit = if lines > s.diff_visible_height {
                lines - s.diff_visible_height
            } else {
                0
            };
            s.scrolled_down().diff_scroll_offset == if s.diff_scroll_offset + 1 <= limit {
                s.diff_scroll_offset + 1
            } else {
                limit
            }
        }),
        s.scrolled_down() == (AppView { diff_scroll_offset: s.scrolled_down().diff_scroll_offset, ..s }),
{
}

/// The text the pane does not show has no say in how far it scrolls.
pub proof fn law_scroll_ignores_hidden_text(s: AppView, other: Seq<char>)
    ensures
        s.show_full_diff ==> (AppView { diff_content: other, ..s }).scrolled_down().diff_scroll_offset
            == s.scrolled_down().diff_scroll_offset,
        !s.show_full_diff ==> (AppView { full_diff_content: other, ..s }).scrolled_down().diff_scroll_offset
            == s.scrolled_down().diff_scroll_offset,
{
}

/// Recomputing the filter lists what the query keeps; the selection stays
/// on its row when that row is still listed, moves to the last row when it
/// is not, goes to the first row (the newest match) when nothing was
/// selected, and is cleared when nothing matches.
pub proof fn law_refilter_selection(s: AppView)
    ensures
        ({
            let f = filter_for(s.entries, s.search_query);
            &&& s.refiltered().filtered_entries == f
            &&& f.len() == 0 ==> s.refiltered().selected is None
            &&& f.len() > 0 && s.selected is None ==> s.refiltered().selected == Some(0usize)
            &&& f.len() > 0 && (s.selected matches Some(i) && i < f.len())
                ==> s.refiltered().selected == s.selected
            &&& f.len() > 0 && (s.selected matches Some(i) && i >= f.len())
                ==> s.refiltered().selected == Some((f.len() - 1) as usize)
            &&& s.refiltered().search_query == s.search_query
            &&& s.refiltered().entries == s.entries
        }),
{
}

/// Moving down selects the next row, the first row when none was selected,
/// and stays on the last row; moving up selects the previous row and stays
/// on the first.
pub proof fn law_moves_exact(s: AppView)
    requires
        s.wf(),
        0 < s.filtered_entries.len() <= usize::MAX,
    ensures
        s.moved_next().selected == Some(
            (match s.selected {
                Some(i) => if i + 1 < s.filtered_entries.len() {
                    i + 1
                } else {
                    i as int
                },
                None => 0,
            }) as usize,
        ),
        s.moved_previous().selected == Some(
            (match s.selected {
                Some(i) => if i > 0 {
                    i - 1
                } else {
                    0
                },
                None => 0,
            }) as usize,
        ),
{
}

/// The list shows every filtered entry in order, and marks exactly the
/// selected row.
pub proof fn law_rows_show_filtered_entries(s: AppView)
    requires
        s.wf(),
        s.filtered_entries.len() <= usize::MAX,
    ensures
        s.rows().len() == s.filtered_entries.len(),
        forall|i: int|
            0 <= i < s.rows().len() ==> #[trigger] s.rows()[i].entry == s.filtered_entries[i]
                && s.rows()[i].selected == (s.selected == Some(i as usize)),
{
}

/// Scrolling up moves one line up and stops at the top.
pub proof fn law_scroll_up_exact(s: AppView)
    ensures
        s.scrolled_up().diff_scroll_offset == if s.diff_scroll_offset > 0 {
            s.diff_scroll_offset - 1
        } else {
            0
        },
        s.scrolled_up() == (AppView { diff_scroll_offset: s.scrolled_up().diff_scroll_offset, ..s }),
{
}

/// Clearing the filter lists every entry, empties the query, leaves search,
/// and selects the first row when there is one.
pub proof fn law_clear_filter_exact(s: AppView)
    requires
        s.wf(),
        s.entries.len() <= usize::MAX,
    ensures
        s.cleared().filtered_entries.len() == s.entries.len(),
        forall|i: int| 0 <= i < s.entries.len() ==> #[trigger] s.cleared().filtered_entries[i] == i,
        s.cleared().search_query.len() == 0,
        !s.cleared().search_active,
        !s.cleared().search_mode,
        s.entries.len() > 0 ==> s.cleared().selected == Some(0usize),
        s.entries.len() == 0 ==> s.cleared().selected is None,
        s.cleared().entries == s.entries,
{
    if s.entries.len() == 0 && s.filtered_entries.len() > 0 {
        assert(s.filtered_entries[0] < 0);
    }
}

/// While a search is typed the footer shows the query and the number of
/// listed entries; with a filter applied it shows both in one line.
pub proof fn law_search_footers(s: AppView)
    requires
        !s.show_confirmation,
    ensures
        s.search_mode ==> footer_of(s) == (FooterView::Search {
            query: s.search_query,
            matches: "("@ + decimal(s.filtered_entries.len()) + " matches)"@,
        }),
        !s.search_mode && s.search_active ==> footer_of(s) == FooterView::Filtered(
            "🔍 Filtered: "@ + s.search_query + " ("@ + decimal(s.filtered_entries.len())
                + " matches) | / to edit | Esc to clear"@,
        ),
{
}

/// The decimal digit for `d` is the character `d` places after `0`.
proof fn lemma_digit_char(d: nat)
    requires
        d < 10,
    ensures
        crate::display::digit_char(d) as int == '0' as int + d,
        '0' <= crate::display::digit_char(d) <= '9',
{
    let b = (48 + d) as u8;
    assert(b as int == 48 + d);
}

/// The decimal form of `n` is a run of digits that writes `n`, with no
/// leading zero.
pub proof fn law_decimal_writes_value(n: nat)
    ensures
        crate::reflog::is_digits(decimal(n)),
        crate::reflog::digits_value(decimal(n)) == n,
        decimal(n).len() > 1 ==> decimal(n)[0] != '0',
        (n < 10) == (decimal(n).len() == 1),
    decreases n,
{
    if n >= 10 {
        law_decimal_writes_value(n / 10);
        lemma_digit_char(n % 10);
        let d = decimal(n / 10);
        let e = decimal(n);
        assert(e == d.push(crate::display::digit_char(n % 10)));
        assert(e.drop_last() =~= d);
        assert(e[0] == d[0]);
        if d.len() == 1 {
            lemma_digit_char(n / 10);
            assert(d[0] == crate::display::digit_char(n / 10));
        }
        assert forall|i: int| 0 <= i < e.len() implies '0' <= #[trigger] e[i] <= '9' by {
            if i < d.len() {
                assert(e[i] == d[i]);
            }
        }
        assert(e.last() == crate::display::digit_char(n % 10));
        assert(crate::reflog::digits_value(e) == crate::reflog::digits_value(d) * 10 + (e.last() as int
            - '0' as int));
        assert(n == (n / 10) * 10 + n % 10);
    } else {
        lemma_digit_char(n);
        let e = decimal(n);
        assert(e.drop_last() =~= Seq::<char>::empty());
        assert(e.last() == crate::display::digit_char(n));
        assert(crate::reflog::digits_value(e) == crate::reflog::digits_value(e.drop_last()) * 10 + (
        e.last() as int - '0' as int));
        assert(crate::reflog::digits_value(Seq::<char>::empty()) == 0);
    }
}

/// While a search is typed, a character is added to the query and a
/// Backspace removes its last character, and the list follows the query;
/// Enter leaves search with the filter applied when the query is not empty;
/// Esc leaves search with an empty query and every entry listed, the first
/// row selected.
pub proof fn law_search_keys(s: AppView, c: char)
    requires
        s.wf(),
        s.search_mode,
        s.entries.len() <= usize::MAX,
    ensures
        ({
            let t = step(s, KeyInput { code: KeyCode::Char(c), shift: false, press: true }).0;
            &&& t.search_query == s.search_query.push(c)
            &&& t.filtered_entries == filter_for(s.entries, s.search_query.push(c))
            &&& t.search_mode
        }),
        ({
            let t = step(s, KeyInput { code: KeyCode::Backspace, shift: false, press: true }).0;
            &&& s.search_query.len() > 0 ==> t.search_query == s.search_query.drop_last()
            &&& s.search_query.len() == 0 ==> t.search_query == s.search_query
            &&& t.filtered_entries == filter_for(s.entries, t.search_query)
            &&& t.search_mode
        }),
        ({
            let t = step(s, KeyInput { code: KeyCode::Enter, shift: false, press: true }).0;
            &&& !t.search_mode
            &&& t.search_active == (s.search_query.len() > 0)
            &&& t.search_query == s.search_query
            &&& t.filtered_entries == s.filtered_entries
        }),
        ({
            let t = step(s, KeyInput { code: KeyCode::Esc, shift: false, press: true }).0;
            &&& !t.search_mode
            &&& !t.search_active
            &&& t.search_query.len() == 0
            &&& t.filtered_entries == all_positions(s.entries.len())
            &&& s.entries.len() > 0 ==> t.selected == Some(0usize)
        }),
{
    lemma_empty_query_keeps_all(s.entries);
    let t0 = AppView { search_mode: false, search_query: Seq::empty(), search_active: false, ..s };
    assert(t0.search_query == Seq::<char>::empty());
    if s.entries.len() > 0 {
        assert(all_positions(s.entries.len()).len() > 0);
    }
}

} // verus!
