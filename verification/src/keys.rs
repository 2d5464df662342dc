//! Key presses and what each one does to the viewer's state.
use vstd::prelude::*;
use crate::timeline::{AppView, DiffLoad, DiffLoadView, Entry, EntryView};

verus! {

/// The keys the viewer tells apart.
#[derive(Clone, Copy, Debug, PartialEq, Eq, Structural)]
pub enum KeyCode {
    Esc,
    Enter,
    Backspace,
    Up,
    Down,
    Home,
    End,
    PageUp,
    PageDown,
    Char(char),
    Other,
}

/// A key event: the key, whether Shift was held, and whether it is a press
/// (as opposed to a release or a repeat).
#[derive(Clone, Copy, Debug, PartialEq, Eq, Structural)]
pub struct KeyInput {
    pub code: KeyCode,
    pub shift: bool,
    pub press: bool,
}

/// What the caller does after a key was handled.
#[derive(Debug)]
pub enum Action {
    /// Wait for the next key.
    Continue,
    /// Leave without restoring.
    Quit,
    /// Load the diff texts asked for, summary first: store each with
    /// `App::store_diff_stat` / `App::store_full_diff` as soon as it is
    /// loaded, call `App::finish_diff_load` once all are stored, then wait for
    /// the next key.
    Load(DiffLoad),
    /// Reset the repository to this entry's commit and leave.
    Restore(Entry),
}

/// The mathematical value of an [`Action`].
pub enum ActionView {
    Continue,
    Quit,
    Load(DiffLoadView),
    Restore(EntryView),
}

impl View for Action {
    type V = ActionView;

    open spec fn view(&self) -> ActionView {
        match self {
            Action::Continue => ActionView::Continue,
            Action::Quit => ActionView::Quit,
            Action::Load(l) => ActionView::Load(l@),
            Action::Restore(e) => ActionView::Restore(e@),
        }
    }
}

/// Loading what `l` asks for, or nothing.
pub open spec fn load_action(l: Option<DiffLoadView>) -> ActionView {
    match l {
        Some(l) => ActionView::Load(l),
        None => ActionView::Continue,
    }
}

/// After the selection moved: the diff pane follows the selected entry.
pub open spec fn after_selection(s: AppView) -> (AppView, ActionView) {
    (s.refreshed(), load_action(s.diff_load()))
}

/// The selection set to row `i`, then followed by the diff pane.
pub open spec fn select_row(s: AppView, i: usize) -> (AppView, ActionView) {
    after_selection(AppView { selected: Some(i), ..s })
}

/// What confirming a restore does: restore the selected entry, or leave when
/// none is selected.
pub open spec fn restore_action(s: AppView) -> ActionView {
    match s.selected_entry() {
        Some(e) => if e < s.entries.len() {
            ActionView::Restore(s.entries[e as int])
        } else {
            ActionView::Quit
        },
        None => ActionView::Quit,
    }
}

/// A key while the search query is being typed.
pub open spec fn search_step(s: AppView, code: KeyCode) -> (AppView, ActionView) {
    match code {
        KeyCode::Esc => {
            let t = AppView {
                search_mode: false,
                search_query: Seq::empty(),
                search_active: false,
                ..s
            }.refiltered();
            let t = if t.filtered_entries.len() > 0 {
                AppView { selected: Some(0usize), ..t }
            } else {
                t
            };
            after_selection(t)
        },
        KeyCode::Enter => (
            AppView { search_mode: false, search_active: s.search_query.len() > 0, ..s },
            ActionView::Continue,
        ),
        KeyCode::Backspace => {
            let q = if s.search_query.len() > 0 {
                s.search_query.drop_last()
            } else {
                s.search_query
            };
            after_selection(AppView { search_query: q, ..s }.refiltered())
        },
        KeyCode::Char(c) => after_selection(
            AppView { search_query: s.search_query.push(c), ..s }.refiltered(),
        ),
        _ => (s, ActionView::Continue),
    }
}

/// A key while the restore confirmation dialog is open.
pub open spec fn confirm_step(s: AppView, code: KeyCode) -> (AppView, ActionView) {
    match code {
        KeyCode::Char(c) => if c == 'y' || c == 'Y' {
            (s, restore_action(s))
        } else if c == 'n' || c == 'N' {
            (AppView { show_confirmation: false, ..s }, ActionView::Continue)
        } else {
            (s, ActionView::Continue)
        },
        KeyCode::Esc => (AppView { show_confirmation: false, ..s }, ActionView::Continue),
        _ => (s, ActionView::Continue),
    }
}

/// Moving down: one row, or one diff line with Shift while the diff pane is open.
pub open spec fn down_step(s: AppView, shift: bool) -> (AppView, ActionView) {
    if s.show_diff && shift {
        (s.scrolled_down(), ActionView::Continue)
    } else if s.filtered_entries.len() == 0 {
        (s, ActionView::Continue)
    } else {
        after_selection(s.moved_next())
    }
}

/// Moving up: one row, or one diff line with Shift while the diff pane is open.
pub open spec fn up_step(s: AppView, shift: bool) -> (AppView, ActionView) {
    if s.show_diff && shift {
        (s.scrolled_up(), ActionView::Continue)
    } else if s.filtered_entries.len() == 0 {
        (s, ActionView::Continue)
    } else {
        after_selection(s.moved_previous())
    }
}

/// A character key in the timeline.
pub open spec fn char_step(s: AppView, c: char, shift: bool) -> (AppView, ActionView) {
    if c == 'q' {
        (s, ActionView::Quit)
    } else if c == '/' {
        (AppView { search_mode: true, ..s }, ActionView::Continue)
    } else if c == 'j' {
        down_step(s, shift)
    } else if c == 'k' {
        up_step(s, shift)
    } else if c == 'J' {
        if s.show_diff {
            (s.scrolled_down(), ActionView::Continue)
        } else {
            (s, ActionView::Continue)
        }
    } else if c == 'K' {
        if s.show_diff {
            (s.scrolled_up(), ActionView::Continue)
        } else {
            (s, ActionView::Continue)
        }
    } else if c == ' ' {
        (s.toggled_diff(), load_action(s.toggle_diff_load()))
    } else if c == 'd' {
        (s.toggled_diff_mode(), load_action(s.toggle_mode_load()))
    } else if c == 't' {
        (AppView { show_absolute_time: !s.show_absolute_time, ..s }, ActionView::Continue)
    } else {
        (s, ActionView::Continue)
    }
}

/// The row `PageDown` moves to: ten rows down, at most the last row.
pub open spec fn page_down_row(s: AppView) -> usize {
    let last = s.filtered_entries.len() - 1;
    if s.selected_index() + 10 <= last {
        (s.selected_index() + 10) as usize
    } else {
        last as usize
    }
}

/// The row `PageUp` moves to: ten rows up, at least the first row.
pub open spec fn page_up_row(s: AppView) -> usize {
    if s.selected_index() >= 10 {
        (s.selected_index() - 10) as usize
    } else {
        0
    }
}

/// A key in the timeline, with no search being typed and no dialog open.
pub open spec fn normal_step(s: AppView, k: KeyInput) -> (AppView, ActionView) {
    let nonempty = s.filtered_entries.len() > 0;
    match k.code {
        KeyCode::Char(c) => char_step(s, c, k.shift),
        KeyCode::Esc => if s.search_active {
            after_selection(s.cleared())
        } else {
            (s, ActionView::Quit)
        },
        KeyCode::Down => down_step(s, k.shift),
        KeyCode::Up => up_step(s, k.shift),
        KeyCode::Home => if nonempty {
            select_row(s, 0)
        } else {
            (s, ActionView::Continue)
        },
        KeyCode::End => if nonempty {
            select_row(s, (s.filtered_entries.len() - 1) as usize)
        } else {
            (s, ActionView::Continue)
        },
        KeyCode::PageDown => if nonempty {
            select_row(s, page_down_row(s))
        } else {
            (s, ActionView::Continue)
        },
        KeyCode::PageUp => if nonempty {
            select_row(s, page_up_row(s))
        } else {
            (s, ActionView::Continue)
        },
        KeyCode::Enter => if s.selected_entry() is Some {
            (AppView { show_confirmation: true, ..s }, ActionView::Continue)
        } else {
            (s, ActionView::Continue)
        },
        _ => (s, ActionView::Continue),
    }
}

/// What a key event does: releases are ignored; while a search is typed the
/// key edits it; while the dialog is open it confirms or cancels; otherwise it
/// navigates the timeline.
pub open spec fn step(s: AppView, k: KeyInput) -> (AppView, ActionView) {
    if !k.press {
        (s, ActionView::Continue)
    } else if s.search_mode {
        search_step(s, k.code)
    } else if s.show_confirmation {
        confirm_step(s, k.code)
    } else {
        normal_step(s, k)
    }
}

/// The key scrolls the diff one line down.
pub open spec fn key_scrolls_down(s: AppView, k: KeyInput) -> bool {
    &&& k.press
    &&& !s.search_mode
    &&& !s.show_confirmation
    &&& s.show_diff
    &&& (k.code == KeyCode::Char('J') || (k.shift && (k.code == KeyCode::Down || k.code
        == KeyCode::Char('j'))))
}

} // verus!
