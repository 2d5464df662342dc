//! The state of the timeline viewer: entries, search filter, selection,
//! diff pane and confirmation dialog, and the operations on it.
use vstd::prelude::*;
use crate::display::hash_ok;
use crate::filter::{increasing_below, lemma_matching_upto, matches_all, matching_upto};
use crate::lines::{count_lines, line_count};
use crate::keys::{Action, KeyCode, KeyInput, key_scrolls_down, load_action, select_row, search_step, confirm_step, down_step, up_step, char_step, normal_step, step};
use crate::text::{chars_of, lower_form, pop_char, push_char, split_whitespace, to_lowercase, words};

verus! {

broadcast use vstd::string::group_string_axioms;

/// One reflog entry of the timeline.
#[derive(Debug)]
pub struct Entry {
    /// The full commit hash.
    pub hash: String,
    /// The reflog message.
    pub message: String,
    /// The age of the entry in words, such as "2 hours ago".
    pub relative_time: String,
    /// The time of the entry, in seconds since the Unix epoch.
    pub timestamp: i64,
}

/// The mathematical value of an [`Entry`].
pub struct EntryView {
    pub hash: Seq<char>,
    pub message: Seq<char>,
    pub relative_time: Seq<char>,
    pub timestamp: i64,
}

impl View for Entry {
    type V = EntryView;

    open spec fn view(&self) -> EntryView {
        EntryView {
            hash: self.hash@,
            message: self.message@,
            relative_time: self.relative_time@,
            timestamp: self.timestamp,
        }
    }
}

/// A request to load diff texts for the commit `hash`: its diff summary
/// when `stat` holds, its full diff when `full` holds.
#[derive(Debug)]
pub struct DiffLoad {
    pub hash: String,
    pub stat: bool,
    pub full: bool,
}

/// The mathematical value of a [`DiffLoad`].
pub struct DiffLoadView {
    pub hash: Seq<char>,
    pub stat: bool,
    pub full: bool,
}

impl View for DiffLoad {
    type V = DiffLoadView;

    open spec fn view(&self) -> DiffLoadView {
        DiffLoadView { hash: self.hash@, stat: self.stat, full: self.full }
    }
}

/// The value of an optional [`DiffLoad`].
pub open spec fn opt_load_view(o: Option<DiffLoad>) -> Option<DiffLoadView> {
    match o {
        Some(l) => Some(l@),
        None => None,
    }
}

/// The value of an optional [`Entry`].
pub open spec fn opt_entry_view(o: Option<Entry>) -> Option<EntryView> {
    match o {
        Some(e) => Some(e@),
        None => None,
    }
}

/// A row of the timeline list: the position of its entry, and whether it is
/// the selected row.
#[derive(Clone, Copy, Debug, PartialEq, Eq, Structural)]
pub struct Row {
    pub entry: usize,
    pub selected: bool,
}

/// The viewer's state.
pub struct App {
    entries: Vec<Entry>,
    selected: Option<usize>,
    show_confirmation: bool,
    show_diff: bool,
    show_full_diff: bool,
    diff_content: String,
    full_diff_content: String,
    diff_scroll_offset: u16,
    diff_visible_height: u16,
    has_uncommitted_changes: bool,
    search_mode: bool,
    search_query: String,
    filtered_entries: Vec<usize>,
    search_active: bool,
    show_absolute_time: bool,
}

/// The mathematical value of an [`App`]. `selected` is a position in
/// `filtered_entries`, which holds positions in `entries`.
pub struct AppView {
    pub entries: Seq<EntryView>,
    pub selected: Option<usize>,
    pub show_confirmation: bool,
    pub show_diff: bool,
    pub show_full_diff: bool,
    pub diff_content: Seq<char>,
    pub full_diff_content: Seq<char>,
    pub diff_scroll_offset: u16,
    pub diff_visible_height: u16,
    pub has_uncommitted_changes: bool,
    pub search_mode: bool,
    pub search_query: Seq<char>,
    pub filtered_entries: Seq<usize>,
    pub search_active: bool,
    pub show_absolute_time: bool,
}

impl View for App {
    type V = AppView;

    closed spec fn view(&self) -> AppView {
        AppView {
            entries: self.entries@.map_values(|e: Entry| e@),
            selected: self.selected,
            show_confirmation: self.show_confirmation,
            show_diff: self.show_diff,
            show_full_diff: self.show_full_diff,
            diff_content: self.diff_content@,
            full_diff_content: self.full_diff_content@,
            diff_scroll_offset: self.diff_scroll_offset,
            diff_visible_height: self.diff_visible_height,
            has_uncommitted_changes: self.has_uncommitted_changes,
            search_mode: self.search_mode,
            search_query: self.search_query@,
            filtered_entries: self.filtered_entries@,
            search_active: self.search_active,
            show_absolute_time: self.show_absolute_time,
        }
    }
}

/// The lower-cased messages of `entries`.
pub open spec fn lowered_messages(entries: Seq<EntryView>) -> Seq<Seq<char>> {
    entries.map_values(|e: EntryView| lower_form(e.message))
}

/// The search tokens of a query: the words of its lower-case form.
pub open spec fn query_tokens(query: Seq<char>) -> Seq<Seq<char>> {
    words(lower_form(query))
}

/// The positions of the entries that a query keeps, newest first as listed:
/// those whose lower-cased message holds every token of the lower-cased query.
pub open spec fn filter_for(entries: Seq<EntryView>, query: Seq<char>) -> Seq<usize> {
    matching_upto(lowered_messages(entries), query_tokens(query), entries.len() as int)
}

/// All positions `0..n`, in order.
pub open spec fn all_positions(n: nat) -> Seq<usize> {
    Seq::new(n, |i: int| i as usize)
}

/// `offset + 1`, but no more than `max`.
pub open spec fn bump_capped(offset: u16, max: int) -> u16 {
    if offset + 1 <= max {
        (offset + 1) as u16
    } else {
        max as u16
    }
}

impl AppView {
    /// The shape every state keeps: the filter holds increasing positions of
    /// entries, and a position in it is selected exactly when it is non-empty.
    pub open spec fn wf(self) -> bool {
        &&& increasing_below(self.filtered_entries, self.entries.len() as int)
        &&& (self.selected is Some <==> self.filtered_entries.len() > 0)
        &&& (self.selected matches Some(i) ==> i < self.filtered_entries.len())
        &&& forall|i: int| 0 <= i < self.entries.len() ==> hash_ok(#[trigger] self.entries[i].hash)
    }

    /// A search is never typed while the confirmation dialog is open.
    pub open spec fn modes_ok(self) -> bool {
        !(self.search_mode && self.show_confirmation)
    }

    /// The filter shows exactly the entries that the query keeps.
    pub open spec fn consistent(self) -> bool {
        self.filtered_entries == filter_for(self.entries, self.search_query)
    }

    /// The selected position in the list, 0 when nothing is selected.
    pub open spec fn selected_index(self) -> usize {
        match self.selected {
            Some(i) => i,
            None => 0,
        }
    }

    /// The position in `entries` of the selected list row, if any.
    pub open spec fn selected_entry(self) -> Option<usize> {
        match self.selected {
            Some(i) => if i < self.filtered_entries.len() {
                Some(self.filtered_entries[i as int])
            } else {
                None
            },
            None => None,
        }
    }

    /// The diff text the pane shows: the full diff or the summary.
    pub open spec fn active_diff(self) -> Seq<char> {
        if self.show_full_diff {
            self.full_diff_content
        } else {
            self.diff_content
        }
    }

    /// The filter recomputed for the current query; the selection kept when
    /// it still fits, moved to the last row when past the end, set to the
    /// first row when there was none, cleared when nothing matches.
    pub open spec fn refiltered(self) -> AppView {
        let f = filter_for(self.entries, self.search_query);
        let sel = if f.len() == 0 {
            None
        } else {
            match self.selected {
                Some(i) => if i >= f.len() {
                    Some((f.len() - 1) as usize)
                } else {
                    Some(i)
                },
                None => Some(0usize),
            }
        };
        AppView { filtered_entries: f, selected: sel, ..self }
    }

    /// The filter dropped: empty query, search off, all entries listed, the
    /// first selected (when there is one).
    pub open spec fn cleared(self) -> AppView {
        AppView {
            search_query: Seq::empty(),
            search_active: false,
            search_mode: false,
            filtered_entries: all_positions(self.entries.len()),
            selected: if self.entries.len() > 0 {
                Some(0usize)
            } else {
                self.selected
            },
            ..self
        }
    }

    /// An entry is selected.
    pub open spec fn has_selected_entry(self) -> bool {
        self.selected_entry() matches Some(e) && e < self.entries.len()
    }

    /// The diff texts to load after the selection moved: for the selected
    /// entry, its summary when the pane is open and its full diff when the
    /// full view is chosen. The full diff is asked for whenever the full view
    /// is chosen, also while the pane is closed.
    pub open spec fn diff_load(self) -> Option<DiffLoadView> {
        if self.has_selected_entry() && (self.show_diff || self.show_full_diff) {
            Some(
                DiffLoadView {
                    hash: self.entries[self.selected_entry().unwrap() as int].hash,
                    stat: self.show_diff,
                    full: self.show_full_diff,
                },
            )
        } else {
            None
        }
    }

    /// After the selection moved: with an entry selected and nothing to load,
    /// the scroll goes back to the top at once; when texts are to be loaded it
    /// goes back only once they are stored (`finished_load`).
    pub open spec fn refreshed(self) -> AppView {
        if self.has_selected_entry() && !(self.show_diff || self.show_full_diff) {
            AppView { diff_scroll_offset: 0, ..self }
        } else {
            self
        }
    }

    /// The rows of the list, in order: each filtered entry, the one at the
    /// selected position (position 0 when none is selected) marked.
    pub open spec fn rows(self) -> Seq<Row> {
        Seq::new(
            self.filtered_entries.len(),
            |i: int| Row { entry: self.filtered_entries[i], selected: i == self.selected_index() },
        )
    }

    /// A load completed: the scroll back at the top.
    pub open spec fn finished_load(self) -> AppView {
        AppView { diff_scroll_offset: 0, ..self }
    }

    /// One row down, staying on the last row.
    pub open spec fn moved_next(self) -> AppView {
        if self.filtered_entries.len() == 0 {
            self
        } else {
            let i = match self.selected {
                Some(i) => if i + 1 >= self.filtered_entries.len() {
                    i
                } else {
                    (i + 1) as usize
                },
                None => 0usize,
            };
            AppView { selected: Some(i), ..self }
        }
    }

    /// One row up, staying on the first row.
    pub open spec fn moved_previous(self) -> AppView {
        if self.filtered_entries.len() == 0 {
            self
        } else {
            let i = match self.selected {
                Some(i) => if i == 0 {
                    0usize
                } else {
                    (i - 1) as usize
                },
                None => 0usize,
            };
            AppView { selected: Some(i), ..self }
        }
    }

    /// The diff pane opened or closed; opening shows the summary. The scroll
    /// goes back to the top at once, or, when the summary is to be loaded,
    /// once it is stored.
    pub open spec fn toggled_diff(self) -> AppView {
        let on = !self.show_diff;
        AppView {
            show_diff: on,
            show_full_diff: if on {
                false
            } else {
                self.show_full_diff
            },
            diff_scroll_offset: if self.toggle_diff_load() is Some {
                self.diff_scroll_offset
            } else {
                0
            },
            ..self
        }
    }

    /// What opening the diff pane loads: the summary of the selected entry.
    pub open spec fn toggle_diff_load(self) -> Option<DiffLoadView> {
        if !self.show_diff {
            match self.selected_entry() {
                Some(e) => if e < self.entries.len() {
                    Some(DiffLoadView { hash: self.entries[e as int].hash, stat: true, full: false })
                } else {
                    None
                },
                None => None,
            }
        } else {
            None
        }
    }

    /// Summary and full diff swapped while the pane is open. The scroll goes
    /// back to the top at once, or, when the full diff is to be loaded, once
    /// it is stored.
    pub open spec fn toggled_diff_mode(self) -> AppView {
        if !self.show_diff {
            self
        } else {
            AppView {
                show_full_diff: !self.show_full_diff,
                diff_scroll_offset: if self.toggle_mode_load() is Some {
                    self.diff_scroll_offset
                } else {
                    0
                },
                ..self
            }
        }
    }

    /// What switching to the full diff loads: the full diff of the selected entry.
    pub open spec fn toggle_mode_load(self) -> Option<DiffLoadView> {
        if self.show_diff && !self.show_full_diff {
            match self.selected_entry() {
                Some(e) => if e < self.entries.len() {
                    Some(DiffLoadView { hash: self.entries[e as int].hash, stat: false, full: true })
                } else {
                    None
                },
                None => None,
            }
        } else {
            None
        }
    }

    /// The diff scrolled one line up, not above the top.
    pub open spec fn scrolled_up(self) -> AppView {
        AppView {
            diff_scroll_offset: if self.diff_scroll_offset == 0 {
                0u16
            } else {
                (self.diff_scroll_offset - 1) as u16
            },
            ..self
        }
    }

    /// The furthest the diff scrolls: its line count, taken modulo 2^16 as a
    /// `u16`, less the visible height, and 0 below that.
    pub open spec fn max_scroll(self) -> int {
        let lines = line_count(self.active_diff()) % 0x10000;
        if lines > self.diff_visible_height {
            lines - self.diff_visible_height
        } else {
            0
        }
    }

    /// The diff scrolled one line down, not past `max_scroll`.
    pub open spec fn scrolled_down(self) -> AppView {
        AppView { diff_scroll_offset: bump_capped(self.diff_scroll_offset, self.max_scroll()), ..self }
    }
}

/// The state of a new viewer over `entries`.
pub open spec fn initial_state(entries: Seq<EntryView>, has_uncommitted_changes: bool) -> AppView {
    AppView {
        entries: entries,
        selected: if entries.len() > 0 {
            Some(0usize)
        } else {
            None
        },
        show_confirmation: false,
        show_diff: false,
        show_full_diff: false,
        diff_content: Seq::empty(),
        full_diff_content: Seq::empty(),
        diff_scroll_offset: 0,
        diff_visible_height: 10,
        has_uncommitted_changes: has_uncommitted_changes,
        search_mode: false,
        search_query: Seq::empty(),
        filtered_entries: all_positions(entries.len()),
        search_active: false,
        show_absolute_time: false,
    }
}

/// Every entry is kept by the empty query.
pub proof fn lemma_empty_query_keeps_all(entries: Seq<EntryView>)
    requires
        entries.len() <= usize::MAX,
    ensures
        filter_for(entries, Seq::empty()) == all_positions(entries.len()),
{
    let e = Seq::<char>::empty();
    assert(lower_form(e) =~= e);
    let p = crate::text::pieces(e);
    assert(p.drop_last() =~= Seq::<Seq<char>>::empty());
    assert(crate::text::non_empty(p.drop_last()) == Seq::<Seq<char>>::empty());
    assert(crate::text::non_empty(p) == Seq::<Seq<char>>::empty());
    assert(query_tokens(Seq::empty()).len() == 0);
    lemma_all_match_upto(lowered_messages(entries), query_tokens(Seq::empty()), entries.len() as int);
}

/// With no tokens every message matches.
pub proof fn lemma_all_match_upto(msgs: Seq<Seq<char>>, tokens: Seq<Seq<char>>, n: int)
    requires
        tokens.len() == 0,
        0 <= n <= usize::MAX,
    ensures
        matching_upto(msgs, tokens, n) =~= all_positions(n as nat),
    decreases n,
{
    if n > 0 {
        lemma_all_match_upto(msgs, tokens, n - 1);
    }
}

/// `all_positions(n)` is increasing and below `n`.
pub proof fn lemma_all_positions(n: nat)
    requires
        n <= usize::MAX + 1,
    ensures
        increasing_below(all_positions(n), n as int),
{
}

impl App {
    /// A viewer over `entries`: all listed, the first selected, no diff pane,
    /// no search, no dialog.
    pub fn new(entries: Vec<Entry>, has_uncommitted_changes: bool) -> (app: App)
        requires
            forall|i: int| 0 <= i < entries.len() ==> hash_ok(#[trigger] entries[i].hash@),
        ensures
            app@ == initial_state(entries@.map_values(|e: Entry| e@), has_uncommitted_changes),
            app@.wf(),
            app@.consistent(),
    {
        let n = entries.len();
        let mut filtered: Vec<usize> = Vec::new();
        for i in 0..n
            invariant
                filtered@ =~= all_positions(i as nat),
        {
            filtered.push(i);
        }
        let selected = if n > 0 {
            Some(0usize)
        } else {
            None
        };
        proof {
            lemma_all_positions(n as nat);
            let ev = entries@.map_values(|e: Entry| e@);
            assert forall|i: int| 0 <= i < ev.len() implies hash_ok(#[trigger] ev[i].hash) by {
                assert(ev[i].hash == entries[i].hash@);
            }
            lemma_empty_query_keeps_all(ev);
        }
        App {
            entries,
            selected,
            show_confirmation: false,
            show_diff: false,
            show_full_diff: false,
            diff_content: String::new(),
            full_diff_content: String::new(),
            diff_scroll_offset: 0,
            diff_visible_height: 10,
            has_uncommitted_changes,
            search_mode: false,
            search_query: String::new(),
            filtered_entries: filtered,
            search_active: false,
            show_absolute_time: false,
        }
    }

    /// The selected position in the list, 0 when nothing is selected.
    pub fn selected_index(&self) -> (r: usize)
        ensures
            r == self@.selected_index(),
    {
        match self.selected {
            Some(i) => i,
            None => 0,
        }
    }

    /// The position in the entries of the selected row, if any.
    pub fn selected_entry_idx(&self) -> (r: Option<usize>)
        ensures
            r == self@.selected_entry(),
    {
        match self.selected {
            Some(i) => if i < self.filtered_entries.len() {
                Some(self.filtered_entries[i])
            } else {
                None
            },
            None => None,
        }
    }

    /// Recomputes the filter from the query, keeping the selection in range.
    pub fn update_filter(&mut self)
        requires
            old(self)@.wf(),
        ensures
            final(self)@ == old(self)@.refiltered(),
            final(self)@.wf(),
            final(self)@.consistent(),
    {
        let lower_query = to_lowercase(self.search_query.as_str());
        let query_chars = chars_of(lower_query.as_str());
        let tokens = split_whitespace(&query_chars);
        let n = self.entries.len();
        let ghost msgs = lowered_messages(self@.entries);
        let mut filtered: Vec<usize> = Vec::new();
        for i in 0..n
            invariant
                n == self.entries.len(),
                msgs == lowered_messages(self@.entries),
                tokens.deep_view() == query_tokens(self.search_query@),
                filtered@ == matching_upto(msgs, tokens.deep_view(), i as int),
        {
            let lower = to_lowercase(self.entries[i].message.as_str());
            let lower_chars = chars_of(lower.as_str());
            proof {
                assert(msgs[i as int] == lower_chars@);
            }
            if matches_all(&lower_chars, &tokens) {
                filtered.push(i);
            }
        }
        proof {
            lemma_matching_upto(msgs, tokens.deep_view(), n as int);
        }
        let len = filtered.len();
        let sel = if len == 0 {
            None
        } else {
            match self.selected {
                Some(i) => if i >= len {
                    Some(len - 1)
                } else {
                    Some(i)
                },
                None => Some(0),
            }
        };
        self.filtered_entries = filtered;
        self.selected = sel;
    }

    /// Drops the filter: empty query, search off, all entries listed.
    pub fn clear_filter(&mut self)
        requires
            old(self)@.wf(),
        ensures
            final(self)@ == old(self)@.cleared(),
            final(self)@.wf(),
            final(self)@.consistent(),
    {
        proof {
            if self.entries.len() == 0 && self.filtered_entries.len() > 0 {
                assert(self@.filtered_entries[0] < 0);
            }
        }
        self.search_query = String::new();
        self.search_active = false;
        self.search_mode = false;
        let n = self.entries.len();
        let mut filtered: Vec<usize> = Vec::new();
        for i in 0..n
            invariant
                filtered@ =~= all_positions(i as nat),
        {
            filtered.push(i);
        }
        proof {
            lemma_all_positions(n as nat);
            lemma_empty_query_keeps_all(self@.entries);
        }
        self.filtered_entries = filtered;
        if n > 0 {
            self.selected = Some(0);
        }
    }

    /// After the selection changed: asks for the diff texts the selected
    /// entry needs; with an entry selected and nothing to load, the scroll
    /// goes back to the top at once.
    pub fn update_diff_if_visible(&mut self) -> (load: Option<DiffLoad>)
        requires
            old(self)@.wf(),
        ensures
            final(self)@ == old(self)@.refreshed(),
            opt_load_view(load) == old(self)@.diff_load(),
    {
        match self.selected_entry_idx() {
            Some(idx) => {
                if idx < self.entries.len() {
                    if self.show_diff || self.show_full_diff {
                        let hash = self.entries[idx].hash.clone();
                        Some(DiffLoad { hash, stat: self.show_diff, full: self.show_full_diff })
                    } else {
                        self.diff_scroll_offset = 0;
                        None
                    }
                } else {
                    None
                }
            },
            None => None,
        }
    }

    /// Stores a loaded diff summary.
    pub fn store_diff_stat(&mut self, stat: String)
        ensures
            final(self)@ == (AppView { diff_content: stat@, ..old(self)@ }),
    {
        self.diff_content = stat;
    }

    /// Stores a loaded full diff.
    pub fn store_full_diff(&mut self, full: String)
        ensures
            final(self)@ == (AppView { full_diff_content: full@, ..old(self)@ }),
    {
        self.full_diff_content = full;
    }

    /// Ends a load once every text asked for is stored: the scroll back at the top.
    pub fn finish_diff_load(&mut self)
        ensures
            final(self)@ == old(self)@.finished_load(),
    {
        self.diff_scroll_offset = 0;
    }

    /// Moves the selection one row down, staying on the last row.
    pub fn next(&mut self) -> (load: Option<DiffLoad>)
        requires
            old(self)@.wf(),
        ensures
            final(self)@ == old(self)@.moved_next().refreshed(),
            opt_load_view(load) == old(self)@.moved_next().diff_load(),
            final(self)@.wf(),
    {
        if self.filtered_entries.len() == 0 {
            return None;
        }
        let i = match self.selected {
            Some(i) => if i >= self.filtered_entries.len() - 1 {
                i
            } else {
                i + 1
            },
            None => 0,
        };
        self.selected = Some(i);
        self.update_diff_if_visible()
    }

    /// Moves the selection one row up, staying on the first row.
    pub fn previous(&mut self) -> (load: Option<DiffLoad>)
        requires
            old(self)@.wf(),
        ensures
            final(self)@ == old(self)@.moved_previous().refreshed(),
            opt_load_view(load) == old(self)@.moved_previous().diff_load(),
            final(self)@.wf(),
    {
        if self.filtered_entries.len() == 0 {
            return None;
        }
        let i = match self.selected {
            Some(i) => if i == 0 {
                0
            } else {
                i - 1
            },
            None => 0,
        };
        self.selected = Some(i);
        self.update_diff_if_visible()
    }

    /// Opens or closes the diff pane; opening asks for the selected entry's summary.
    pub fn toggle_diff(&mut self) -> (load: Option<DiffLoad>)
        requires
            old(self)@.wf(),
        ensures
            final(self)@ == old(self)@.toggled_diff(),
            opt_load_view(load) == old(self)@.toggle_diff_load(),
    {
        self.show_diff = !self.show_diff;
        let mut load: Option<DiffLoad> = None;
        if self.show_diff {
            self.show_full_diff = false;
            if let Some(idx) = self.selected_entry_idx() {
                if idx < self.entries.len() {
                    load = Some(DiffLoad { hash: self.entries[idx].hash.clone(), stat: true, full: false });
                }
            }
        }
        if load.is_none() {
            self.diff_scroll_offset = 0;
        }
        load
    }

    /// Swaps summary and full diff while the pane is open; switching to the
    /// full diff asks for the selected entry's full diff.
    pub fn toggle_diff_mode(&mut self) -> (load: Option<DiffLoad>)
        requires
            old(self)@.wf(),
        ensures
            final(self)@ == old(self)@.toggled_diff_mode(),
            opt_load_view(load) == old(self)@.toggle_mode_load(),
    {
        if !self.show_diff {
            return None;
        }
        self.show_full_diff = !self.show_full_diff;
        let mut load: Option<DiffLoad> = None;
        if self.show_full_diff {
            if let Some(idx) = self.selected_entry_idx() {
                if idx < self.entries.len() {
                    load = Some(DiffLoad { hash: self.entries[idx].hash.clone(), stat: false, full: true });
                }
            }
        }
        if load.is_none() {
            self.diff_scroll_offset = 0;
        }
        load
    }

    /// Scrolls the diff one line up, not above the top.
    pub fn scroll_diff_up(&mut self)
        ensures
            final(self)@ == old(self)@.scrolled_up(),
    {
        self.diff_scroll_offset = self.diff_scroll_offset.saturating_sub(1);
    }

    /// The diff text the pane shows.
    pub fn active_diff_content(&self) -> (r: &str)
        ensures
            r@ == self@.active_diff(),
    {
        if self.show_full_diff {
            self.full_diff_content.as_str()
        } else {
            self.diff_content.as_str()
        }
    }

    /// Scrolls the diff one line down, not past the last screenful.
    pub fn scroll_diff_down(&mut self)
        requires
            old(self)@.diff_scroll_offset < u16::MAX,
        ensures
            final(self)@ == old(self)@.scrolled_down(),
    {
        let count = count_lines(self.active_diff_content());
        let lines = (count % 0x10000) as u16;
        let max_scroll = lines.saturating_sub(self.diff_visible_height);
        let bumped = self.diff_scroll_offset + 1;
        self.diff_scroll_offset = if bumped <= max_scroll {
            bumped
        } else {
            max_scroll
        };
    }

    /// Opens the restore confirmation dialog.
    pub fn show_confirmation_dialog(&mut self)
        ensures
            final(self)@ == (AppView { show_confirmation: true, ..old(self)@ }),
    {
        self.show_confirmation = true;
    }

    /// Closes the restore confirmation dialog.
    pub fn cancel_confirmation(&mut self)
        ensures
            final(self)@ == (AppView { show_confirmation: false, ..old(self)@ }),
    {
        self.show_confirmation = false;
    }

    /// The entry that confirming the dialog restores: the selected one.
    pub fn restore_selected(&self) -> (r: Option<Entry>)
        ensures
            opt_entry_view(r) == match self@.selected_entry() {
                Some(e) => if e < self@.entries.len() {
                    Some(self@.entries[e as int])
                } else {
                    None
                },
                None => None,
            },
    {
        let Some(idx) = self.selected_entry_idx() else {
            return None;
        };
        if idx < self.entries.len() {
            let e = &self.entries[idx];
            Some(
                Entry {
                    hash: e.hash.clone(),
                    message: e.message.clone(),
                    relative_time: e.relative_time.clone(),
                    timestamp: e.timestamp,
                },
            )
        } else {
            None
        }
    }

    /// The action that loads what `load` asks for.
    fn load_action(load: Option<DiffLoad>) -> (a: Action)
        ensures
            a@ == load_action(opt_load_view(load)),
    {
        match load {
            Some(l) => Action::Load(l),
            None => Action::Continue,
        }
    }

    /// The selection set to row `i`, then followed by the diff pane.
    fn select_row(&mut self, i: usize) -> (a: Action)
        requires
            old(self)@.wf(),
            i < old(self)@.filtered_entries.len(),
        ensures
            (final(self)@, a@) == select_row(old(self)@, i),
            final(self)@.wf(),
    {
        self.selected = Some(i);
        let load = self.update_diff_if_visible();
        Self::load_action(load)
    }

    /// A key while the search query is being typed.
    fn search_key(&mut self, code: KeyCode) -> (a: Action)
        requires
            old(self)@.wf(),
        ensures
            (final(self)@, a@) == search_step(old(self)@, code),
            final(self)@.wf(),
    {
        match code {
            KeyCode::Esc => {
                self.search_mode = false;
                self.search_query = String::new();
                self.search_active = false;
                self.update_filter();
                if self.filtered_entries.len() > 0 {
                    self.selected = Some(0);
                }
                let load = self.update_diff_if_visible();
                Self::load_action(load)
            },
            KeyCode::Enter => {
                self.search_mode = false;
                self.search_active = !self.search_query.as_str().is_empty();
                Action::Continue
            },
            KeyCode::Backspace => {
                pop_char(&mut self.search_query);
                self.update_filter();
                let load = self.update_diff_if_visible();
                Self::load_action(load)
            },
            KeyCode::Char(c) => {
                push_char(&mut self.search_query, c);
                self.update_filter();
                let load = self.update_diff_if_visible();
                Self::load_action(load)
            },
            _ => Action::Continue,
        }
    }

    /// A key while the restore confirmation dialog is open.
    fn confirm_key(&mut self, code: KeyCode) -> (a: Action)
        requires
            old(self)@.wf(),
        ensures
            (final(self)@, a@) == confirm_step(old(self)@, code),
            final(self)@.wf(),
    {
        match code {
            KeyCode::Char(c) => {
                if c == 'y' || c == 'Y' {
                    match self.restore_selected() {
                        Some(e) => Action::Restore(e),
                        None => Action::Quit,
                    }
                } else if c == 'n' || c == 'N' {
                    self.cancel_confirmation();
                    Action::Continue
                } else {
                    Action::Continue
                }
            },
            KeyCode::Esc => {
                self.cancel_confirmation();
                Action::Continue
            },
            _ => Action::Continue,
        }
    }

    /// Moving down: one row, or one diff line with Shift while the diff pane is open.
    fn down_key(&mut self, shift: bool) -> (a: Action)
        requires
            old(self)@.wf(),
            old(self)@.show_diff && shift ==> old(self)@.diff_scroll_offset < u16::MAX,
        ensures
            (final(self)@, a@) == down_step(old(self)@, shift),
            final(self)@.wf(),
    {
        if self.show_diff && shift {
            self.scroll_diff_down();
            Action::Continue
        } else if self.filtered_entries.len() == 0 {
            Action::Continue
        } else {
            let load = self.next();
            Self::load_action(load)
        }
    }

    /// Moving up: one row, or one diff line with Shift while the diff pane is open.
    fn up_key(&mut self, shift: bool) -> (a: Action)
        requires
            old(self)@.wf(),
        ensures
            (final(self)@, a@) == up_step(old(self)@, shift),
            final(self)@.wf(),
    {
        if self.show_diff && shift {
            self.scroll_diff_up();
            Action::Continue
        } else if self.filtered_entries.len() == 0 {
            Action::Continue
        } else {
            let load = self.previous();
            Self::load_action(load)
        }
    }

    /// A character key in the timeline.
    fn char_key(&mut self, c: char, shift: bool) -> (a: Action)
        requires
            old(self)@.wf(),
            !(old(self)@.show_diff && (c == 'J' || (shift && c == 'j'))
                && old(self)@.diff_scroll_offset == u16::MAX),
        ensures
            (final(self)@, a@) == char_step(old(self)@, c, shift),
            final(self)@.wf(),
    {
        if c == 'q' {
            Action::Quit
        } else if c == '/' {
            self.search_mode = true;
            Action::Continue
        } else if c == 'j' {
            self.down_key(shift)
        } else if c == 'k' {
            self.up_key(shift)
        } else if c == 'J' {
            if self.show_diff {
                self.scroll_diff_down();
            }
            Action::Continue
        } else if c == 'K' {
            if self.show_diff {
                self.scroll_diff_up();
            }
            Action::Continue
        } else if c == ' ' {
            let load = self.toggle_diff();
            Self::load_action(load)
        } else if c == 'd' {
            let load = self.toggle_diff_mode();
            Self::load_action(load)
        } else if c == 't' {
            self.show_absolute_time = !self.show_absolute_time;
            Action::Continue
        } else {
            Action::Continue
        }
    }

    /// A key in the timeline, with no search being typed and no dialog open.
    fn normal_key(&mut self, key: KeyInput) -> (a: Action)
        requires
            old(self)@.wf(),
            !old(self)@.search_mode,
            !old(self)@.show_confirmation,
            key.press,
            !(key_scrolls_down(old(self)@, key) && old(self)@.diff_scroll_offset == u16::MAX),
        ensures
            (final(self)@, a@) == normal_step(old(self)@, key),
            final(self)@.wf(),
    {
        let len = self.filtered_entries.len();
        match key.code {
            KeyCode::Char(c) => self.char_key(c, key.shift),
            KeyCode::Esc => {
                if self.search_active {
                    self.clear_filter();
                    let load = self.update_diff_if_visible();
                    Self::load_action(load)
                } else {
                    Action::Quit
                }
            },
            KeyCode::Down => self.down_key(key.shift),
            KeyCode::Up => self.up_key(key.shift),
            KeyCode::Home => {
                if len > 0 {
                    self.select_row(0)
                } else {
                    Action::Continue
                }
            },
            KeyCode::End => {
                if len > 0 {
                    self.select_row(len - 1)
                } else {
                    Action::Continue
                }
            },
            KeyCode::PageDown => {
                if len > 0 {
                    let current = self.selected_index();
                    let last = len - 1;
                    let row = if current <= last && last - current >= 10 {
                        current + 10
                    } else {
                        last
                    };
                    self.select_row(row)
                } else {
                    Action::Continue
                }
            },
            KeyCode::PageUp => {
                if len > 0 {
                    let current = self.selected_index();
                    let row = current.saturating_sub(10);
                    self.select_row(row)
                } else {
                    Action::Continue
                }
            },
            KeyCode::Enter => {
                if self.selected_entry_idx().is_some() {
                    self.show_confirmation_dialog();
                }
                Action::Continue
            },
            _ => Action::Continue,
        }
    }

    /// Handles one key event and says what the caller does next.
    pub fn handle_key(&mut self, key: KeyInput) -> (a: Action)
        requires
            old(self)@.wf(),
            !(key_scrolls_down(old(self)@, key) && old(self)@.diff_scroll_offset == u16::MAX),
        ensures
            (final(self)@, a@) == step(old(self)@, key),
            final(self)@.wf(),
    {
        if !key.press {
            Action::Continue
        } else if self.search_mode {
            self.search_key(key.code)
        } else if self.show_confirmation {
            self.confirm_key(key.code)
        } else {
            self.normal_key(key)
        }
    }

    /// Whether `key` would scroll the diff down; the caller must not hand
    /// such a key to `handle_key` while the scroll offset is `u16::MAX`.
    pub fn scrolls_down(&self, key: KeyInput) -> (r: bool)
        ensures
            r == key_scrolls_down(self@, key),
    {
        key.press && !self.search_mode && !self.show_confirmation && self.show_diff && (key.code
            == KeyCode::Char('J') || (key.shift && (key.code == KeyCode::Down || key.code
            == KeyCode::Char('j'))))
    }

    /// The current scroll offset of the diff pane.
    pub fn diff_scroll_offset(&self) -> (r: u16)
        ensures
            r == self@.diff_scroll_offset,
    {
        self.diff_scroll_offset
    }

    /// The rows of the list.
    pub fn rows(&self) -> (r: Vec<Row>)
        ensures
            r@ == self@.rows(),
    {
        let sel = self.selected_index();
        let n = self.filtered_entries.len();
        let mut rows: Vec<Row> = Vec::new();
        for i in 0..n
            invariant
                n == self@.filtered_entries.len(),
                sel == self@.selected_index(),
                rows@ =~= self@.rows().take(i as int),
        {
            rows.push(Row { entry: self.filtered_entries[i], selected: i == sel });
        }
        proof {
            assert(self@.rows().take(n as int) =~= self@.rows());
        }
        rows
    }

    /// The entries of the timeline, newest first.
    pub fn entries(&self) -> (r: &Vec<Entry>)
        ensures
            r@.map_values(|e: Entry| e@) == self@.entries,
    {
        &self.entries
    }

    /// The positions of the entries the filter keeps, in list order.
    pub fn filtered_entries(&self) -> (r: &Vec<usize>)
        ensures
            r@ == self@.filtered_entries,
    {
        &self.filtered_entries
    }

    /// The selected row, if any.
    pub fn selected(&self) -> (r: Option<usize>)
        ensures
            r == self@.selected,
    {
        self.selected
    }

    /// The search query.
    pub fn search_query(&self) -> (r: &str)
        ensures
            r@ == self@.search_query,
    {
        self.search_query.as_str()
    }

    /// The restore confirmation dialog is open.
    pub fn show_confirmation(&self) -> (r: bool)
        ensures
            r == self@.show_confirmation,
    {
        self.show_confirmation
    }

    /// The diff pane is open.
    pub fn show_diff(&self) -> (r: bool)
        ensures
            r == self@.show_diff,
    {
        self.show_diff
    }

    /// The diff pane shows the full diff rather than the summary.
    pub fn show_full_diff(&self) -> (r: bool)
        ensures
            r == self@.show_full_diff,
    {
        self.show_full_diff
    }

    /// A search query is being typed.
    pub fn search_mode(&self) -> (r: bool)
        ensures
            r == self@.search_mode,
    {
        self.search_mode
    }

    /// A search filter is applied.
    pub fn search_active(&self) -> (r: bool)
        ensures
            r == self@.search_active,
    {
        self.search_active
    }

    /// Times are shown as dates rather than ages.
    pub fn show_absolute_time(&self) -> (r: bool)
        ensures
            r == self@.show_absolute_time,
    {
        self.show_absolute_time
    }

    /// The working tree has changes that a restore would discard.
    pub fn has_uncommitted_changes(&self) -> (r: bool)
        ensures
            r == self@.has_uncommitted_changes,
    {
        self.has_uncommitted_changes
    }

    /// The number of diff lines the pane shows at once.
    pub fn diff_visible_height(&self) -> (r: u16)
        ensures
            r == self@.diff_visible_height,
    {
        self.diff_visible_height
    }

    /// Records the height of the diff pane's area: two rows go to its border.
    pub fn set_diff_visible_height(&mut self, area_height: u16)
        ensures
            final(self)@ == (AppView {
                diff_visible_height: if area_height >= 2 {
                    (area_height - 2) as u16
                } else {
                    0u16
                },
                ..old(self)@
            }),
    {
        self.diff_visible_height = area_height.saturating_sub(2);
    }

    /// Matches are highlighted in the list: a search is typed or applied and
    /// its query has a word.
    pub fn highlight_query(&self) -> (r: bool)
        ensures
            r == ((self@.search_active || self@.search_mode) && query_tokens(
                self@.search_query,
            ).len() > 0),
    {
        let lower_query = to_lowercase(self.search_query.as_str());
        let query_chars = chars_of(lower_query.as_str());
        let tokens = split_whitespace(&query_chars);
        (self.search_active || self.search_mode) && tokens.len() > 0
    }
}

} // verus!
