//! The texts the viewer shows: short hashes, counts, the footer line.
use vstd::prelude::*;
use vstd::string::StringSliceAdditionalSpecFns;
use vstd::utf8::{decode_utf8, encode_utf8, is_char_boundary};
use vstd::string::StringExecFns;
use crate::timeline::{App, AppView};

verus! {

broadcast use vstd::string::group_string_axioms;

/// The hash can be shortened: its 7th byte ends a character.
pub open spec fn hash_ok(hash: Seq<char>) -> bool {
    is_char_boundary(encode_utf8(hash), 7)
}

/// The short form of a hash: the characters of its first 7 bytes.
pub open spec fn short_hash_of(hash: Seq<char>) -> Seq<char> {
    decode_utf8(encode_utf8(hash).subrange(0, 7))
}

/// Decides whether `hash` can be shortened to its first 7 bytes.
pub fn hash_is_displayable(hash: &str) -> (r: bool)
    ensures
        r == hash_ok(hash@),
{
    hash.is_char_boundary(7)
}

/// The first 7 bytes of a hash, as a string.
pub fn short_hash(hash: &str) -> (r: String)
    requires
        hash_ok(hash@),
    ensures
        r@ == short_hash_of(hash@),
        encode_utf8(r@) == encode_utf8(hash@).subrange(0, 7),
{
    broadcast use vstd::utf8::group_utf8_lib;

    let (head, _) = hash.split_at(7);
    let r = head.to_owned();
    proof {
        vstd::utf8::encode_utf8_decode_utf8(head@);
    }
    r
}

/// The decimal digit for `d` below 10.
pub open spec fn digit_char(d: nat) -> char {
    ((48 + d) as u8) as char
}

/// The decimal form of `n`, as `usize::to_string` writes it.
pub open spec fn decimal(n: nat) -> Seq<char>
    decreases n,
{
    if n < 10 {
        seq![digit_char(n)]
    } else {
        decimal(n / 10).push(digit_char(n % 10))
    }
}

fn push_decimal(out: &mut String, n: usize)
    ensures
        final(out)@ == old(out)@ + decimal(n as nat),
    decreases n,
{
    if n >= 10 {
        push_decimal(out, n / 10);
    }
    let d = (n % 10) as u8;
    let c = (48u8 + d) as char;
    crate::text::push_char(out, c);
    proof {
        assert(c == digit_char((n % 10) as nat));
        if n >= 10 {
            assert(decimal(n as nat) == decimal((n / 10) as nat).push(digit_char((n % 10) as nat)));
        } else {
            assert(decimal(n as nat) == seq![digit_char(n as nat)]);
        }
    }
}

/// The decimal form of `n`.
pub fn decimal_string(n: usize) -> (r: String)
    ensures
        r@ == decimal(n as nat),
{
    let mut s = String::new();
    push_decimal(&mut s, n);
    proof {
        assert(Seq::<char>::empty() + decimal(n as nat) =~= decimal(n as nat));
    }
    s
}

/// The footer line, by what the viewer is doing.
pub enum Footer {
    /// The restore confirmation question.
    Confirm(String),
    /// A search being typed: the query and the match count text.
    Search { query: String, matches: String },
    /// An applied search filter.
    Filtered(String),
    /// What Enter would restore.
    Preview(String),
}

/// The mathematical value of a [`Footer`].
pub enum FooterView {
    Confirm(Seq<char>),
    Search { query: Seq<char>, matches: Seq<char> },
    Filtered(Seq<char>),
    Preview(Seq<char>),
}

impl View for Footer {
    type V = FooterView;

    open spec fn view(&self) -> FooterView {
        match self {
            Footer::Confirm(t) => FooterView::Confirm(t@),
            Footer::Search { query, matches } => FooterView::Search {
                query: query@,
                matches: matches@,
            },
            Footer::Filtered(t) => FooterView::Filtered(t@),
            Footer::Preview(t) => FooterView::Preview(t@),
        }
    }
}

/// The text of the restore confirmation question.
pub open spec fn confirm_text(s: AppView) -> Seq<char> {
    match s.selected_entry() {
        Some(e) => if e < s.entries.len() {
            let entry = s.entries[e as int];
            if s.has_uncommitted_changes {
                "⚠️  CONFIRM: Reset to "@ + short_hash_of(entry.hash) + " - "@ + entry.message
                    + "? This will discard uncommitted changes! [y/N]"@
            } else {
                "⚠️  CONFIRM: Reset to "@ + short_hash_of(entry.hash) + " - "@ + entry.message
                    + "? [y/N]"@
            }
        } else {
            "No entry selected"@
        },
        None => "No entry selected"@,
    }
}

/// The match count text while a search is typed.
pub open spec fn matches_text(s: AppView) -> Seq<char> {
    "("@ + decimal(s.filtered_entries.len()) + " matches)"@
}

/// The footer text of an applied filter.
pub open spec fn filtered_text(s: AppView) -> Seq<char> {
    "🔍 Filtered: "@ + s.search_query + " ("@ + decimal(s.filtered_entries.len())
        + " matches) | / to edit | Esc to clear"@
}

/// The footer text that previews the restore target: the selected entry, or
/// the first entry when nothing is selected.
pub open spec fn preview_text(s: AppView) -> Seq<char> {
    let e = match s.selected_entry() {
        Some(e) => e,
        None => 0,
    };
    if e < s.entries.len() {
        let entry = s.entries[e as int];
        "📍 Will restore to: "@ + short_hash_of(entry.hash) + " - "@ + entry.message
            + " | / to search | Space for diff"@
    } else {
        "No entries found"@
    }
}

/// The footer: the dialog first, then a search being typed, then an applied
/// filter, then the restore preview.
pub open spec fn footer_of(s: AppView) -> FooterView {
    if s.show_confirmation {
        FooterView::Confirm(confirm_text(s))
    } else if s.search_mode {
        FooterView::Search { query: s.search_query, matches: matches_text(s) }
    } else if s.search_active {
        FooterView::Filtered(filtered_text(s))
    } else {
        FooterView::Preview(preview_text(s))
    }
}

/// The text shown in the diff pane while its content is still empty.
pub open spec fn pane_text(content: Seq<char>) -> Seq<char> {
    if content.len() == 0 {
        "Loading diff..."@
    } else {
        content
    }
}

impl App {
    /// The text of the restore confirmation question.
    fn confirm_text(&self) -> (r: String)
        requires
            self@.wf(),
        ensures
            r@ == confirm_text(self@),
    {
        let entries = self.entries();
        match self.selected_entry_idx() {
            Some(e) => {
                if e < entries.len() {
                    let entry = &entries[e];
                    proof {
                        assert(self@.entries[e as int] == entry@);
                        assert(hash_ok(self@.entries[e as int].hash));
                    }
                    let mut t = String::new();
                    t.append("⚠️  CONFIRM: Reset to ");
                    let short = short_hash(entry.hash.as_str());
                    t.append(short.as_str());
                    t.append(" - ");
                    t.append(entry.message.as_str());
                    if self.has_uncommitted_changes() {
                        t.append("? This will discard uncommitted changes! [y/N]");
                    } else {
                        t.append("? [y/N]");
                    }
                    proof {
                        assert(t@ =~= confirm_text(self@));
                    }
                    t
                } else {
                    "No entry selected".to_owned()
                }
            },
            None => "No entry selected".to_owned(),
        }
    }

    /// The footer text of an applied filter.
    fn filtered_text(&self) -> (r: String)
        ensures
            r@ == filtered_text(self@),
    {
        let mut t = String::new();
        t.append("🔍 Filtered: ");
        t.append(self.search_query());
        t.append(" (");
        let count = decimal_string(self.filtered_entries().len());
        t.append(count.as_str());
        t.append(" matches) | / to edit | Esc to clear");
        proof {
            assert(t@ =~= filtered_text(self@));
        }
        t
    }

    /// The footer text that previews the restore target.
    fn preview_text(&self) -> (r: String)
        requires
            self@.wf(),
        ensures
            r@ == preview_text(self@),
    {
        let entries = self.entries();
        let e = match self.selected_entry_idx() {
            Some(e) => e,
            None => 0,
        };
        if e < entries.len() {
            let entry = &entries[e];
            proof {
                assert(self@.entries[e as int] == entry@);
                assert(hash_ok(self@.entries[e as int].hash));
            }
            let mut t = String::new();
            t.append("📍 Will restore to: ");
            let short = short_hash(entry.hash.as_str());
            t.append(short.as_str());
            t.append(" - ");
            t.append(entry.message.as_str());
            t.append(" | / to search | Space for diff");
            proof {
                assert(t@ =~= preview_text(self@));
            }
            t
        } else {
            "No entries found".to_owned()
        }
    }

    /// The footer line.
    pub fn footer(&self) -> (r: Footer)
        requires
            self@.wf(),
        ensures
            r@ == footer_of(self@),
    {
        if self.show_confirmation() {
            Footer::Confirm(self.confirm_text())
        } else if self.search_mode() {
            let mut matches = String::new();
            matches.append("(");
            let count = decimal_string(self.filtered_entries().len());
            matches.append(count.as_str());
            matches.append(" matches)");
            proof {
                assert(matches@ =~= matches_text(self@));
            }
            Footer::Search { query: self.search_query().to_owned(), matches }
        } else if self.search_active() {
            Footer::Filtered(self.filtered_text())
        } else {
            Footer::Preview(self.preview_text())
        }
    }

    /// The text the diff pane shows: the active diff, or a loading notice
    /// while it is empty.
    pub fn diff_pane_text(&self) -> (r: &str)
        ensures
            r@ == pane_text(self@.active_diff()),
    {
        let content = self.active_diff_content();
        if content.is_empty() {
            "Loading diff..."
        } else {
            content
        }
    }
}

} // verus!
