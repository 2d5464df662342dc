//! Lines of a diff text, and how each diff line is shown.
use vstd::prelude::*;
use crate::text::{chars_of, string_from_chars};

verus! {

broadcast use vstd::string::group_string_axioms;

/// The pieces of `s` between newline characters; `k` newlines give `k + 1` pieces.
pub open spec fn newline_pieces(s: Seq<char>) -> Seq<Seq<char>>
    decreases s.len(),
{
    if s.len() == 0 {
        seq![Seq::empty()]
    } else {
        let p = newline_pieces(s.drop_last());
        if s.last() == '\n' {
            p.push(Seq::empty())
        } else {
            p.update(p.len() - 1, p.last().push(s.last()))
        }
    }
}

/// A line that ended in a newline loses one carriage return before it.
pub open spec fn strip_cr(l: Seq<char>) -> Seq<char> {
    if l.len() > 0 && l.last() == '\r' {
        l.drop_last()
    } else {
        l
    }
}

/// The lines of `s` as `str::lines` yields them: split at each `\n`, a `\r`
/// just before a `\n` removed, and no empty line after a final `\n`.
pub open spec fn lines_of(s: Seq<char>) -> Seq<Seq<char>> {
    let p = newline_pieces(s);
    let ended = Seq::new((p.len() - 1) as nat, |i: int| strip_cr(p[i]));
    if p.last().len() > 0 {
        ended.push(p.last())
    } else {
        ended
    }
}

/// The number of lines of `s`, as `str::lines().count()` gives it.
pub open spec fn line_count(s: Seq<char>) -> nat {
    lines_of(s).len()
}

pub proof fn lemma_newline_pieces_len(s: Seq<char>)
    ensures
        newline_pieces(s).len() >= 1,
        newline_pieces(s).len() <= s.len() + 1,
    decreases s.len(),
{
    if s.len() > 0 {
        lemma_newline_pieces_len(s.drop_last());
    }
}

/// Counts the lines of `s`.
pub fn count_lines(s: &str) -> (r: usize)
    ensures
        r == line_count(s@),
{
    let cs = chars_of(s);
    let n = cs.len();
    let mut newlines: usize = 0;
    let mut open_line: bool = false;
    proof {
        assert(cs@.take(0) =~= Seq::<char>::empty());
    }
    for i in 0..n
        invariant
            n == cs@.len(),
            newline_pieces(cs@.take(i as int)).len() == newlines + 1,
            open_line == (newline_pieces(cs@.take(i as int)).last().len() > 0),
            newlines <= i,
            open_line ==> newlines < i,
    {
        proof {
            assert(cs@.take(i + 1).drop_last() =~= cs@.take(i as int));
            lemma_newline_pieces_len(cs@.take(i as int));
        }
        if cs[i] == '\n' {
            newlines = newlines + 1;
            open_line = false;
        } else {
            open_line = true;
        }
    }
    proof {
        assert(cs@.take(n as int) =~= s@);
    }
    if open_line {
        newlines + 1
    } else {
        newlines
    }
}

/// Splits `s` into its lines, as `str::lines` does.
pub fn split_lines(s: &str) -> (r: Vec<String>)
    ensures
        r.deep_view() == lines_of(s@),
{
    let cs = chars_of(s);
    let n = cs.len();
    let mut done: Vec<String> = Vec::new();
    let mut cur: Vec<char> = Vec::new();
    proof {
        assert(cs@.take(0) =~= Seq::<char>::empty());
    }
    for i in 0..n
        invariant
            n == cs@.len(),
            newline_pieces(cs@.take(i as int)).len() == done.len() + 1,
            newline_pieces(cs@.take(i as int)).last() == cur@,
            forall|j: int|
                0 <= j < done.len() ==> #[trigger] done[j]@ == strip_cr(
                    newline_pieces(cs@.take(i as int))[j],
                ),
    {
        let ghost p = newline_pieces(cs@.take(i as int));
        proof {
            assert(cs@.take(i + 1).drop_last() =~= cs@.take(i as int));
        }
        if cs[i] == '\n' {
            if cur.len() > 0 && cur[cur.len() - 1] == '\r' {
                cur.pop();
            }
            let line = string_from_chars(&cur);
            done.push(line);
            cur = Vec::new();
            proof {
                let q = newline_pieces(cs@.take(i + 1));
                assert(q == p.push(Seq::empty()));
                assert forall|j: int| 0 <= j < done.len() implies #[trigger] done[j]@ == strip_cr(
                    q[j],
                ) by {
                    if j < done.len() - 1 {
                        assert(q[j] == p[j]);
                    } else {
                        assert(q[j] == p.last());
                        if p.last().len() > 0 && p.last().last() == '\r' {
                            assert(done[j]@ =~= p.last().drop_last());
                        }
                    }
                }
                assert(cur@ =~= Seq::<char>::empty());
            }
        } else {
            cur.push(cs[i]);
            proof {
                let q = newline_pieces(cs@.take(i + 1));
                assert forall|j: int| 0 <= j < done.len() implies #[trigger] done[j]@ == strip_cr(
                    q[j],
                ) by {
                    assert(q[j] == p[j]);
                }
            }
        }
    }
    proof {
        assert(cs@.take(n as int) =~= s@);
    }
    if cur.len() > 0 {
        let line = string_from_chars(&cur);
        done.push(line);
    }
    proof {
        assert(done.deep_view() =~= lines_of(s@));
    }
    done
}

/// How a line of a full diff is shown.
#[derive(Clone, Copy, Debug, PartialEq, Eq, Structural)]
pub enum DiffLineKind {
    /// An added line, `+` but not `+++`.
    Added,
    /// A removed line, `-` but not `---`.
    Removed,
    /// A hunk header, `@@`.
    Hunk,
    /// A file header, `diff ` or `index `.
    FileHeader,
    /// Any other line.
    Plain,
}

/// `p` is a prefix of `l`.
pub open spec fn has_prefix(l: Seq<char>, p: Seq<char>) -> bool {
    p.len() <= l.len() && l.subrange(0, p.len() as int) == p
}

/// The kind of a diff line, tested in the order the viewer tests it.
pub open spec fn diff_line_kind(l: Seq<char>) -> DiffLineKind {
    if has_prefix(l, seq!['+']) && !has_prefix(l, seq!['+', '+', '+']) {
        DiffLineKind::Added
    } else if has_prefix(l, seq!['-']) && !has_prefix(l, seq!['-', '-', '-']) {
        DiffLineKind::Removed
    } else if has_prefix(l, seq!['@', '@']) {
        DiffLineKind::Hunk
    } else if has_prefix(l, seq!['d', 'i', 'f', 'f', ' ']) || has_prefix(
        l,
        seq!['i', 'n', 'd', 'e', 'x', ' '],
    ) {
        DiffLineKind::FileHeader
    } else {
        DiffLineKind::Plain
    }
}

/// Decides whether `l` begins with the characters of `p`.
fn starts_with(l: &Vec<char>, p: &Vec<char>) -> (r: bool)
    ensures
        r == has_prefix(l@, p@),
{
    if p.len() > l.len() {
        return false;
    }
    let mut k: usize = 0;
    while k < p.len()
        invariant
            p.len() <= l.len(),
            k <= p.len(),
            forall|j: int| 0 <= j < k ==> l@[j] == p@[j],
        decreases p.len() - k,
    {
        if l[k] != p[k] {
            proof {
                assert(l@.subrange(0, p.len() as int)[k as int] != p@[k as int]);
            }
            return false;
        }
        k = k + 1;
    }
    proof {
        assert(l@.subrange(0, p.len() as int) =~= p@);
    }
    true
}

/// Classifies a line of a full diff.
pub fn classify_diff_line(line: &str) -> (r: DiffLineKind)
    ensures
        r == diff_line_kind(line@),
{
    let l = chars_of(line);
    let plus = vec!['+'];
    let plus3 = vec!['+', '+', '+'];
    let minus = vec!['-'];
    let minus3 = vec!['-', '-', '-'];
    let hunk = vec!['@', '@'];
    let diff = vec!['d', 'i', 'f', 'f', ' '];
    let index = vec!['i', 'n', 'd', 'e', 'x', ' '];
    proof {
        assert(plus@ =~= seq!['+']);
        assert(plus3@ =~= seq!['+', '+', '+']);
        assert(minus@ =~= seq!['-']);
        assert(minus3@ =~= seq!['-', '-', '-']);
        assert(hunk@ =~= seq!['@', '@']);
        assert(diff@ =~= seq!['d', 'i', 'f', 'f', ' ']);
        assert(index@ =~= seq!['i', 'n', 'd', 'e', 'x', ' ']);
    }
    if starts_with(&l, &plus) && !starts_with(&l, &plus3) {
        DiffLineKind::Added
    } else if starts_with(&l, &minus) && !starts_with(&l, &minus3) {
        DiffLineKind::Removed
    } else if starts_with(&l, &hunk) {
        DiffLineKind::Hunk
    } else if starts_with(&l, &diff) || starts_with(&l, &index) {
        DiffLineKind::FileHeader
    } else {
        DiffLineKind::Plain
    }
}

} // verus!
