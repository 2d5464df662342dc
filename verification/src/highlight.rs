//! Highlighting of search matches inside a message.
use vstd::prelude::*;
use vstd::string::StringSliceAdditionalSpecFns;
use vstd::utf8::encode_utf8;
use crate::text::{
    chars_of, lower_form, occurs_at, split_whitespace, string_from_chars, to_lowercase, words,
};

verus! {

broadcast use vstd::string::group_string_axioms;

/// A run of a message shown in one style: the bytes `start..end`, shown
/// highlighted or plain.
#[derive(Clone, Copy, Debug, PartialEq, Eq, Structural)]
pub struct Segment {
    pub start: usize,
    pub end: usize,
    pub highlighted: bool,
}

/// The positions at which `n` is found in `h` by searching from `start`,
/// taking the leftmost match each time and going on after its end.
pub open spec fn occurrences(h: Seq<u8>, n: Seq<u8>, start: int) -> Seq<int>
    decreases h.len() - start,
{
    if n.len() == 0 || start < 0 || start + n.len() > h.len() {
        seq![]
    } else if occurs_at(h, n, start) {
        seq![start] + occurrences(h, n, start + n.len())
    } else {
        occurrences(h, n, start + 1)
    }
}

/// Position `i` lies in one of the matches of length `len` starting at `ps`.
pub open spec fn covered_by(ps: Seq<int>, len: int, i: int) -> bool {
    exists|j: int| 0 <= j < ps.len() && #[trigger] ps[j] <= i < ps[j] + len
}

/// Position `i` of `h` lies in a match of one of the first `k` tokens.
pub open spec fn covered_upto(h: Seq<u8>, tokens: Seq<Seq<u8>>, k: int, i: int) -> bool {
    exists|t: int|
        0 <= t < k && covered_by(occurrences(h, #[trigger] tokens[t], 0), tokens[t].len() as int, i)
}

/// Position `i` of `h` lies in a match of some token.
pub open spec fn covered(h: Seq<u8>, tokens: Seq<Seq<u8>>, i: int) -> bool {
    covered_upto(h, tokens, tokens.len() as int, i)
}

/// One past the last covered position below `m`, or 0 when there is none.
pub open spec fn covered_end_below(h: Seq<u8>, tokens: Seq<Seq<u8>>, m: int) -> int
    decreases m,
{
    if m <= 0 {
        0
    } else if covered(h, tokens, m - 1) {
        m
    } else {
        covered_end_below(h, tokens, m - 1)
    }
}

/// The end of the furthest match in `h`, or 0 when nothing matches.
pub open spec fn covered_end(h: Seq<u8>, tokens: Seq<Seq<u8>>) -> int {
    covered_end_below(h, tokens, h.len() as int)
}

/// `segs` splits `0..n` into consecutive non-empty runs, each run flagged as
/// `flag` says for all its positions, and neighbouring runs flagged differently.
pub open spec fn runs_of(segs: Seq<Segment>, flag: spec_fn(int) -> bool, n: int) -> bool {
    &&& (segs.len() == 0 <==> n == 0)
    &&& segs.len() > 0 ==> segs[0].start == 0 && segs.last().end == n
    &&& forall|k: int| 0 <= k < segs.len() ==> #[trigger] segs[k].start < segs[k].end
    &&& forall|k: int|
        0 <= k < segs.len() - 1 ==> #[trigger] segs[k].end == segs[k + 1].start
            && segs[k].highlighted != segs[k + 1].highlighted
    &&& forall|k: int, i: int|
        #![trigger segs[k], flag(i)]
        0 <= k < segs.len() && segs[k].start <= i < segs[k].end ==> flag(i)
            == segs[k].highlighted
}

/// The positions shown highlighted: those covered by a match.
pub open spec fn highlight_flag(h: Seq<u8>, tokens: Seq<Seq<u8>>) -> spec_fn(int) -> bool {
    |i: int| covered(h, tokens, i)
}

/// How far the segments reach: the message, or the furthest match when that
/// ends beyond it.
pub open spec fn segments_end(msg_len: int, h: Seq<u8>, tokens: Seq<Seq<u8>>) -> int {
    if msg_len >= covered_end(h, tokens) {
        msg_len
    } else {
        covered_end(h, tokens)
    }
}

/// Every match lies inside `h`.
proof fn lemma_occurrences_inside(h: Seq<u8>, n: Seq<u8>, start: int)
    ensures
        forall|j: int|
            0 <= j < occurrences(h, n, start).len() ==> start <= #[trigger] occurrences(
                h,
                n,
                start,
            )[j] && occurrences(h, n, start)[j] + n.len() <= h.len(),
    decreases h.len() - start,
{
    if n.len() == 0 || start < 0 || start + n.len() > h.len() {
        assert(occurrences(h, n, start).len() == 0);
    } else if occurs_at(h, n, start) {
        lemma_occurrences_inside(h, n, start + n.len());
        let o = occurrences(h, n, start);
        let r = occurrences(h, n, start + n.len());
        assert(o == seq![start] + r);
        assert forall|j: int| 0 <= j < o.len() implies start <= #[trigger] o[j] && o[j] + n.len()
            <= h.len() by {
            if j > 0 {
                assert(o[j] == r[j - 1]);
            }
        }
    } else {
        lemma_occurrences_inside(h, n, start + 1);
        assert(occurrences(h, n, start) == occurrences(h, n, start + 1));
    }
}

/// Covered positions lie inside `h`.
proof fn lemma_covered_inside(h: Seq<u8>, tokens: Seq<Seq<u8>>, i: int)
    requires
        covered(h, tokens, i),
    ensures
        0 <= i < h.len(),
{
    let t = choose|t: int|
        0 <= t < tokens.len() && covered_by(
            occurrences(h, #[trigger] tokens[t], 0),
            tokens[t].len() as int,
            i,
        );
    let ps = occurrences(h, tokens[t], 0);
    lemma_occurrences_inside(h, tokens[t], 0);
    let j = choose|j: int| 0 <= j < ps.len() && #[trigger] ps[j] <= i < ps[j] + tokens[t].len();
    assert(0 <= ps[j]);
}

/// Decides whether `n` occurs in `h` at position `p`.
fn bytes_occur_at(h: &[u8], n: &Vec<u8>, p: usize) -> (r: bool)
    ensures
        r == occurs_at(h@, n@, p as int),
{
    if p > h.len() || n.len() > h.len() - p {
        return false;
    }
    let mut k: usize = 0;
    while k < n.len()
        invariant
            p + n.len() <= h.len(),
            k <= n.len(),
            forall|j: int| 0 <= j < k ==> h@[p + j] == n@[j],
        decreases n.len() - k,
    {
        if h[p + k] != n[k] {
            proof {
                assert(h@.subrange(p as int, p + n.len())[k as int] != n@[k as int]);
            }
            return false;
        }
        k = k + 1;
    }
    proof {
        assert(h@.subrange(p as int, p + n.len()) =~= n@);
    }
    true
}

/// Marks as covered every position of every match of `n` in `h`.
fn mark_token(h: &[u8], n: &Vec<u8>, cov: &mut Vec<bool>)
    requires
        n.len() > 0,
        old(cov).len() == h.len(),
    ensures
        final(cov).len() == h.len(),
        forall|i: int|
            0 <= i < h.len() ==> #[trigger] final(cov)@[i] == (old(cov)@[i] || covered_by(
                occurrences(h@, n@, 0),
                n.len() as int,
                i,
            )),
{
    let len = n.len();
    let mut pos: usize = 0;
    let ghost mut found: Seq<int> = Seq::empty();
    let ghost orig = cov@;
    while pos <= h.len() && len <= h.len() - pos
        invariant
            len == n.len(),
            len > 0,
            cov.len() == h.len(),
            pos <= h.len(),
            occurrences(h@, n@, 0) == found + occurrences(h@, n@, pos as int),
            forall|j: int| 0 <= j < found.len() ==> #[trigger] found[j] + len <= pos,
            forall|i: int|
                0 <= i < h.len() ==> #[trigger] cov@[i] == (orig[i] || covered_by(
                    found,
                    len as int,
                    i,
                )),
        decreases h.len() - pos,
    {
        if bytes_occur_at(h, n, pos) {
            let ghost before = cov@;
            let end = pos + len;
            let mut q = pos;
            while q < end
                invariant
                    pos <= q <= end,
                    end == pos + len,
                    end <= h.len(),
                    cov.len() == h.len(),
                    forall|i: int|
                        0 <= i < h.len() ==> #[trigger] cov@[i] == (before[i] || (pos <= i < q)),
                decreases end - q,
            {
                cov.set(q, true);
                q = q + 1;
            }
            proof {
                let nf = found.push(pos as int);
                assert(occurrences(h@, n@, pos as int) == seq![pos as int] + occurrences(
                    h@,
                    n@,
                    end as int,
                ));
                assert(found + occurrences(h@, n@, pos as int) =~= nf + occurrences(
                    h@,
                    n@,
                    end as int,
                ));
                assert forall|i: int| 0 <= i < h.len() implies #[trigger] cov@[i] == (orig[i]
                    || covered_by(nf, len as int, i)) by {
                    if covered_by(found, len as int, i) {
                        let j = choose|j: int| 0 <= j < found.len() && #[trigger] found[j] <= i < found[j] + len;
                        assert(nf[j] == found[j]);
                    }
                    if pos <= i < end {
                        assert(nf[found.len() as int] == pos);
                    }
                    if covered_by(nf, len as int, i) {
                        let j = choose|j: int| 0 <= j < nf.len() && #[trigger] nf[j] <= i < nf[j] + len;
                        if j < found.len() {
                            assert(nf[j] == found[j]);
                        }
                    }
                }
                found = nf;
            }
            pos = end;
        } else {
            pos = pos + 1;
        }
    }
    proof {
        assert(occurrences(h@, n@, pos as int) =~= Seq::<int>::empty());
        assert(found + occurrences(h@, n@, pos as int) =~= found);
    }
}

/// The segments of a message of `msg_len` bytes whose lower-case form is
/// `lower`: the positions covered by a match of some token (in `lower`) are
/// highlighted, the rest plain, over the message or the furthest match,
/// whichever ends later.
pub fn highlight_ranges(msg_len: usize, lower: &[u8], tokens: &Vec<Vec<u8>>) -> (segs: Vec<
    Segment,
>)
    requires
        forall|k: int| 0 <= k < tokens.len() ==> #[trigger] tokens[k].len() > 0,
    ensures
        runs_of(
            segs@,
            highlight_flag(lower@, tokens.deep_view()),
            segments_end(msg_len as int, lower@, tokens.deep_view()),
        ),
{
    let ghost toks = tokens.deep_view();
    let mut cov: Vec<bool> = Vec::new();
    let mut z: usize = 0;
    while z < lower.len()
        invariant
            z <= lower.len(),
            cov.len() == z,
            forall|i: int| 0 <= i < z ==> !#[trigger] cov@[i],
        decreases lower.len() - z,
    {
        cov.push(false);
        z = z + 1;
    }
    let mut k: usize = 0;
    while k < tokens.len()
        invariant
            k <= tokens.len(),
            toks == tokens.deep_view(),
            cov.len() == lower.len(),
            forall|t: int| 0 <= t < tokens.len() ==> #[trigger] tokens[t].len() > 0,
            forall|i: int|
                0 <= i < lower.len() ==> #[trigger] cov@[i] == covered_upto(
                    lower@,
                    toks,
                    k as int,
                    i,
                ),
        decreases tokens.len() - k,
    {
        let ghost before = cov@;
        proof {
            assert(tokens[k as int].deep_view() =~= tokens[k as int]@);
            assert(toks[k as int] == tokens[k as int]@);
        }
        mark_token(lower, &tokens[k], &mut cov);
        proof {
            assert forall|i: int| 0 <= i < lower.len() implies #[trigger] cov@[i] == covered_upto(
                lower@,
                toks,
                k + 1,
                i,
            ) by {
                if covered_upto(lower@, toks, k + 1, i) && !covered_upto(lower@, toks, k as int, i) {
                    let t = choose|t: int|
                        0 <= t < k + 1 && covered_by(
                            occurrences(lower@, #[trigger] toks[t], 0),
                            toks[t].len() as int,
                            i,
                        );
                    assert(t == k);
                }
                if covered_upto(lower@, toks, k as int, i) {
                    let t = choose|t: int|
                        0 <= t < k && covered_by(
                            occurrences(lower@, #[trigger] toks[t], 0),
                            toks[t].len() as int,
                            i,
                        );
                    assert(0 <= t < k + 1);
                }
                if covered_by(occurrences(lower@, toks[k as int], 0), toks[k as int].len() as int, i) {
                    assert(0 <= k < k + 1);
                }
            }
        }
        k = k + 1;
    }
    // The end of the furthest match.
    let mut m: usize = lower.len();
    while m > 0 && !cov[m - 1]
        invariant
            m <= lower.len(),
            cov.len() == lower.len(),
            toks == tokens.deep_view(),
            forall|i: int| 0 <= i < lower.len() ==> #[trigger] cov@[i] == covered(lower@, toks, i),
            covered_end_below(lower@, toks, m as int) == covered_end(lower@, toks),
        decreases m,
    {
        m = m - 1;
    }
    proof {
        assert(covered_end_below(lower@, toks, m as int) == m);
    }
    let n = if msg_len >= m {
        msg_len
    } else {
        m
    };
    let ghost flag = highlight_flag(lower@, toks);
    proof {
        assert forall|i: int| !(0 <= i < lower.len()) implies !#[trigger] flag(i) by {
            if covered(lower@, toks, i) {
                lemma_covered_inside(lower@, toks, i);
            }
        }
    }
    let mut segs: Vec<Segment> = Vec::new();
    let mut i: usize = 0;
    while i < n
        invariant
            i <= n,
            cov.len() == lower.len(),
            forall|x: int| 0 <= x < lower.len() ==> #[trigger] cov@[x] == flag(x),
            forall|x: int| !(0 <= x < lower.len()) ==> !#[trigger] flag(x),
            runs_of(segs@, flag, i as int),
            segs.len() > 0 && i < n ==> flag(i as int) != segs@.last().highlighted,
        decreases n - i,
    {
        let f = i < cov.len() && cov[i];
        let start = i;
        i = i + 1;
        while i < n && (i < cov.len() && cov[i]) == f
            invariant
                start < i <= n,
                cov.len() == lower.len(),
                forall|x: int| 0 <= x < lower.len() ==> #[trigger] cov@[x] == flag(x),
                forall|x: int| !(0 <= x < lower.len()) ==> !#[trigger] flag(x),
                forall|x: int| start <= x < i ==> #[trigger] flag(x) == f,
            decreases n - i,
        {
            i = i + 1;
        }
        let ghost old_segs = segs@;
        segs.push(Segment { start, end: i, highlighted: f });
        proof {
            let s = segs@;
            assert forall|kk: int, x: int|
                #![trigger s[kk], flag(x)]
                0 <= kk < s.len() && s[kk].start <= x < s[kk].end implies flag(x)
                == s[kk].highlighted by {
                if kk < old_segs.len() {
                    assert(s[kk] == old_segs[kk]);
                }
            }
            assert forall|kk: int| 0 <= kk < s.len() - 1 implies #[trigger] s[kk].end == s[kk
                + 1].start && s[kk].highlighted != s[kk + 1].highlighted by {
                if kk < old_segs.len() - 1 {
                    assert(s[kk] == old_segs[kk]);
                    assert(s[kk + 1] == old_segs[kk + 1]);
                } else {
                    assert(s[kk] == old_segs.last());
                }
            }
            assert forall|kk: int| 0 <= kk < s.len() implies #[trigger] s[kk].start < s[kk].end by {
                if kk < old_segs.len() {
                    assert(s[kk] == old_segs[kk]);
                }
            }
            if old_segs.len() > 0 {
                assert(s[0] == old_segs[0]);
            }
        }
    }
    segs
}

/// The tokens of a query as bytes: the UTF-8 forms of the words of its lower-case form.
pub open spec fn query_token_bytes(query: Seq<char>) -> Seq<Seq<u8>> {
    words(lower_form(query)).map_values(|w: Seq<char>| encode_utf8(w))
}

proof fn lemma_encode_non_empty(w: Seq<char>)
    requires
        w.len() > 0,
    ensures
        encode_utf8(w).len() > 0,
{
    assert(encode_utf8(w) == vstd::utf8::encode_scalar(w[0] as u32) + encode_utf8(w.drop_first()));
}

/// The segments in which a message is shown while `query` is searched: the
/// matches of the query's words in the lower-case message highlighted, as
/// byte ranges of the message. The ranges are found in the lower-case bytes,
/// so where lower-casing changes a message's byte length they may not fall on
/// its character boundaries or may reach past its end; slicing the message
/// with them then panics.
pub fn highlight_segments(message: &str, query: &str) -> (segs: Vec<Segment>)
    ensures
        runs_of(
            segs@,
            highlight_flag(encode_utf8(lower_form(message@)), query_token_bytes(query@)),
            segments_end(
                message.spec_bytes().len() as int,
                encode_utf8(lower_form(message@)),
                query_token_bytes(query@),
            ),
        ),
{
    let lower_query = to_lowercase(query);
    let query_chars = chars_of(lower_query.as_str());
    let words = split_whitespace(&query_chars);
    proof {
        crate::text::lemma_words_shape(lower_query@);
    }
    let mut tokens: Vec<Vec<u8>> = Vec::new();
    let mut k: usize = 0;
    while k < words.len()
        invariant
            k <= words.len(),
            words.deep_view() == crate::text::words(lower_form(query@)),
            forall|t: int| 0 <= t < words.len() ==> #[trigger] words.deep_view()[t].len() > 0,
            tokens.len() == k,
            forall|t: int| 0 <= t < k ==> #[trigger] tokens.deep_view()[t] == encode_utf8(
                words.deep_view()[t],
            ),
            forall|t: int| 0 <= t < k ==> #[trigger] tokens[t].len() > 0,
        decreases words.len() - k,
    {
        proof {
            assert(words[k as int].deep_view() =~= words[k as int]@);
            assert(words.deep_view()[k as int] == words[k as int]@);
            lemma_encode_non_empty(words[k as int]@);
        }
        let w = string_from_chars(&words[k]);
        let b = vstd::slice::slice_to_vec(w.as_str().as_bytes());
        let ghost old_tokens = tokens.deep_view();
        tokens.push(b);
        proof {
            assert forall|t: int| 0 <= t < k + 1 implies #[trigger] tokens.deep_view()[t]
                == encode_utf8(words.deep_view()[t]) by {
                if t < k {
                    assert(tokens.deep_view()[t] == old_tokens[t]);
                } else {
                    assert(tokens[t].deep_view() =~= tokens[t]@);
                }
            }
        }
        k = k + 1;
    }
    proof {
        assert(tokens.deep_view() =~= query_token_bytes(query@));
    }
    let lower = to_lowercase(message);
    let msg_bytes = message.as_bytes();
    highlight_ranges(msg_bytes.len(), lower.as_str().as_bytes(), &tokens)
}

} // verus!
