//! The search filter: which timeline entries match a query.
use vstd::prelude::*;
use crate::text::{contains_seq, contains_chars};

verus! {

/// A lower-cased message matches when every query token occurs in it.
pub open spec fn entry_matches(lower_msg: Seq<char>, tokens: Seq<Seq<char>>) -> bool {
    forall|k: int| 0 <= k < tokens.len() ==> contains_seq(lower_msg, #[trigger] tokens[k])
}

/// The indices below `n` of the messages that match `tokens`, in increasing order.
pub open spec fn matching_upto(msgs: Seq<Seq<char>>, tokens: Seq<Seq<char>>, n: int) -> Seq<usize>
    decreases n,
{
    if n <= 0 {
        seq![]
    } else {
        let r = matching_upto(msgs, tokens, n - 1);
        if entry_matches(msgs[n - 1], tokens) {
            r.push((n - 1) as usize)
        } else {
            r
        }
    }
}

/// `v` is strictly increasing and every member is below `n`.
pub open spec fn increasing_below(v: Seq<usize>, n: int) -> bool {
    &&& forall|i: int| 0 <= i < v.len() ==> #[trigger] v[i] < n
    &&& forall|i: int, j: int| 0 <= i < j < v.len() ==> #[trigger] v[i] < #[trigger] v[j]
}

/// The matching indices are strictly increasing, below `n`, and exactly those
/// indices whose message matches.
pub proof fn lemma_matching_upto(msgs: Seq<Seq<char>>, tokens: Seq<Seq<char>>, n: int)
    requires
        0 <= n <= usize::MAX + 1,
    ensures
        increasing_below(matching_upto(msgs, tokens, n), n),
        matching_upto(msgs, tokens, n).len() <= n,
        forall|i: int|
            0 <= i < n ==> (matching_upto(msgs, tokens, n).contains(i as usize) <==> entry_matches(
                #[trigger] msgs[i],
                tokens,
            )),
    decreases n,
{
    if n > 0 {
        lemma_matching_upto(msgs, tokens, n - 1);
        let r = matching_upto(msgs, tokens, n - 1);
        let m = matching_upto(msgs, tokens, n);
        assert forall|i: int|
            0 <= i < n implies (m.contains(i as usize) <==> entry_matches(
                #[trigger] msgs[i],
                tokens,
            )) by {
            if i < n - 1 {
                if m.contains(i as usize) {
                    let j = choose|j: int| 0 <= j < m.len() && m[j] == i as usize;
                    if j < r.len() {
                        assert(r[j] == m[j]);
                    }
                }
                if r.contains(i as usize) {
                    let j = choose|j: int| 0 <= j < r.len() && r[j] == i as usize;
                    assert(m[j] == r[j]);
                }
            } else {
                if entry_matches(msgs[n - 1], tokens) {
                    assert(m[m.len() - 1] == (n - 1) as usize);
                } else if m.contains(i as usize) {
                    let j = choose|j: int| 0 <= j < m.len() && m[j] == i as usize;
                    assert(r[j] < n - 1);
                }
            }
        }
    }
}

/// Two token lists that every message matches alike select the same indices.
pub proof fn lemma_matching_same(
    msgs: Seq<Seq<char>>,
    t1: Seq<Seq<char>>,
    t2: Seq<Seq<char>>,
    n: int,
)
    requires
        forall|k: int| 0 <= k < n ==> entry_matches(#[trigger] msgs[k], t1) == entry_matches(msgs[k], t2),
    ensures
        matching_upto(msgs, t1, n) == matching_upto(msgs, t2, n),
    decreases n,
{
    if n > 0 {
        lemma_matching_same(msgs, t1, t2, n - 1);
        assert(entry_matches(msgs[n - 1], t1) == entry_matches(msgs[n - 1], t2));
    }
}

/// Decides whether every token occurs in `h`.
pub fn matches_all(h: &Vec<char>, tokens: &Vec<Vec<char>>) -> (r: bool)
    ensures
        r == entry_matches(h@, tokens.deep_view()),
{
    let mut k: usize = 0;
    while k < tokens.len()
        invariant
            k <= tokens.len(),
            forall|j: int| 0 <= j < k ==> contains_seq(h@, #[trigger] tokens.deep_view()[j]),
        decreases tokens.len() - k,
    {
        proof {
            assert(tokens[k as int].deep_view() =~= tokens[k as int]@);
            assert(tokens.deep_view()[k as int] == tokens[k as int]@);
        }
        if !contains_chars(h, &tokens[k]) {
            return false;
        }
        k = k + 1;
    }
    true
}

} // verus!
