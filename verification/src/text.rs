//! Character-level text utilities: white space, tokens, substring search.
use vstd::prelude::*;

verus! {

broadcast use vstd::string::group_string_axioms;

/// The characters that carry the Unicode `White_Space` property.
pub open spec fn is_white_space(c: char) -> bool {
    let u = c as u32;
    ||| 0x09 <= u <= 0x0d
    ||| u == 0x20
    ||| u == 0x85
    ||| u == 0xa0
    ||| u == 0x1680
    ||| 0x2000 <= u <= 0x200a
    ||| u == 0x2028
    ||| u == 0x2029
    ||| u == 0x202f
    ||| u == 0x205f
    ||| u == 0x3000
}

/// Decides whether `c` is white space, as `char::is_whitespace` does.
pub fn is_whitespace(c: char) -> (r: bool)
    ensures
        r == is_white_space(c),
{
    let u = c as u32;
    (0x09 <= u && u <= 0x0d) || u == 0x20 || u == 0x85 || u == 0xa0 || u == 0x1680 || (0x2000
        <= u && u <= 0x200a) || u == 0x2028 || u == 0x2029 || u == 0x202f || u == 0x205f || u
        == 0x3000
}

/// The characters of a string slice, in order.
pub fn chars_of(s: &str) -> (r: Vec<char>)
    ensures
        r@ == s@,
{
    let mut v: Vec<char> = Vec::new();
    for c in it: s.chars()
        invariant
            v@ == it.seq().take(it.index()),
    {
        v.push(c);
    }
    v
}


/// The pieces of `s` between white-space characters, empty pieces included;
/// there is always at least one piece.
pub open spec fn pieces(s: Seq<char>) -> Seq<Seq<char>>
    decreases s.len(),
{
    if s.len() == 0 {
        seq![Seq::empty()]
    } else {
        let p = pieces(s.drop_last());
        if is_white_space(s.last()) {
            p.push(Seq::empty())
        } else {
            p.update(p.len() - 1, p.last().push(s.last()))
        }
    }
}

/// The non-empty members of `ps`, in order.
pub open spec fn non_empty(ps: Seq<Seq<char>>) -> Seq<Seq<char>>
    decreases ps.len(),
{
    if ps.len() == 0 {
        seq![]
    } else {
        let r = non_empty(ps.drop_last());
        if ps.last().len() > 0 {
            r.push(ps.last())
        } else {
            r
        }
    }
}

/// The white-space separated words of `s`, as `str::split_whitespace` yields them.
pub open spec fn words(s: Seq<char>) -> Seq<Seq<char>> {
    non_empty(pieces(s))
}

proof fn lemma_pieces_len(s: Seq<char>)
    ensures
        pieces(s).len() >= 1,
    decreases s.len(),
{
    if s.len() > 0 {
        lemma_pieces_len(s.drop_last());
    }
}

/// Every word is non-empty and holds no white space.
pub proof fn lemma_words_shape(s: Seq<char>)
    ensures
        forall|k: int|
            0 <= k < words(s).len() ==> #[trigger] words(s)[k].len() > 0 && forall|j: int|
                0 <= j < words(s)[k].len() ==> !is_white_space(#[trigger] words(s)[k][j]),
    decreases s.len(),
{
    lemma_non_empty_shape(pieces(s));
    lemma_pieces_shape(s);
}

proof fn lemma_pieces_shape(s: Seq<char>)
    ensures
        forall|k: int, j: int|
            0 <= k < pieces(s).len() && 0 <= j < pieces(s)[k].len() ==> !is_white_space(
                #[trigger] pieces(s)[k][j],
            ),
    decreases s.len(),
{
    if s.len() > 0 {
        lemma_pieces_shape(s.drop_last());
        lemma_pieces_len(s.drop_last());
        let p = pieces(s.drop_last());
        assert forall|k: int, j: int|
            0 <= k < pieces(s).len() && 0 <= j < pieces(s)[k].len() implies !is_white_space(
                #[trigger] pieces(s)[k][j],
            ) by {
            if k < p.len() - 1 {
                assert(pieces(s)[k] == p[k]);
            } else if !is_white_space(s.last()) && k == p.len() - 1 {
                if j < p[k].len() {
                    assert(pieces(s)[k][j] == p[k][j]);
                }
            }
        }
    }
}

proof fn lemma_non_empty_shape(ps: Seq<Seq<char>>)
    ensures
        non_empty(ps).len() <= ps.len(),
        forall|k: int| 0 <= k < non_empty(ps).len() ==> #[trigger] non_empty(ps)[k].len() > 0,
        forall|k: int|
            0 <= k < non_empty(ps).len() ==> exists|m: int|
                0 <= m < ps.len() && ps[m] == #[trigger] non_empty(ps)[k],
    decreases ps.len(),
{
    if ps.len() > 0 {
        lemma_non_empty_shape(ps.drop_last());
        let r = non_empty(ps.drop_last());
        assert forall|k: int| 0 <= k < non_empty(ps).len() implies exists|m: int|
            0 <= m < ps.len() && ps[m] == #[trigger] non_empty(ps)[k] by {
            if k < r.len() {
                let m = choose|m: int| 0 <= m < ps.drop_last().len() && ps.drop_last()[m] == r[k];
                assert(ps[m] == non_empty(ps)[k]);
            } else {
                assert(ps[ps.len() - 1] == non_empty(ps)[k]);
            }
        }
    }
}

/// Pieces of two texts joined by a blank are the pieces of each.
pub proof fn lemma_pieces_join(a: Seq<char>, b: Seq<char>)
    ensures
        pieces(a.push(' ') + b) == pieces(a) + pieces(b),
    decreases b.len(),
{
    if b.len() == 0 {
        assert(a.push(' ') + b =~= a.push(' '));
        assert(a.push(' ').drop_last() =~= a);
        assert(pieces(a).push(Seq::empty()) =~= pieces(a) + pieces(b));
    } else {
        let b1 = b.drop_last();
        lemma_pieces_join(a, b1);
        lemma_pieces_len(b1);
        let j = a.push(' ') + b;
        assert(j.drop_last() =~= a.push(' ') + b1);
        assert(j.last() == b.last());
        let p1 = pieces(b1);
        if is_white_space(b.last()) {
            assert((pieces(a) + p1).push(Seq::empty()) =~= pieces(a) + p1.push(Seq::empty()));
        } else {
            let q = pieces(a) + p1;
            assert(q.last() == p1.last());
            assert(q.update(q.len() - 1, q.last().push(b.last())) =~= pieces(a) + p1.update(
                p1.len() - 1,
                p1.last().push(b.last()),
            ));
        }
    }
}

/// The non-empty members of a concatenation.
pub proof fn lemma_non_empty_concat(x: Seq<Seq<char>>, y: Seq<Seq<char>>)
    ensures
        non_empty(x + y) == non_empty(x) + non_empty(y),
    decreases y.len(),
{
    if y.len() == 0 {
        assert(x + y =~= x);
        assert(non_empty(x) + non_empty(y) =~= non_empty(x));
    } else {
        lemma_non_empty_concat(x, y.drop_last());
        assert((x + y).drop_last() =~= x + y.drop_last());
        assert((x + y).last() == y.last());
        if y.last().len() > 0 {
            assert((non_empty(x) + non_empty(y.drop_last())).push(y.last()) =~= non_empty(x)
                + non_empty(y.drop_last()).push(y.last()));
        }
    }
}

/// The words of two texts joined by a blank are the words of the first
/// followed by those of the second.
pub proof fn lemma_words_join(a: Seq<char>, b: Seq<char>)
    ensures
        words(a.push(' ') + b) == words(a) + words(b),
{
    lemma_pieces_join(a, b);
    lemma_non_empty_concat(pieces(a), pieces(b));
}

/// Splits `s` into its white-space separated words.
pub fn split_whitespace(s: &Vec<char>) -> (r: Vec<Vec<char>>)
    ensures
        r.deep_view() == words(s@),
{
    let mut done: Vec<Vec<char>> = Vec::new();
    let mut cur: Vec<char> = Vec::new();
    let n = s.len();
    proof {
        assert(s@.take(0) =~= Seq::<char>::empty());
    }
    for i in 0..n
        invariant
            n == s.len(),
            pieces(s@.take(i as int)).len() >= 1,
            pieces(s@.take(i as int)).last() == cur@,
            non_empty(pieces(s@.take(i as int)).drop_last()) == done.deep_view(),
    {
        let c = s[i];
        let ghost p = pieces(s@.take(i as int));
        proof {
            assert(s@.take(i + 1).drop_last() =~= s@.take(i as int));
            assert(s@.take(i + 1).last() == c);
        }
        if is_whitespace(c) {
            proof {
                assert(p.push(Seq::empty()).drop_last() =~= p);
                assert(p =~= p.drop_last().push(cur@));
            }
            if cur.len() > 0 {
                let ghost old_done = done.deep_view();
                proof {
                    assert(cur.deep_view() =~= cur@);
                }
                done.push(cur);
                proof {
                    assert(done.deep_view() =~= old_done.push(p.last()));
                }
            }
            cur = Vec::new();
            proof {
                assert(cur@ =~= Seq::<char>::empty());
            }
        } else {
            cur.push(c);
            proof {
                let q = p.update(p.len() - 1, p.last().push(c));
                assert(q.drop_last() =~= p.drop_last());
            }
        }
    }
    proof {
        let p = pieces(s@.take(n as int));
        assert(s@.take(n as int) =~= s@);
        assert(p =~= p.drop_last().push(cur@));
    }
    if cur.len() > 0 {
        let ghost old_done = done.deep_view();
        proof {
            assert(cur.deep_view() =~= cur@);
        }
        done.push(cur);
        proof {
            assert(done.deep_view() =~= old_done.push(pieces(s@).last()));
        }
    }
    done
}

/// `n` occurs in `h` at position `p`.
pub open spec fn occurs_at<A>(h: Seq<A>, n: Seq<A>, p: int) -> bool {
    0 <= p && p + n.len() <= h.len() && h.subrange(p, p + n.len()) == n
}

/// `n` occurs somewhere in `h`.
pub open spec fn contains_seq<A>(h: Seq<A>, n: Seq<A>) -> bool {
    exists|p: int| occurs_at(h, n, p)
}

/// Decides whether `n` occurs in `h` at position `p`.
pub fn chars_occur_at(h: &Vec<char>, n: &Vec<char>, p: usize) -> (r: bool)
    ensures
        r == occurs_at(h@, n@, p as int),
{
    if p > h.len() || n.len() > h.len() - p {
        return false;
    }
    let mut k: usize = 0;
    while k < n.len()
        invariant
            p + n.len() <= h.len(),
            k <= n.len(),
            forall|j: int| 0 <= j < k ==> h@[p + j] == n@[j],
        decreases n.len() - k,
    {
        if h[p + k] != n[k] {
            proof {
                assert(h@.subrange(p as int, p + n.len())[k as int] != n@[k as int]);
            }
            return false;
        }
        k = k + 1;
    }
    proof {
        assert(h@.subrange(p as int, p + n.len()) =~= n@);
    }
    true
}

/// Decides whether `n` occurs in `h`, as `str::contains` does.
pub fn contains_chars(h: &Vec<char>, n: &Vec<char>) -> (r: bool)
    ensures
        r == contains_seq(h@, n@),
{
    let mut p: usize = 0;
    while p < h.len()
        invariant
            p <= h.len(),
            forall|q: int| 0 <= q < p ==> !occurs_at(h@, n@, q),
        decreases h.len() - p,
    {
        if chars_occur_at(h, n, p) {
            return true;
        }
        p = p + 1;
    }
    let r = chars_occur_at(h, n, p);
    proof {
        if !r {
            assert forall|q: int| !occurs_at(h@, n@, q) by {
                if occurs_at(h@, n@, q) {
                    assert(q < p || q == p);
                }
            }
        }
    }
    r
}


/// Names what `str::to_lowercase` returns for a string: its Unicode lower-case
/// mapping, a function of the characters alone.
pub uninterp spec fn lowercase_of(s: Seq<char>) -> Seq<char>;

/// An ASCII character lower-cased: `A`-`Z` become `a`-`z`, the rest stay.
pub open spec fn ascii_lower_char(c: char) -> char {
    if 'A' <= c <= 'Z' {
        ((c as u32) + 32) as char
    } else {
        c
    }
}

/// A text lower-cased letter by letter as ASCII.
pub open spec fn ascii_lower(s: Seq<char>) -> Seq<char> {
    s.map_values(|c: char| ascii_lower_char(c))
}

/// The lower-case form of a text: for an all-ASCII text, its ASCII letters
/// lower-cased one by one; otherwise its Unicode lower-case mapping.
pub open spec fn lower_form(s: Seq<char>) -> Seq<char> {
    if vstd::utf8::is_ascii_chars(s) {
        ascii_lower(s)
    } else {
        lowercase_of(s)
    }
}

/// Calls `str::to_lowercase`; the result is the lower-case mapping of `s`,
/// which depends on the characters of `s` alone; an all-ASCII string is
/// lower-cased letter by letter (`A`-`Z` to `a`-`z`, the rest unchanged).
#[verifier::external_body]
pub(crate) fn to_lowercase(s: &str) -> (r: String)
    ensures
        r@ == lowercase_of(s@),
        vstd::utf8::is_ascii_chars(s@) ==> r@ == ascii_lower(s@),
{
    s.to_lowercase()
}

/// Calls `String::push`: appends `c` to `s`.
#[verifier::external_body]
pub(crate) fn push_char(s: &mut String, c: char)
    ensures
        final(s)@ == old(s)@.push(c),
{
    s.push(c)
}

/// Calls `String::pop`: removes the last character of `s`, if any, and returns it.
#[verifier::external_body]
pub(crate) fn pop_char(s: &mut String) -> (r: Option<char>)
    ensures
        old(s)@.len() > 0 ==> final(s)@ == old(s)@.drop_last() && r == Some(old(s)@.last()),
        old(s)@.len() == 0 ==> final(s)@ == old(s)@ && r is None,
{
    s.pop()
}

/// Calls `String::from_iter` on the characters of `v`: a string holding them in order.
#[verifier::external_body]
pub(crate) fn string_from_chars(v: &Vec<char>) -> (r: String)
    ensures
        r@ == v@,
{
    String::from_iter(v.iter())
}

} // verus!
