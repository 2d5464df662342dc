//! Reading the reflog listing: one entry per line, four fields separated by
//! the unit separator character (U+001F): full hash, commit time in seconds
//! since the Unix epoch, age in words, reflog message.
use vstd::prelude::*;
use crate::lines::{lines_of, split_lines};
use crate::text::{chars_of, string_from_chars};
use crate::timeline::{Entry, EntryView};

verus! {

broadcast use vstd::string::group_string_axioms;

/// The field separator of a listing line.
pub open spec fn is_separator(c: char) -> bool {
    c == '\u{1f}'
}

/// The first separator in `s` at or after `i`.
pub open spec fn first_separator(s: Seq<char>, i: int) -> Option<int>
    decreases s.len() - i,
{
    if i < 0 || i >= s.len() {
        None
    } else if is_separator(s[i]) {
        Some(i)
    } else {
        first_separator(s, i + 1)
    }
}

/// `s` split at its first separator: what comes before it and what after.
pub open spec fn split_at_separator(s: Seq<char>) -> Option<(Seq<char>, Seq<char>)> {
    match first_separator(s, 0) {
        Some(p) => Some((s.take(p), s.skip(p + 1))),
        None => None,
    }
}

/// `s` is a non-empty run of decimal digits.
pub open spec fn is_digits(s: Seq<char>) -> bool {
    s.len() > 0 && forall|i: int| 0 <= i < s.len() ==> '0' <= #[trigger] s[i] <= '9'
}

/// The number that the decimal digits `s` write.
pub open spec fn digits_value(s: Seq<char>) -> int
    decreases s.len(),
{
    if s.len() == 0 {
        0
    } else {
        digits_value(s.drop_last()) * 10 + (s.last() as int - '0' as int)
    }
}

/// The seconds field read as a time: decimal digits that fit in an `i64`.
pub open spec fn seconds_of(s: Seq<char>) -> Option<i64> {
    if is_digits(s) && digits_value(s) <= i64::MAX {
        Some(digits_value(s) as i64)
    } else {
        None
    }
}

/// The entry a listing line describes, if it has all four fields and a
/// readable time; the message is everything after the third separator.
pub open spec fn entry_of_line(line: Seq<char>) -> Option<EntryView> {
    match split_at_separator(line) {
        Some((hash, r1)) => match split_at_separator(r1) {
            Some((secs, r2)) => match split_at_separator(r2) {
                Some((relative_time, message)) => match seconds_of(secs) {
                    Some(t) => Some(
                        EntryView {
                            hash: hash,
                            message: message,
                            relative_time: relative_time,
                            timestamp: t,
                        },
                    ),
                    None => None,
                },
                None => None,
            },
            None => None,
        },
        None => None,
    }
}

/// The entries of the listing lines `ls`, in order; lines that describe no
/// entry are skipped.
pub open spec fn entries_of_lines(ls: Seq<Seq<char>>) -> Seq<EntryView>
    decreases ls.len(),
{
    if ls.len() == 0 {
        seq![]
    } else {
        let r = entries_of_lines(ls.drop_last());
        match entry_of_line(ls.last()) {
            Some(e) => r.push(e),
            None => r,
        }
    }
}

/// The entries a reflog listing describes.
pub open spec fn reflog_entries(text: Seq<char>) -> Seq<EntryView> {
    entries_of_lines(lines_of(text))
}

/// The position of the first separator at or after `i`.
fn find_separator(s: &Vec<char>, i: usize) -> (r: Option<usize>)
    requires
        i <= s.len(),
    ensures
        match r {
            Some(p) => first_separator(s@, i as int) == Some(p as int) && i <= p < s.len(),
            None => first_separator(s@, i as int) is None,
        },
{
    let mut k = i;
    while k < s.len()
        invariant
            i <= k <= s.len(),
            first_separator(s@, i as int) == first_separator(s@, k as int),
        decreases s.len() - k,
    {
        if s[k] == '\u{1f}' {
            return Some(k);
        }
        k = k + 1;
    }
    None
}

/// The characters `s[a..b]`.
fn sub_chars(s: &Vec<char>, a: usize, b: usize) -> (r: Vec<char>)
    requires
        a <= b <= s.len(),
    ensures
        r@ == s@.subrange(a as int, b as int),
{
    let mut r: Vec<char> = Vec::new();
    let mut k = a;
    while k < b
        invariant
            a <= k <= b <= s.len(),
            r@ == s@.subrange(a as int, k as int),
        decreases b - k,
    {
        r.push(s[k]);
        k = k + 1;
        proof {
            assert(r@ =~= s@.subrange(a as int, k as int));
        }
    }
    r
}

proof fn lemma_digits_grow(s: Seq<char>, k: int)
    requires
        0 <= k <= s.len(),
        forall|i: int| 0 <= i < s.len() ==> '0' <= #[trigger] s[i] <= '9',
    ensures
        digits_value(s.take(k)) <= digits_value(s),
        0 <= digits_value(s.take(k)),
    decreases s.len() - k,
{
    if k < s.len() {
        lemma_digits_grow(s, k + 1);
        assert(s.take(k + 1).drop_last() =~= s.take(k));
    } else {
        assert(s.take(k) =~= s);
        lemma_digits_nonneg(s);
    }
}

proof fn lemma_digits_nonneg(s: Seq<char>)
    requires
        forall|i: int| 0 <= i < s.len() ==> '0' <= #[trigger] s[i] <= '9',
    ensures
        0 <= digits_value(s),
    decreases s.len(),
{
    if s.len() > 0 {
        lemma_digits_nonneg(s.drop_last());
    }
}

/// Reads `s[a..b]` as a time in seconds.
fn parse_seconds(s: &Vec<char>, a: usize, b: usize) -> (r: Option<i64>)
    requires
        a <= b <= s.len(),
    ensures
        r == seconds_of(s@.subrange(a as int, b as int)),
{
    let ghost d = s@.subrange(a as int, b as int);
    if a == b {
        return None;
    }
    let mut value: i64 = 0;
    let mut k = a;
    while k < b
        invariant
            a <= k <= b <= s.len(),
            d == s@.subrange(a as int, b as int),
            forall|i: int| 0 <= i < k - a ==> '0' <= #[trigger] d[i] <= '9',
            value == digits_value(d.take(k - a)),
            0 <= value,
        decreases b - k,
    {
        let c = s[k];
        if c < '0' || c > '9' {
            proof {
                assert(d[k - a] == c);
            }
            return None;
        }
        let digit = (c as u32 - '0' as u32) as i64;
        proof {
            assert(d.take(k + 1 - a).drop_last() =~= d.take(k - a));
            assert(d.take(k + 1 - a).last() == c);
        }
        if value > (i64::MAX - digit) / 10 {
            proof {
                assert(digits_value(d.take(k + 1 - a)) > i64::MAX) by (nonlinear_arith)
                    requires
                        value > (i64::MAX - digit) / 10,
                        digits_value(d.take(k + 1 - a)) == value * 10 + digit,
                        0 <= digit <= 9,
                ;
            }
            proof {
                if is_digits(d) {
                    lemma_digits_grow(d, k + 1 - a);
                }
            }
            return None;
        }
        proof {
            assert(value * 10 + digit <= i64::MAX) by (nonlinear_arith)
                requires
                    value <= (i64::MAX - digit) / 10,
                    0 <= digit <= 9,
                    0 <= value,
            ;
        }
        value = value * 10 + digit;
        k = k + 1;
    }
    proof {
        assert(d.take(b - a) =~= d);
    }
    Some(value)
}

/// The entry a listing line describes, if any.
pub fn parse_reflog_line(line: &str) -> (r: Option<Entry>)
    ensures
        match r {
            Some(e) => entry_of_line(line@) == Some(e@),
            None => entry_of_line(line@) is None,
        },
{
    let s = chars_of(line);
    let ghost l = s@;
    let p1 = match find_separator(&s, 0) {
        Some(p) => p,
        None => return None,
    };
    let p2 = match find_separator(&s, p1 + 1) {
        Some(p) => p,
        None => {
            proof {
                lemma_separator_shift(l, p1 as int + 1);
            }
            return None;
        },
    };
    proof {
        lemma_separator_shift(l, p1 as int + 1);
    }
    let p3 = match find_separator(&s, p2 + 1) {
        Some(p) => p,
        None => {
            proof {
                lemma_separator_shift(l, p2 as int + 1);
                assert(l.skip(p1 + 1).skip(p2 - p1) =~= l.skip(p2 + 1));
            }
            return None;
        },
    };
    proof {
        lemma_separator_shift(l, p2 as int + 1);
        lemma_separator_shift(l, p3 as int + 1);
        let r1 = l.skip(p1 + 1);
        assert(r1.take(p2 - p1 - 1) =~= l.subrange(p1 + 1, p2 as int));
        assert(r1.skip(p2 - p1) =~= l.skip(p2 + 1));
        let r2 = l.skip(p2 + 1);
        assert(r2.take(p3 - p2 - 1) =~= l.subrange(p2 + 1, p3 as int));
        assert(r2.skip(p3 - p2) =~= l.skip(p3 + 1));
    }
    let secs = match parse_seconds(&s, p1 + 1, p2) {
        Some(t) => t,
        None => return None,
    };
    let hash = string_from_chars(&sub_chars(&s, 0, p1));
    let relative_time = string_from_chars(&sub_chars(&s, p2 + 1, p3));
    let message = string_from_chars(&sub_chars(&s, p3 + 1, s.len()));
    proof {
        assert(l.subrange(0, p1 as int) =~= l.take(p1 as int));
        assert(l.subrange(p3 + 1, l.len() as int) =~= l.skip(p3 + 1));
    }
    Some(Entry { hash, message, relative_time, timestamp: secs })
}

/// Searching a suffix for a separator is searching the text from where the
/// suffix starts.
proof fn lemma_separator_shift(s: Seq<char>, i: int)
    requires
        0 <= i <= s.len(),
    ensures
        match first_separator(s.skip(i), 0) {
            Some(p) => first_separator(s, i) == Some(p + i),
            None => first_separator(s, i) is None,
        },
{
    lemma_separator_shift_from(s, i, 0);
}

proof fn lemma_separator_shift_from(s: Seq<char>, i: int, j: int)
    requires
        0 <= i <= s.len(),
        0 <= j <= s.len() - i,
    ensures
        match first_separator(s.skip(i), j) {
            Some(p) => first_separator(s, i + j) == Some(p + i),
            None => first_separator(s, i + j) is None,
        },
    decreases s.len() - i - j,
{
    if j < s.len() - i {
        assert(s.skip(i)[j] == s[i + j]);
        lemma_separator_shift_from(s, i, j + 1);
    }
}

/// The entries of a reflog listing, in order; lines that describe no entry
/// are skipped.
pub fn parse_reflog(text: &str) -> (r: Vec<Entry>)
    ensures
        r@.map_values(|e: Entry| e@) == reflog_entries(text@),
{
    let lines = split_lines(text);
    let ghost ls = lines_of(text@);
    let mut entries: Vec<Entry> = Vec::new();
    let n = lines.len();
    for i in 0..n
        invariant
            n == lines.len(),
            lines.deep_view() == ls,
            entries@.map_values(|e: Entry| e@) == entries_of_lines(ls.take(i as int)),
    {
        proof {
            assert(ls.take(i + 1).drop_last() =~= ls.take(i as int));
            assert(ls.take(i + 1).last() == lines[i as int]@);
        }
        let ghost before = entries@;
        match parse_reflog_line(lines[i].as_str()) {
            Some(e) => {
                entries.push(e);
                proof {
                    assert(entries@.map_values(|e: Entry| e@) =~= before.map_values(
                        |e: Entry| e@,
                    ).push(entries@.last()@));
                }
            },
            None => {},
        }
    }
    proof {
        assert(ls.take(n as int) =~= ls);
    }
    entries
}

/// `s` holds no separator.
pub open spec fn no_separator(s: Seq<char>) -> bool {
    forall|j: int| 0 <= j < s.len() ==> !is_separator(#[trigger] s[j])
}

/// The first separator at or after `i` is the first position from `i` on
/// that holds one.
proof fn lemma_first_separator(s: Seq<char>, i: int)
    requires
        0 <= i,
    ensures
        match first_separator(s, i) {
            Some(p) => i <= p < s.len() && is_separator(s[p]) && forall|j: int|
                i <= j < p ==> !is_separator(#[trigger] s[j]),
            None => forall|j: int| i <= j < s.len() ==> !is_separator(#[trigger] s[j]),
        },
    decreases s.len() - i,
{
    if i < s.len() && !is_separator(s[i]) {
        lemma_first_separator(s, i + 1);
    }
}

/// Splitting at the first separator: the part before holds no separator, and
/// the parts with the separator between give back the text.
pub proof fn lemma_split_at_separator(s: Seq<char>)
    ensures
        split_at_separator(s) matches Some((a, b)) ==> s == a.push('\u{1f}') + b && no_separator(a),
        split_at_separator(s) is None ==> no_separator(s),
        forall|a: Seq<char>, b: Seq<char>|
            s == a.push('\u{1f}') + b && no_separator(a) ==> split_at_separator(s) == Some((a, b)),
{
    lemma_first_separator(s, 0);
    match first_separator(s, 0) {
        Some(p) => {
            assert(s =~= s.take(p).push('\u{1f}') + s.skip(p + 1));
            assert forall|a: Seq<char>, b: Seq<char>|
                s == a.push('\u{1f}') + b && no_separator(a) implies split_at_separator(s) == Some(
                (a, b),
            ) by {
                if a.len() < p {
                    assert(s[a.len() as int] == '\u{1f}');
                } else if a.len() > p {
                    assert(s[p] == a[p]);
                }
                assert(s.take(p) =~= a);
                assert(s.skip(p + 1) =~= b);
            }
        },
        None => {
            assert forall|a: Seq<char>, b: Seq<char>|
                s == a.push('\u{1f}') + b && no_separator(a) implies split_at_separator(s) == Some(
                (a, b),
            ) by {
                assert(s[a.len() as int] == '\u{1f}');
            }
        },
    }
}

/// A listing line describes an entry exactly when it is the entry's hash,
/// time digits, age and message joined by separators, the first three fields
/// free of separators and the time fitting in an `i64`.
pub proof fn law_reflog_line_shape(line: Seq<char>, e: EntryView)
    ensures
        entry_of_line(line) == Some(e) <==> exists|secs: Seq<char>|
            #![trigger is_digits(secs)]
            line == e.hash.push('\u{1f}') + (secs.push('\u{1f}') + (e.relative_time.push('\u{1f}')
                + e.message)) && no_separator(e.hash) && no_separator(secs) && no_separator(
                e.relative_time,
            ) && is_digits(secs) && digits_value(secs) == e.timestamp,
{
    lemma_split_at_separator(line);
    if entry_of_line(line) == Some(e) {
        let (h, r1) = split_at_separator(line).unwrap();
        lemma_split_at_separator(r1);
        let (secs, r2) = split_at_separator(r1).unwrap();
        lemma_split_at_separator(r2);
        let (rel, msg) = split_at_separator(r2).unwrap();
        assert(is_digits(secs));
        lemma_digits_nonneg(secs);
        assert(h == e.hash && rel == e.relative_time && msg == e.message);
        assert(digits_value(secs) == e.timestamp);
        assert(line == e.hash.push('\u{1f}') + (secs.push('\u{1f}') + (e.relative_time.push('\u{1f}')
            + e.message)));
    }
    if exists|secs: Seq<char>|
        #![trigger is_digits(secs)]
        line == e.hash.push('\u{1f}') + (secs.push('\u{1f}') + (e.relative_time.push('\u{1f}')
            + e.message)) && no_separator(e.hash) && no_separator(secs) && no_separator(
            e.relative_time,
        ) && is_digits(secs) && digits_value(secs) == e.timestamp {
        let secs = choose|secs: Seq<char>|
            #![trigger is_digits(secs)]
            line == e.hash.push('\u{1f}') + (secs.push('\u{1f}') + (e.relative_time.push('\u{1f}')
                + e.message)) && no_separator(e.hash) && no_separator(secs) && no_separator(
                e.relative_time,
            ) && is_digits(secs) && digits_value(secs) == e.timestamp;
        let r1 = secs.push('\u{1f}') + (e.relative_time.push('\u{1f}') + e.message);
        let r2 = e.relative_time.push('\u{1f}') + e.message;
        lemma_split_at_separator(r1);
        lemma_split_at_separator(r2);
        assert(split_at_separator(line) == Some((e.hash, r1)));
        assert(split_at_separator(r1) == Some((secs, r2)));
        assert(split_at_separator(r2) == Some((e.relative_time, e.message)));
        assert(seconds_of(secs) == Some(e.timestamp));
    }
}

} // verus!
