//! Character-level helpers for the line protocol: white space, trimming and
//! searching, stated over sequences of characters.
use vstd::prelude::*;

verus! {

/// The characters Unicode calls white space.
pub open spec fn is_space(c: char) -> bool {
    let n = c as u32;
    ||| 0x09 <= n <= 0x0d
    ||| n == 0x20
    ||| n == 0x85
    ||| n == 0xa0
    ||| n == 0x1680
    ||| 0x2000 <= n <= 0x200a
    ||| n == 0x2028
    ||| n == 0x2029
    ||| n == 0x202f
    ||| n == 0x205f
    ||| n == 0x3000
}

/// `s` without its trailing white space.
pub open spec fn trim_end(s: Seq<char>) -> Seq<char>
    decreases s.len(),
{
    if s.len() > 0 && is_space(s.last()) {
        trim_end(s.drop_last())
    } else {
        s
    }
}

/// `s` without its leading white space.
pub open spec fn trim_start(s: Seq<char>) -> Seq<char>
    decreases s.len(),
{
    if s.len() > 0 && is_space(s.first()) {
        trim_start(s.drop_first())
    } else {
        s
    }
}

/// `s` without white space at either end.
pub open spec fn trim(s: Seq<char>) -> Seq<char> {
    trim_start(trim_end(s))
}

/// The index of the first `c` in `s`, if there is one.
pub open spec fn position(s: Seq<char>, c: char) -> Option<int>
    decreases s.len(),
{
    if s.len() == 0 {
        None
    } else if s.first() == c {
        Some(0)
    } else {
        match position(s.drop_first(), c) {
            Some(i) => Some(i + 1),
            None => None,
        }
    }
}

/// `s` without the line terminator at its end: one line feed, and the
/// carriage return before it, if any.
pub open spec fn strip_terminator(s: Seq<char>) -> Seq<char> {
    if s.len() > 0 && s.last() == '\n' {
        let t = s.drop_last();
        if t.len() > 0 && t.last() == '\r' {
            t.drop_last()
        } else {
            t
        }
    } else {
        s
    }
}

/// `position` finds the first occurrence: an index `k` that holds `c` with no
/// `c` before it is the one it returns.
pub proof fn lemma_position_first(s: Seq<char>, c: char, k: int)
    requires
        0 <= k < s.len(),
        s[k] == c,
        forall|j: int| 0 <= j < k ==> s[j] != c,
    ensures
        position(s, c) == Some(k),
    decreases s.len(),
{
    if k > 0 {
        let t = s.drop_first();
        assert(s.first() == s[0]);
        assert forall|j: int| 0 <= j < k - 1 implies t[j] != c by {
            assert(t[j] == s[j + 1]);
        }
        lemma_position_first(t, c, k - 1);
    }
}

/// `position` returns `None` exactly when `c` does not occur.
pub proof fn lemma_position_none(s: Seq<char>, c: char)
    requires
        forall|j: int| 0 <= j < s.len() ==> s[j] != c,
    ensures
        position(s, c) is None,
    decreases s.len(),
{
    if s.len() > 0 {
        let t = s.drop_first();
        assert(s.first() == s[0]);
        assert forall|j: int| 0 <= j < t.len() implies t[j] != c by {
            assert(t[j] == s[j + 1]);
        }
        lemma_position_none(t, c);
    }
}

/// Trimming never makes a text longer.
pub proof fn lemma_trim_lengths(s: Seq<char>)
    ensures
        trim_end(s).len() <= s.len(),
        trim_start(s).len() <= s.len(),
    decreases s.len(),
{
    if s.len() > 0 {
        lemma_trim_lengths(s.drop_last());
        lemma_trim_lengths(s.drop_first());
    }
}

/// A text that trimming leaves as it is has no white space at either end.
pub proof fn lemma_trimmed_ends(s: Seq<char>)
    requires
        trim(s) == s,
        s.len() > 0,
    ensures
        !is_space(s.first()),
        !is_space(s.last()),
{
    lemma_trim_lengths(s);
    lemma_trim_lengths(trim_end(s));
    if is_space(s.last()) {
        lemma_trim_lengths(s.drop_last());
    }
    if is_space(s.first()) {
        lemma_trim_lengths(s.drop_first());
    }
}

pub fn is_whitespace(c: char) -> (r: bool)
    ensures
        r == is_space(c),
{
    let n: u32 = c as u32;
    (0x09 <= n && n <= 0x0d) || n == 0x20 || n == 0x85 || n == 0xa0 || n == 0x1680 || (0x2000 <= n
        && n <= 0x200a) || n == 0x2028 || n == 0x2029 || n == 0x202f || n == 0x205f || n == 0x3000
}

/// The characters of `s`, in order.
pub fn chars_of(s: &str) -> (v: Vec<char>)
    ensures
        v@ == s@,
{
    let mut v: Vec<char> = Vec::new();
    for c in it: s.chars()
        invariant
            it.seq() == s@,
            v@ == it.seq().take(it.index() as int),
    {
        v.push(c);
    }
    v
}

/// Where `v[lo..hi]` ends once its trailing white space is cut off.
pub fn trim_end_at(v: &Vec<char>, lo: usize, hi: usize) -> (e: usize)
    requires
        lo <= hi <= v.len(),
    ensures
        lo <= e <= hi,
        v@.subrange(lo as int, e as int) == trim_end(v@.subrange(lo as int, hi as int)),
{
    let mut e: usize = hi;
    while e > lo && is_whitespace(v[e - 1])
        invariant
            lo <= e <= hi <= v.len(),
            trim_end(v@.subrange(lo as int, e as int)) == trim_end(
                v@.subrange(lo as int, hi as int),
            ),
        decreases e,
    {
        proof {
            let s = v@.subrange(lo as int, e as int);
            assert(s.last() == v@[e - 1]);
            assert(s.drop_last() =~= v@.subrange(lo as int, e - 1));
        }
        e = e - 1;
    }
    proof {
        let s = v@.subrange(lo as int, e as int);
        if e > lo {
            assert(s.last() == v@[e - 1]);
        }
    }
    e
}

/// Where `v[lo..hi]` starts once its leading white space is cut off.
pub fn trim_start_at(v: &Vec<char>, lo: usize, hi: usize) -> (b: usize)
    requires
        lo <= hi <= v.len(),
    ensures
        lo <= b <= hi,
        v@.subrange(b as int, hi as int) == trim_start(v@.subrange(lo as int, hi as int)),
{
    let mut b: usize = lo;
    while b < hi && is_whitespace(v[b])
        invariant
            lo <= b <= hi <= v.len(),
            trim_start(v@.subrange(b as int, hi as int)) == trim_start(
                v@.subrange(lo as int, hi as int),
            ),
        decreases hi - b,
    {
        proof {
            let s = v@.subrange(b as int, hi as int);
            assert(s.first() == v@[b as int]);
            assert(s.drop_first() =~= v@.subrange(b + 1, hi as int));
        }
        b = b + 1;
    }
    proof {
        let s = v@.subrange(b as int, hi as int);
        if b < hi {
            assert(s.first() == v@[b as int]);
        }
    }
    b
}

/// The bounds of `v[lo..hi]` once white space is cut off at both ends.
pub fn trim_at(v: &Vec<char>, lo: usize, hi: usize) -> (r: (usize, usize))
    requires
        lo <= hi <= v.len(),
    ensures
        lo <= r.0 <= r.1 <= hi,
        v@.subrange(r.0 as int, r.1 as int) == trim(v@.subrange(lo as int, hi as int)),
{
    let e = trim_end_at(v, lo, hi);
    let b = trim_start_at(v, lo, e);
    (b, e)
}

/// The first index in `lo..hi` at which `v` holds `c`.
pub fn find_char(v: &Vec<char>, lo: usize, hi: usize, c: char) -> (r: Option<usize>)
    requires
        lo <= hi <= v.len(),
    ensures
        match r {
            Some(i) => lo <= i < hi && position(v@.subrange(lo as int, hi as int), c) == Some(
                i - lo,
            ),
            None => position(v@.subrange(lo as int, hi as int), c) is None,
        },
{
    let ghost s = v@.subrange(lo as int, hi as int);
    let mut i: usize = lo;
    while i < hi
        invariant
            lo <= i <= hi <= v.len(),
            s == v@.subrange(lo as int, hi as int),
            forall|j: int| 0 <= j < i - lo ==> s[j] != c,
        decreases hi - i,
    {
        if v[i] == c {
            proof {
                assert(s[i - lo] == v@[i as int]);
                lemma_position_first(s, c, i - lo);
            }
            return Some(i);
        }
        proof {
            assert(s[i - lo] == v@[i as int]);
        }
        i = i + 1;
    }
    proof {
        lemma_position_none(s, c);
    }
    None
}

/// Where `v` ends once its line terminator is cut off.
pub fn strip_terminator_at(v: &Vec<char>) -> (e: usize)
    ensures
        e <= v.len(),
        v@.subrange(0, e as int) == strip_terminator(v@),
{
    let n = v.len();
    let e: usize = if n > 0 && v[n - 1] == '\n' {
        if n > 1 && v[n - 2] == '\r' {
            n - 2
        } else {
            n - 1
        }
    } else {
        n
    };
    proof {
        assert(v@.subrange(0, e as int) =~= strip_terminator(v@));
    }
    e
}

} // verus!
