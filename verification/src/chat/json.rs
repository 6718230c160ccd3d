//! JSON string literals: how a text is written as one, and where one ends.
use vstd::prelude::*;

verus! {

/// A lower-case hexadecimal digit.
pub open spec fn hex(d: int) -> char {
    if d == 0 {
        '0'
    } else if d == 1 {
        '1'
    } else if d == 2 {
        '2'
    } else if d == 3 {
        '3'
    } else if d == 4 {
        '4'
    } else if d == 5 {
        '5'
    } else if d == 6 {
        '6'
    } else if d == 7 {
        '7'
    } else if d == 8 {
        '8'
    } else if d == 9 {
        '9'
    } else if d == 10 {
        'a'
    } else if d == 11 {
        'b'
    } else if d == 12 {
        'c'
    } else if d == 13 {
        'd'
    } else if d == 14 {
        'e'
    } else {
        'f'
    }
}

/// How one character stands inside a JSON string literal: the quote, the
/// backslash and the control characters are escaped, every other character
/// stands for itself.
pub open spec fn escape(c: char) -> Seq<char> {
    if c == '"' {
        seq!['\\', '"']
    } else if c == '\\' {
        seq!['\\', '\\']
    } else if c == '\u{8}' {
        seq!['\\', 'b']
    } else if c == '\t' {
        seq!['\\', 't']
    } else if c == '\n' {
        seq!['\\', 'n']
    } else if c == '\u{c}' {
        seq!['\\', 'f']
    } else if c == '\r' {
        seq!['\\', 'r']
    } else if (c as u32) < 0x20 {
        seq!['\\', 'u', '0', '0', hex((c as u32) as int / 16), hex((c as u32) as int % 16)]
    } else {
        seq![c]
    }
}

/// The characters of `s`, each escaped.
pub open spec fn escaped(s: Seq<char>) -> Seq<char>
    decreases s.len(),
{
    if s.len() == 0 {
        Seq::empty()
    } else {
        escape(s.first()) + escaped(s.drop_first())
    }
}

/// `s` as a JSON string literal: its escaped characters between quotes.
pub open spec fn quoted(s: Seq<char>) -> Seq<char> {
    seq!['"'] + escaped(s) + seq!['"']
}

/// Where the literal whose body is read from index `i` of `s` ends: the
/// index after the first quote that no backslash escapes.
pub open spec fn body_end(s: Seq<char>, i: int) -> Option<int>
    decreases s.len() - i,
{
    if i < 0 || i >= s.len() {
        None
    } else if s[i] == '"' {
        Some(i + 1)
    } else if s[i] == '\\' {
        if i + 1 < s.len() {
            body_end(s, i + 2)
        } else {
            None
        }
    } else {
        body_end(s, i + 1)
    }
}

/// Where the string literal that starts at index `start` of `s` ends, if
/// one starts there and ends within `s`.
pub open spec fn literal_end(s: Seq<char>, start: int) -> Option<int> {
    if 0 <= start < s.len() && s[start] == '"' {
        body_end(s, start + 1)
    } else {
        None
    }
}

/// No character of an escape is a control character, and an escape is
/// either one plain character or starts with a backslash.
pub proof fn lemma_escape_shape(c: char)
    ensures
        escape(c).len() == 1 || escape(c).len() == 2 || escape(c).len() == 6,
        forall|i: int| 0 <= i < escape(c).len() ==> (#[trigger] escape(c)[i]) as u32 >= 0x20,
        escape(c).len() == 1 ==> escape(c)[0] != '"' && escape(c)[0] != '\\',
        escape(c).len() > 1 ==> escape(c)[0] == '\\',
        escape(c).len() == 6 ==> forall|i: int|
            2 <= i < 6 ==> (#[trigger] escape(c)[i]) != '"' && escape(c)[i] != '\\',
{
    if (c as u32) < 0x20 {
        let h = hex((c as u32) as int / 16);
        let l = hex((c as u32) as int % 16);
        assert(h != '"' && h != '\\' && h as u32 >= 0x20);
        assert(l != '"' && l != '\\' && l as u32 >= 0x20);
    }
}

/// Reading a literal's body skips an escape whole.
pub proof fn lemma_skip_escape(before: Seq<char>, c: char, after: Seq<char>)
    ensures
        body_end(before + escape(c) + after, before.len() as int) == body_end(
            before + escape(c) + after,
            (before.len() + escape(c).len()) as int,
        ),
{
    let e = escape(c);
    let t = before + e + after;
    let n = before.len() as int;
    lemma_escape_shape(c);
    assert forall|i: int| 0 <= i < e.len() implies t[n + i] == e[i] by {}
    assert(t[n] == e[0]);
    if e.len() == 6 {
        assert(t[n + 2] == e[2]);
        assert(t[n + 3] == e[3]);
        assert(t[n + 4] == e[4]);
        assert(t[n + 5] == e[5]);
        assert(body_end(t, n) == body_end(t, n + 2));
        assert(body_end(t, n + 2) == body_end(t, n + 3));
        assert(body_end(t, n + 3) == body_end(t, n + 4));
        assert(body_end(t, n + 4) == body_end(t, n + 5));
        assert(body_end(t, n + 5) == body_end(t, n + 6));
    }
}

/// Reading the body of a literal that was written for `s` ends right after
/// its closing quote, whatever stands before and after the literal.
pub proof fn lemma_body_end(before: Seq<char>, s: Seq<char>, after: Seq<char>)
    ensures
        body_end(before + escaped(s) + seq!['"'] + after, before.len() as int) == Some(
            (before.len() + escaped(s).len() + 1) as int,
        ),
    decreases s.len(),
{
    let t = before + escaped(s) + seq!['"'] + after;
    let n = before.len() as int;
    if s.len() == 0 {
        assert(t[n] == '"');
    } else {
        let e = escape(s.first());
        let rest = s.drop_first();
        let tail = escaped(rest) + seq!['"'] + after;
        lemma_escape_shape(s.first());
        lemma_skip_escape(before, s.first(), tail);
        lemma_body_end(before + e, rest, after);
        assert(before + e + tail =~= t);
        assert((before + e) + escaped(rest) + seq!['"'] + after =~= t);
    }
}

/// A literal that was written for `s` ends where it was closed, whatever
/// stands before and after it.
pub proof fn lemma_literal_end(before: Seq<char>, s: Seq<char>, after: Seq<char>)
    ensures
        literal_end(before + quoted(s) + after, before.len() as int) == Some(
            (before.len() + quoted(s).len()) as int,
        ),
        (before + quoted(s) + after).subrange(
            before.len() as int,
            (before.len() + quoted(s).len()) as int,
        ) == quoted(s),
{
    let t = before + quoted(s) + after;
    let n = before.len() as int;
    assert(t[n] == '"');
    lemma_body_end(before + seq!['"'], s, after);
    assert((before + seq!['"']) + escaped(s) + seq!['"'] + after =~= t);
    assert(t.subrange(n, n + quoted(s).len()) =~= quoted(s));
}

/// No character of an escaped text is a control character: the text stays
/// on one line.
pub proof fn lemma_escaped_plain(s: Seq<char>)
    ensures
        forall|i: int| 0 <= i < escaped(s).len() ==> (#[trigger] escaped(s)[i]) as u32 >= 0x20,
    decreases s.len(),
{
    if s.len() > 0 {
        lemma_escape_shape(s.first());
        lemma_escaped_plain(s.drop_first());
        let e = escape(s.first());
        let r = escaped(s.drop_first());
        assert forall|i: int| 0 <= i < escaped(s).len() implies (#[trigger] escaped(s)[i]) as u32
            >= 0x20 by {
            if i < e.len() {
                assert(escaped(s)[i] == e[i]);
            } else {
                assert(escaped(s)[i] == r[i - e.len()]);
            }
        }
    }
}

/// Where the string literal that starts at index `start` of `v` ends.
pub fn find_literal_end(v: &Vec<char>, start: usize) -> (r: Option<usize>)
    ensures
        match r {
            Some(end) => start < end <= v.len() && literal_end(v@, start as int) == Some(
                end as int,
            ),
            None => literal_end(v@, start as int) is None,
        },
{
    if start >= v.len() || v[start] != '"' {
        return None;
    }
    let mut i: usize = start + 1;
    while i < v.len()
        invariant
            start < i,
            start < v.len(),
            v@[start as int] == '"',
            body_end(v@, i as int) == body_end(v@, start + 1),
        decreases v.len() - i,
    {
        if v[i] == '"' {
            return Some(i + 1);
        }
        if v[i] == '\\' {
            if i + 1 >= v.len() {
                return None;
            }
            i = i + 2;
        } else {
            i = i + 1;
        }
    }
    None
}

} // verus!
