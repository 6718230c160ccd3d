//! Picking the lines in which a text occurs.
use crate::chat::text::chars_of;
use vstd::prelude::*;

verus! {

/// `target` stands in `line` at index `at`.
pub open spec fn occurs_at(line: Seq<char>, target: Seq<char>, at: int) -> bool {
    0 <= at && at + target.len() <= line.len() && line.subrange(at, at + target.len()) == target
}

/// `target` occurs somewhere in `line`.
pub open spec fn occurs(line: Seq<char>, target: Seq<char>) -> bool {
    exists|at: int| occurs_at(line, target, at)
}

/// The lines among the first `n` of `lines` in which `target` occurs, in
/// their order.
pub open spec fn matching(lines: Seq<Seq<char>>, target: Seq<char>, n: nat) -> Seq<Seq<char>>
    decreases n,
{
    if n == 0 || n > lines.len() {
        Seq::empty()
    } else {
        let before = matching(lines, target, (n - 1) as nat);
        if occurs(lines[n - 1], target) {
            before.push(lines[n - 1])
        } else {
            before
        }
    }
}

/// Whether `target` stands in `line` at index `at`.
fn occurs_here(line: &Vec<char>, target: &Vec<char>, at: usize) -> (r: bool)
    requires
        at + target.len() <= line.len(),
    ensures
        r == occurs_at(line@, target@, at as int),
{
    let mut i: usize = 0;
    while i < target.len()
        invariant
            i <= target.len(),
            at + target.len() <= line.len(),
            forall|k: int| 0 <= k < i ==> line@[at + k] == target@[k],
        decreases target.len() - i,
    {
        if line[at + i] != target[i] {
            proof {
                assert(line@.subrange(at as int, at + target.len())[i as int] == line@[at + i]);
            }
            return false;
        }
        i = i + 1;
    }
    proof {
        assert(line@.subrange(at as int, at + target.len()) =~= target@);
    }
    true
}

/// Whether `target` occurs in `line`.
pub fn contains(line: &str, target: &str) -> (r: bool)
    ensures
        r == occurs(line@, target@),
{
    let l = chars_of(line);
    let t = chars_of(target);
    if t.len() > l.len() {
        return false;
    }
    let last = l.len() - t.len();
    let mut at: usize = 0;
    loop
        invariant
            at <= last,
            last + t.len() == l.len(),
            l@ == line@,
            t@ == target@,
            forall|k: int| 0 <= k < at ==> !occurs_at(l@, t@, k),
        decreases last - at,
    {
        if occurs_here(&l, &t, at) {
            return true;
        }
        if at == last {
            return false;
        }
        at = at + 1;
    }
}

/// The lines in which `target` occurs, in their order.
pub fn grep(target: &str, lines: &Vec<String>) -> (found: Vec<String>)
    ensures
        found@.map_values(|s: String| s@) == matching(
            lines@.map_values(|s: String| s@),
            target@,
            lines@.len(),
        ),
{
    let ghost texts = lines@.map_values(|s: String| s@);
    let mut found: Vec<String> = Vec::new();
    let mut i: usize = 0;
    proof {
        assert(found@.map_values(|s: String| s@) =~= matching(texts, target@, 0));
    }
    while i < lines.len()
        invariant
            i <= lines.len(),
            texts == lines@.map_values(|s: String| s@),
            found@.map_values(|s: String| s@) == matching(texts, target@, i as nat),
        decreases lines.len() - i,
    {
        let ghost before = found@.map_values(|s: String| s@);
        if contains(lines[i].as_str(), target) {
            found.push(lines[i].clone());
            proof {
                assert(found@.map_values(|s: String| s@) =~= before.push(texts[i as int]));
            }
        }
        i = i + 1;
    }
    found
}

} // verus!
