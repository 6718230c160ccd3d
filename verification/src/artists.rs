//! A table of artists and their works.
use crate::decimal::{decimal, to_decimal};
use vstd::prelude::*;

verus! {

/// The texts of a vector of strings.
pub open spec fn texts(v: Seq<String>) -> Seq<Seq<char>> {
    v.map_values(|s: String| s@)
}

/// An artist with the titles of their works, as plain text.
pub type Entry = (Seq<char>, Seq<Seq<char>>);

/// The index of the entry of `artist`, if there is one.
pub open spec fn index_of(entries: Seq<Entry>, artist: Seq<char>) -> Option<int> {
    if exists|i: int| 0 <= i < entries.len() && (#[trigger] entries[i]).0 == artist {
        Some(choose|i: int| 0 <= i < entries.len() && (#[trigger] entries[i]).0 == artist)
    } else {
        None
    }
}

/// No two entries are of the same artist.
pub open spec fn artists_distinct(entries: Seq<Entry>) -> bool {
    forall|i: int, j: int|
        0 <= i < j < entries.len() ==> (#[trigger] entries[i]).0 != (#[trigger] entries[j]).0
}

/// `a` comes before `b`, or equals it, in the order of strings: character
/// by character, a shorter text before its extensions.
pub open spec fn text_le(a: Seq<char>, b: Seq<char>) -> bool
    decreases a.len(),
{
    if a.len() == 0 {
        true
    } else if b.len() == 0 {
        false
    } else if a.first() != b.first() {
        (a.first() as u32) < (b.first() as u32)
    } else {
        text_le(a.drop_first(), b.drop_first())
    }
}

/// The texts are in the order of strings.
pub open spec fn in_text_order(s: Seq<Seq<char>>) -> bool {
    forall|i: int, j: int| 0 <= i < j < s.len() ==> text_le(s[i], s[j])
}

/// The lines of the works from index `from` on: number, colon, title.
pub open spec fn works_text(works: Seq<Seq<char>>, from: nat) -> Seq<char>
    decreases works.len() - from,
{
    if from >= works.len() {
        Seq::empty()
    } else {
        decimal(from + 1) + ": "@ + works[from as int] + "\n"@ + works_text(works, from + 1)
    }
}

/// The lines of one entry: the artist, then the works.
pub open spec fn entry_text(entry: Entry) -> Seq<char> {
    entry.0 + "\n"@ + works_text(entry.1, 0)
}

/// The text of the entries from index `from` on, with an empty line before
/// each entry but the first of the table.
pub open spec fn table_text(entries: Seq<Entry>, from: nat) -> Seq<char>
    decreases entries.len() - from,
{
    if from >= entries.len() {
        Seq::empty()
    } else {
        (if from == 0 {
            Seq::empty()
        } else {
            "\n"@
        }) + entry_text(entries[from as int]) + table_text(entries, from + 1)
    }
}

/// The entries as plain text.
pub open spec fn listing(entries: Seq<(String, Vec<String>)>) -> Seq<Entry> {
    entries.map_values(|e: (String, Vec<String>)| (e.0@, texts(e.1@)))
}

/// Calls `slice::sort` on strings: the strings are put in their order,
/// character by character, and none is lost or added.
#[verifier::external_body]
fn sort_strings(v: &mut Vec<String>)
    ensures
        in_text_order(texts(final(v)@)),
        texts(final(v)@).to_multiset() == texts(old(v)@).to_multiset(),
{
    v.sort()
}

/// The artists and their works, in the order in which the artists were
/// first entered.
pub struct Table {
    entries: Vec<(String, Vec<String>)>,
}

impl View for Table {
    type V = Seq<Entry>;

    closed spec fn view(&self) -> Seq<Entry> {
        listing(self.entries@)
    }
}

impl Default for Table {
    /// The empty table.
    fn default() -> (table: Self)
        ensures
            table@ == Seq::<Entry>::empty(),
    {
        let table = Self { entries: Vec::new() };
        proof {
            assert(table@ =~= Seq::<Entry>::empty());
        }
        table
    }
}

impl Table {
    /// What holds of every table: each artist has one entry.
    #[verifier::type_invariant]
    pub open spec fn one_entry_each(&self) -> bool {
        artists_distinct(self@)
    }

    /// The empty table.
    pub fn new() -> (table: Self)
        ensures
            table@ == Seq::<Entry>::empty(),
    {
        Self::default()
    }

    /// The index of the entry of `artist`, if there is one.
    fn find(&self, artist: &str) -> (r: Option<usize>)
        ensures
            artists_distinct(self@),
            match r {
                Some(i) => i < self@.len() && index_of(self@, artist@) == Some(i as int),
                None => index_of(self@, artist@) is None,
            },
    {
        proof {
            use_type_invariant(self);
        }
        let key = artist.to_owned();
        let mut i: usize = 0;
        while i < self.entries.len()
            invariant
                i <= self.entries.len(),
                self@.len() == self.entries.len(),
                artists_distinct(self@),
                key@ == artist@,
                forall|k: int| 0 <= k < i ==> (#[trigger] self@[k]).0 != artist@,
            decreases self.entries.len() - i,
        {
            if self.entries[i].0 == key {
                proof {
                    assert(self@[i as int].0 == artist@);
                    let k = choose|k: int|
                        0 <= k < self@.len() && (#[trigger] self@[k]).0 == artist@;
                    if k < i {
                        assert(self@[k].0 != self@[i as int].0);
                    } else if i < k {
                        assert(self@[i as int].0 != self@[k].0);
                    }
                }
                return Some(i);
            }
            i = i + 1;
        }
        None
    }

    /// Adds the work `v` to the works of the artist `k`; the artist is
    /// entered at the end of the table if they are new to it.
    pub fn insert(&mut self, k: &str, v: &str)
        ensures
            match index_of(old(self)@, k@) {
                Some(i) => final(self)@ == old(self)@.update(
                    i,
                    (k@, old(self)@[i].1.push(v@)),
                ),
                None => final(self)@ == old(self)@.push((k@, seq![v@])),
            },
    {
        let found = self.find(k);
        let mut table = Table::new();
        std::mem::swap(self, &mut table);
        let ghost before = table@;
        let mut entries = table.entries;
        match found {
            Some(i) => {
                let (artist, mut works) = entries.remove(i);
                works.push(v.to_owned());
                entries.insert(i, (artist, works));
                proof {
                    let after = listing(entries@);
                    assert(after =~= before.update(i as int, (k@, before[i as int].1.push(v@)))) by {
                        assert(texts(works@) =~= before[i as int].1.push(v@));
                    }
                    assert forall|a: int, b: int| 0 <= a < b < after.len() implies (
                    #[trigger] after[a]).0 != (#[trigger] after[b]).0 by {
                        assert(before[a].0 != before[b].0);
                    }
                }
                *self = Table { entries };
            },
            None => {
                let mut works = Vec::new();
                works.push(v.to_owned());
                entries.push((k.to_owned(), works));
                proof {
                    let after = listing(entries@);
                    assert(texts(works@) =~= seq![v@]);
                    assert(after =~= before.push((k@, seq![v@])));
                    assert forall|a: int, b: int| 0 <= a < b < after.len() implies (
                    #[trigger] after[a]).0 != (#[trigger] after[b]).0 by {
                        if b < before.len() {
                            assert(before[a].0 != before[b].0);
                        } else {
                            assert(before[a].0 != k@);
                        }
                    }
                }
                *self = Table { entries };
            },
        }
    }

    /// Puts the works of each artist in the order of strings. No work is
    /// lost or added, and the artists stay where they are.
    pub fn sort_works(&mut self)
        ensures
            final(self)@.len() == old(self)@.len(),
            forall|i: int|
                0 <= i < old(self)@.len() ==> {
                    &&& (#[trigger] final(self)@[i]).0 == old(self)@[i].0
                    &&& in_text_order(final(self)@[i].1)
                    &&& final(self)@[i].1.to_multiset() == old(self)@[i].1.to_multiset()
                },
    {
        proof {
            use_type_invariant(&*self);
        }
        let mut table = Table::new();
        std::mem::swap(self, &mut table);
        let ghost before = table@;
        let mut entries = table.entries;
        let mut i: usize = 0;
        while i < entries.len()
            invariant
                i <= entries.len(),
                entries@.len() == before.len(),
                forall|k: int| 0 <= k < entries@.len() ==> (#[trigger] entries@[k]).0@ == before[k].0,
                forall|k: int|
                    0 <= k < i ==> in_text_order(texts((#[trigger] entries@[k]).1@)) && texts(
                        entries@[k].1@,
                    ).to_multiset() == before[k].1.to_multiset(),
                forall|k: int|
                    i <= k < entries@.len() ==> texts((#[trigger] entries@[k]).1@) == before[k].1,
            decreases entries.len() - i,
        {
            let (artist, mut works) = entries.remove(i);
            sort_strings(&mut works);
            entries.insert(i, (artist, works));
            i = i + 1;
        }
        proof {
            let after = listing(entries@);
            assert forall|a: int, b: int| 0 <= a < b < after.len() implies (#[trigger] after[a]).0
                != (#[trigger] after[b]).0 by {
                assert(before[a].0 != before[b].0);
            }
        }
        *self = Table { entries };
    }

    /// The table as text: for each artist their name on a line, then their
    /// works, numbered from one, a line each; an empty line between the
    /// artists.
    pub fn to_text(&self) -> (text: String)
        ensures
            text@ == table_text(self@, 0),
    {
        let mut text = String::new();
        let mut i: usize = self.entries.len();
        proof {
            assert(text@ =~= table_text(self@, i as nat));
        }
        while i > 0
            invariant
                i <= self.entries.len(),
                self@.len() == self.entries.len(),
                text@ == table_text(self@, i as nat),
            decreases i,
        {
            i = i - 1;
            let mut entry = String::new();
            if i > 0 {
                entry.append("\n");
            }
            entry.append(self.entries[i].0.as_str());
            entry.append("\n");
            let works = works_to_text(&self.entries[i].1);
            entry.append(works.as_str());
            entry.append(text.as_str());
            proof {
                assert(self@[i as int] == (self.entries@[i as int].0@, texts(self.entries@[i as int].1@)));
                assert(entry@ =~= table_text(self@, i as nat));
            }
            text = entry;
        }
        text
    }
}

/// The lines of the works: number, colon, title.
fn works_to_text(works: &Vec<String>) -> (text: String)
    ensures
        text@ == works_text(texts(works@), 0),
{
    let mut text = String::new();
    let mut i: usize = works.len();
    let ghost all = texts(works@);
    proof {
        assert(text@ =~= works_text(all, i as nat));
    }
    while i > 0
        invariant
            i <= works.len(),
            all == texts(works@),
            text@ == works_text(all, i as nat),
        decreases i,
    {
        i = i - 1;
        let mut line = to_decimal((i + 1) as u64);
        line.append(": ");
        line.append(works[i].as_str());
        line.append("\n");
        line.append(text.as_str());
        proof {
            assert(all[i as int] == works@[i as int]@);
            assert(line@ =~= works_text(all, i as nat));
        }
        text = line;
    }
    text
}

} // verus!
