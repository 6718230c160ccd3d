//! Association lists: a vector of keyed entries, read as a map from the
//! keys to the values.
use vstd::prelude::*;

verus! {

/// No two entries have the same key.
pub open spec fn keys_distinct<V>(entries: Seq<(String, V)>) -> bool {
    forall|i: int, j: int|
        0 <= i < j < entries.len() ==> (#[trigger] entries[i]).0@ != (#[trigger] entries[j]).0@
}

/// The entries as a map from keys to values.
pub open spec fn as_map<V>(entries: Seq<(String, V)>) -> Map<Seq<char>, V> {
    Map::new(
        |key: Seq<char>| exists|i: int| 0 <= i < entries.len() && (#[trigger] entries[i]).0@ == key,
        |key: Seq<char>|
            entries[choose|i: int| 0 <= i < entries.len() && (#[trigger] entries[i]).0@ == key].1,
    )
}

/// In entries of distinct keys, the entry at an index is what its key maps
/// to.
pub proof fn lemma_entry<V>(entries: Seq<(String, V)>, i: int)
    requires
        keys_distinct(entries),
        0 <= i < entries.len(),
    ensures
        as_map(entries).contains_key(entries[i].0@),
        as_map(entries)[entries[i].0@] == entries[i].1,
{
    let key = entries[i].0@;
    let k = choose|k: int| 0 <= k < entries.len() && (#[trigger] entries[k]).0@ == key;
    if k < i {
        assert(entries[k].0@ != entries[i].0@);
    } else if i < k {
        assert(entries[i].0@ != entries[k].0@);
    }
}

/// The index of the entry for `key`, if there is one.
pub fn find<V>(entries: &Vec<(String, V)>, key: &String) -> (r: Option<usize>)
    requires
        keys_distinct(entries@),
    ensures
        match r {
            Some(i) => i < entries@.len() && entries@[i as int].0@ == key@ && as_map(
                entries@,
            ).contains_key(key@) && as_map(entries@)[key@] == entries@[i as int].1,
            None => !as_map(entries@).contains_key(key@),
        },
{
    let mut i: usize = 0;
    while i < entries.len()
        invariant
            i <= entries.len(),
            keys_distinct(entries@),
            forall|k: int| 0 <= k < i ==> (#[trigger] entries@[k]).0@ != key@,
        decreases entries.len() - i,
    {
        if entries[i].0 == *key {
            proof {
                lemma_entry(entries@, i as int);
            }
            return Some(i);
        }
        i = i + 1;
    }
    None
}

/// Sets the value for `key` to `value`, in place of the one that was
/// there, if any.
pub fn put<V>(entries: &mut Vec<(String, V)>, key: String, value: V)
    requires
        keys_distinct(old(entries)@),
    ensures
        keys_distinct(final(entries)@),
        as_map(final(entries)@) == as_map(old(entries)@).insert(key@, value),
{
    let ghost before = entries@;
    match find(entries, &key) {
        Some(i) => {
            entries.set(i, (key, value));
            proof {
                let after = entries@;
                assert forall|a: int, b: int| 0 <= a < b < after.len() implies (
                #[trigger] after[a]).0@ != (#[trigger] after[b]).0@ by {
                    assert(before[a].0@ != before[b].0@);
                }
                assert forall|p: Seq<char>|
                    as_map(after).contains_key(p) == as_map(before).insert(
                        key@,
                        value,
                    ).contains_key(p) by {
                    if as_map(after).contains_key(p) {
                        let k = choose|k: int|
                            0 <= k < after.len() && (#[trigger] after[k]).0@ == p;
                        assert(before[k].0@ == p);
                    }
                    if as_map(before).contains_key(p) {
                        let k = choose|k: int|
                            0 <= k < before.len() && (#[trigger] before[k]).0@ == p;
                        assert(after[k].0@ == p);
                    }
                    if p == key@ {
                        assert(after[i as int].0@ == p);
                    }
                }
                assert forall|p: Seq<char>| as_map(after).contains_key(p) implies as_map(after)[p]
                    == as_map(before).insert(key@, value)[p] by {
                    let k = choose|k: int| 0 <= k < after.len() && (#[trigger] after[k]).0@ == p;
                    lemma_entry(after, k);
                    if k != i {
                        assert(before[k] == after[k]);
                        lemma_entry(before, k);
                    }
                }
                assert(as_map(after) =~= as_map(before).insert(key@, value));
            }
        },
        None => {
            entries.push((key, value));
            proof {
                let after = entries@;
                let n = before.len() as int;
                assert forall|a: int, b: int| 0 <= a < b < after.len() implies (
                #[trigger] after[a]).0@ != (#[trigger] after[b]).0@ by {
                    if b < n {
                        assert(before[a].0@ != before[b].0@);
                    } else {
                        assert(after[a] == before[a]);
                        assert(before[a].0@ != key@);
                    }
                }
                assert forall|p: Seq<char>|
                    as_map(after).contains_key(p) == as_map(before).insert(
                        key@,
                        value,
                    ).contains_key(p) by {
                    if as_map(after).contains_key(p) {
                        let k = choose|k: int|
                            0 <= k < after.len() && (#[trigger] after[k]).0@ == p;
                        if k < n {
                            assert(before[k].0@ == p);
                        }
                    }
                    if as_map(before).contains_key(p) {
                        let k = choose|k: int|
                            0 <= k < before.len() && (#[trigger] before[k]).0@ == p;
                        assert(after[k].0@ == p);
                    }
                    if p == key@ {
                        assert(after[n].0@ == p);
                    }
                }
                assert forall|p: Seq<char>| as_map(after).contains_key(p) implies as_map(after)[p]
                    == as_map(before).insert(key@, value)[p] by {
                    let k = choose|k: int| 0 <= k < after.len() && (#[trigger] after[k]).0@ == p;
                    lemma_entry(after, k);
                    if k < n {
                        assert(before[k] == after[k]);
                        lemma_entry(before, k);
                    }
                }
                assert(as_map(after) =~= as_map(before).insert(key@, value));
            }
        },
    }
}

} // verus!
