//! The table of groups: at most one group for each name.
use crate::chat::group::{share, Group, GROUP_CAPACITY};
use std::sync::Arc;
use vstd::prelude::*;

verus! {

/// No two groups of `groups` have the same name.
pub open spec fn names_distinct(groups: Seq<Arc<Group>>) -> bool {
    forall|i: int, j: int|
        0 <= i < j < groups.len() ==> (#[trigger] groups[i]).name_view() != (
        #[trigger] groups[j]).name_view()
}

/// Some group of `groups` is called `name`.
pub open spec fn has_group(groups: Seq<Arc<Group>>, name: Seq<char>) -> bool {
    exists|i: int| 0 <= i < groups.len() && (#[trigger] groups[i]).name_view() == name
}

/// The group of `groups` that is called `name`, where there is one.
pub open spec fn group_named(groups: Seq<Arc<Group>>, name: Seq<char>) -> Arc<Group> {
    groups[choose|i: int| 0 <= i < groups.len() && (#[trigger] groups[i]).name_view() == name]
}

/// The table and the group that a get-or-create of `name` leaves behind,
/// where `made` is the group it makes if the name is new.
pub open spec fn with_group(groups: Seq<Arc<Group>>, name: Seq<char>, made: Arc<Group>) -> (
    Seq<Arc<Group>>,
    Arc<Group>,
) {
    if has_group(groups, name) {
        (groups, group_named(groups, name))
    } else {
        (groups.push(made), made)
    }
}

/// In a table of distinct names, the group at an index is the one that its
/// name finds.
pub proof fn lemma_group_named_at(groups: Seq<Arc<Group>>, i: int)
    requires
        names_distinct(groups),
        0 <= i < groups.len(),
    ensures
        has_group(groups, groups[i].name_view()),
        group_named(groups, groups[i].name_view()) == groups[i],
{
    let name = groups[i].name_view();
    let k = choose|k: int| 0 <= k < groups.len() && (#[trigger] groups[k]).name_view() == name;
    if k < i {
        assert(groups[k].name_view() != groups[i].name_view());
    } else if i < k {
        assert(groups[i].name_view() != groups[k].name_view());
    }
}

/// Adding a group under a new name keeps the names distinct, and the name
/// then finds that group.
pub proof fn lemma_push_group(groups: Seq<Arc<Group>>, made: Arc<Group>)
    requires
        names_distinct(groups),
        !has_group(groups, made.name_view()),
    ensures
        names_distinct(groups.push(made)),
        has_group(groups.push(made), made.name_view()),
        group_named(groups.push(made), made.name_view()) == made,
{
    let after = groups.push(made);
    assert forall|i: int, j: int| 0 <= i < j < after.len() implies (#[trigger] after[i]).name_view()
        != (#[trigger] after[j]).name_view() by {
        if j < groups.len() {
            assert(groups[i].name_view() != groups[j].name_view());
        } else {
            assert(after[i] == groups[i]);
            if groups[i].name_view() == made.name_view() {
                assert(has_group(groups, made.name_view()));
            }
        }
    }
    assert(after[groups.len() as int] == made);
    lemma_group_named_at(after, groups.len() as int);
}

/// Getting or creating the same name twice gives the same group, and the
/// second call leaves the table as the first left it: whatever group either
/// call would have made, no second group of that name comes to be.
pub proof fn law_get_or_create_twice(
    groups: Seq<Arc<Group>>,
    name: Seq<char>,
    first: Arc<Group>,
    second: Arc<Group>,
)
    requires
        names_distinct(groups),
        first.name_view() == name,
    ensures
        ({
            let (table, group) = with_group(groups, name, first);
            &&& names_distinct(table)
            &&& group.name_view() == name
            &&& has_group(table, name)
            &&& group_named(table, name) == group
            &&& with_group(table, name, second) == (table, group)
        }),
{
    if has_group(groups, name) {
        let k = choose|k: int| 0 <= k < groups.len() && (#[trigger] groups[k]).name_view() == name;
        lemma_group_named_at(groups, k);
    } else {
        lemma_push_group(groups, first);
    }
}

/// The table after one get-or-create of `name` for each group of `made`,
/// each of which is the group that its call makes if the name is new to
/// the table by then.
pub open spec fn after_calls(groups: Seq<Arc<Group>>, name: Seq<char>, made: Seq<Arc<Group>>) -> Seq<
    Arc<Group>,
>
    decreases made.len(),
{
    if made.len() == 0 {
        groups
    } else {
        after_calls(with_group(groups, name, made.first()).0, name, made.drop_first())
    }
}

/// However many times the same name is got or created, the table is as the
/// first call left it and holds one group of that name: the one that the
/// first call returned.
pub proof fn law_get_or_create_many(
    groups: Seq<Arc<Group>>,
    name: Seq<char>,
    made: Seq<Arc<Group>>,
)
    requires
        names_distinct(groups),
        made.len() > 0,
        made.first().name_view() == name,
    ensures
        after_calls(groups, name, made) == with_group(groups, name, made.first()).0,
        names_distinct(after_calls(groups, name, made)),
        has_group(after_calls(groups, name, made), name),
        group_named(after_calls(groups, name, made), name) == with_group(
            groups,
            name,
            made.first(),
        ).1,
    decreases made.len(),
{
    let (table, group) = with_group(groups, name, made.first());
    law_get_or_create_twice(groups, name, made.first(), made.first());
    lemma_calls_on_known(table, name, made.drop_first());
}

/// Getting or creating a name that the table holds changes nothing, however
/// often.
proof fn lemma_calls_on_known(groups: Seq<Arc<Group>>, name: Seq<char>, made: Seq<Arc<Group>>)
    requires
        has_group(groups, name),
    ensures
        after_calls(groups, name, made) == groups,
    decreases made.len(),
{
    if made.len() > 0 {
        lemma_calls_on_known(groups, name, made.drop_first());
    }
}

/// The registry of groups, by name. It never holds two groups of one name.
pub struct GroupTable {
    groups: Vec<Arc<Group>>,
}

impl View for GroupTable {
    type V = Seq<Arc<Group>>;

    closed spec fn view(&self) -> Seq<Arc<Group>> {
        self.groups@
    }
}

impl GroupTable {
    /// What holds of every table: no two of its groups share a name.
    #[verifier::type_invariant]
    pub open spec fn distinct(&self) -> bool {
        names_distinct(self@)
    }

    /// An empty table.
    pub fn new() -> (t: GroupTable)
        ensures
            t@.len() == 0,
    {
        GroupTable { groups: Vec::new() }
    }

    /// The index of the group called `name`, if the table holds one.
    fn find(&self, name: &String) -> (r: Option<usize>)
        ensures
            match r {
                Some(i) => i < self@.len() && self@[i as int].name_view() == name@,
                None => !has_group(self@, name@),
            },
    {
        let mut i: usize = 0;
        while i < self.groups.len()
            invariant
                i <= self.groups.len(),
                forall|k: int| 0 <= k < i ==> (#[trigger] self.groups@[k]).name_view() != name@,
            decreases self.groups.len() - i,
        {
            if **self.groups[i].name() == *name {
                return Some(i);
            }
            i = i + 1;
        }
        None
    }

    /// The group called `name`, if the table holds one. The table is never
    /// changed.
    pub fn get(&self, name: &String) -> (r: Option<Arc<Group>>)
        ensures
            names_distinct(self@),
            r == if has_group(self@, name@) {
                Some(group_named(self@, name@))
            } else {
                None
            },
    {
        proof {
            use_type_invariant(self);
        }
        match self.find(name) {
            Some(i) => {
                proof {
                    lemma_group_named_at(self@, i as int);
                }
                Some(share(&self.groups[i]))
            },
            None => None,
        }
    }

    /// The group called `name`: the one that the table holds, or else a new
    /// one, which the table holds from now on.
    pub fn get_or_create(&mut self, name: Arc<String>) -> (r: Arc<Group>)
        ensures
            names_distinct(old(self)@),
            names_distinct(final(self)@),
            (final(self)@, r) == with_group(old(self)@, name@, r),
            r.name_view() == name@,
            !has_group(old(self)@, name@) ==> r.limit() == GROUP_CAPACITY,
    {
        proof {
            use_type_invariant(&*self);
        }
        match self.find(&*name) {
            Some(i) => {
                proof {
                    lemma_group_named_at(self@, i as int);
                }
                share(&self.groups[i])
            },
            None => {
                let made = Arc::new(Group::new(name));
                let r = share(&made);
                proof {
                    lemma_push_group(self.groups@, made);
                }
                let mut before = GroupTable::new();
                std::mem::swap(self, &mut before);
                let mut groups = before.groups;
                groups.push(made);
                *self = GroupTable { groups };
                r
            },
        }
    }
}

} // verus!
