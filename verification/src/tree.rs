//! A binary search tree without balancing, walked in order from either end.
use core::cmp::Ordering;
use std::collections::VecDeque;
use vstd::laws_cmp::obeys_cmp;
use vstd::prelude::*;
use vstd::std_specs::cmp::{OrdSpec, PartialOrdSpec};

verus! {

/// One node of a tree: an element and the links to the two subtrees.
pub struct Node<T> {
    pub left: Option<Box<Node<T>>>,
    pub right: Option<Box<Node<T>>>,
    pub data: T,
}

/// `a` comes before `b`.
pub open spec fn less<T: Ord>(a: T, b: T) -> bool {
    a.cmp_spec(&b) == Ordering::Less
}

/// Each element of `s` comes before the ones after it.
pub open spec fn increasing<T: Ord>(s: Seq<T>) -> bool {
    forall|i: int, j: int| 0 <= i < j < s.len() ==> less(s[i], s[j])
}

/// Some element of `s` compares equal to `x`.
pub open spec fn holds<T: Ord>(s: Seq<T>, x: T) -> bool {
    exists|i: int| 0 <= i < s.len() && x.cmp_spec(&#[trigger] s[i]) == Ordering::Equal
}

/// The elements below a link, left to right.
pub open spec fn in_order<T>(link: Option<Box<Node<T>>>) -> Seq<T>
    decreases link,
{
    match link {
        Some(node) => in_order(node.left) + seq![node.data] + in_order(node.right),
        None => Seq::empty(),
    }
}

/// What the order on `T` is taken to be: `cmp` is antisymmetric and
/// transitive.
pub proof fn lemma_order<T: Ord>()
    requires
        obeys_cmp::<T>(),
    ensures
        T::obeys_cmp_spec(),
        forall|x: T, y: T| #[trigger] less(x, y) <==> y.cmp_spec(&x) == Ordering::Greater,
        forall|x: T, y: T, z: T| less(x, y) && #[trigger] less(y, z) ==> #[trigger] less(x, z),
{
    reveal(vstd::laws_cmp::obeys_cmp_ord);
    reveal(vstd::laws_cmp::obeys_partial_cmp_spec_properties);
    assert forall|x: T, y: T| #[trigger] less(x, y) <==> y.cmp_spec(&x) == Ordering::Greater by {
        assert(x.partial_cmp_spec(&y) == Some(x.cmp_spec(&y)));
        assert(y.partial_cmp_spec(&x) == Some(y.cmp_spec(&x)));
    }
    assert forall|x: T, y: T, z: T| less(x, y) && #[trigger] less(y, z) implies #[trigger] less(
        x,
        z,
    ) by {
        assert(x.partial_cmp_spec(&y) == Some(x.cmp_spec(&y)));
        assert(y.partial_cmp_spec(&z) == Some(y.cmp_spec(&z)));
        assert(x.partial_cmp_spec(&z) == Some(x.cmp_spec(&z)));
    }
}

impl<T> Node<T> {
    /// The elements of the node's subtree, left to right.
    pub open spec fn view(&self) -> Seq<T> {
        in_order(self.left) + seq![self.data] + in_order(self.right)
    }

    /// A node that holds `data` and has no subtrees.
    pub fn new(data: T) -> (node: Self)
        ensures
            node@ == seq![data],
    {
        let node = Self { left: None, right: None, data };
        proof {
            assert(node@ =~= seq![data]);
        }
        node
    }
}

impl<T> core::ops::Deref for Node<T> {
    type Target = T;

    /// The element of this node.
    fn deref(&self) -> (d: &T)
        ensures
            *d == self.data,
    {
        &self.data
    }
}

/// Puts `data` below `link`, unless an equal element is there already.
pub(crate) fn insert_at<T: Ord>(link: &mut Option<Box<Node<T>>>, data: T) -> (r: bool)
    requires
        obeys_cmp::<T>(),
        increasing(in_order(*old(link))),
    ensures
        increasing(in_order(*final(link))),
        r == !holds(in_order(*old(link)), data),
        r ==> exists|k: int|
            0 <= k <= in_order(*old(link)).len() && in_order(*final(link)) == in_order(
                *old(link),
            ).insert(k, data),
        !r ==> *final(link) == *old(link),
    decreases *old(link),
{
    let ghost before = in_order(*link);
    match link {
        Some(node) => {
            let ghost lower = in_order(node.left);
            let ghost upper = in_order(node.right);
            let ghost middle = node.data;
            proof {
                lemma_order::<T>();
                lemma_parts(lower, middle, upper);
            }
            match data.cmp(&node.data) {
                Ordering::Less => {
                    let r = insert_at(&mut node.left, data);
                    proof {
                        let grown = in_order(node.left);
                        assert forall|i: int| 0 <= i < upper.len() implies less(
                            data,
                            #[trigger] upper[i],
                        ) by {
                            assert(less(middle, upper[i]));
                        }
                        lemma_misses(seq![middle] + upper, data);
                        lemma_holds_in_parts(lower, seq![middle] + upper, data);
                        assert(lower + (seq![middle] + upper) =~= before);
                        if r {
                            let k = choose|k: int|
                                0 <= k <= lower.len() && grown == lower.insert(k, data);
                            assert(grown + seq![middle] + upper =~= before.insert(k, data));
                            lemma_grown(lower, grown, k, data, middle, upper, true);
                        }
                    }
                    r
                },
                Ordering::Greater => {
                    let r = insert_at(&mut node.right, data);
                    proof {
                        let grown = in_order(node.right);
                        assert(less(middle, data));
                        assert forall|i: int| 0 <= i < lower.len() implies less(
                            #[trigger] lower[i],
                            data,
                        ) by {
                            assert(less(lower[i], middle));
                        }
                        lemma_passes(lower + seq![middle], data);
                        lemma_holds_in_parts(lower + seq![middle], upper, data);
                        assert((lower + seq![middle]) + upper =~= before);
                        if r {
                            let k = choose|k: int|
                                0 <= k <= upper.len() && grown == upper.insert(k, data);
                            assert(lower + seq![middle] + grown =~= before.insert(
                                lower.len() + 1 + k,
                                data,
                            ));
                            lemma_grown(upper, grown, k, data, middle, lower, false);
                        }
                    }
                    r
                },
                Ordering::Equal => {
                    proof {
                        assert(before[lower.len() + 0int] == middle);
                    }
                    false
                },
            }
        },
        None => {
            *link = Some(Box::new(Node::new(data)));
            proof {
                assert(in_order(*link) =~= Seq::<T>::empty().insert(0, data));
                assert(in_order(*link) =~= seq![data]);
            }
            true
        },
    }
}

/// An increasing sequence `lower + [middle] + upper` has increasing parts,
/// with `middle` between them.
proof fn lemma_parts<T: Ord>(lower: Seq<T>, middle: T, upper: Seq<T>)
    requires
        increasing(lower + seq![middle] + upper),
    ensures
        increasing(lower),
        increasing(upper),
        forall|i: int| 0 <= i < lower.len() ==> less(#[trigger] lower[i], middle),
        forall|i: int| 0 <= i < upper.len() ==> less(middle, #[trigger] upper[i]),
{
    let s = lower + seq![middle] + upper;
    let n = lower.len();
    assert forall|i: int, j: int| 0 <= i < j < lower.len() implies less(lower[i], lower[j]) by {
        assert(s[i] == lower[i] && s[j] == lower[j]);
    }
    assert forall|i: int, j: int| 0 <= i < j < upper.len() implies less(upper[i], upper[j]) by {
        assert(s[n + 1 + i] == upper[i] && s[n + 1 + j] == upper[j]);
    }
    assert forall|i: int| 0 <= i < lower.len() implies less(#[trigger] lower[i], middle) by {
        assert(s[i] == lower[i] && s[n + 0int] == middle);
    }
    assert forall|i: int| 0 <= i < upper.len() implies less(middle, #[trigger] upper[i]) by {
        assert(s[n + 1 + i] == upper[i] && s[n + 0int] == middle);
    }
}

/// A sequence whose elements all come after `x` does not hold `x`.
proof fn lemma_misses<T: Ord>(s: Seq<T>, x: T)
    requires
        forall|i: int| 0 <= i < s.len() ==> less(x, #[trigger] s[i]),
    ensures
        !holds(s, x),
{
}

/// A sequence whose elements all come before `x` does not hold `x`.
proof fn lemma_passes<T: Ord>(s: Seq<T>, x: T)
    requires
        obeys_cmp::<T>(),
        forall|i: int| 0 <= i < s.len() ==> less(#[trigger] s[i], x),
    ensures
        !holds(s, x),
{
    lemma_order::<T>();
    assert forall|i: int| 0 <= i < s.len() implies x.cmp_spec(&#[trigger] s[i])
        != Ordering::Equal by {
        assert(less(s[i], x));
    }
}

/// A sequence holds `x` exactly when one of its two parts does.
proof fn lemma_holds_in_parts<T: Ord>(a: Seq<T>, b: Seq<T>, x: T)
    ensures
        holds(a + b, x) <==> holds(a, x) || holds(b, x),
{
    let s = a + b;
    if holds(a, x) {
        let i = choose|i: int| 0 <= i < a.len() && x.cmp_spec(&#[trigger] a[i]) == Ordering::Equal;
        assert(s[i] == a[i]);
    }
    if holds(b, x) {
        let i = choose|i: int| 0 <= i < b.len() && x.cmp_spec(&#[trigger] b[i]) == Ordering::Equal;
        assert(s[a.len() + i] == b[i]);
    }
    if holds(s, x) {
        let i = choose|i: int| 0 <= i < s.len() && x.cmp_spec(&#[trigger] s[i]) == Ordering::Equal;
        if i < a.len() {
            assert(s[i] == a[i]);
        } else {
            assert(s[i] == b[i - a.len()]);
        }
    }
}

/// Where one part of an increasing sequence has grown by `x` and is still
/// increasing, and `x` lies on the part's side of `middle`, the whole is
/// still increasing. `below` says that the part is the lower one.
proof fn lemma_grown<T: Ord>(
    part: Seq<T>,
    grown: Seq<T>,
    k: int,
    x: T,
    middle: T,
    other: Seq<T>,
    below: bool,
)
    requires
        obeys_cmp::<T>(),
        0 <= k <= part.len(),
        grown == part.insert(k, x),
        increasing(grown),
        increasing(other),
        below ==> less(x, middle),
        !below ==> less(middle, x),
        below ==> forall|i: int| 0 <= i < part.len() ==> less(#[trigger] part[i], middle),
        !below ==> forall|i: int| 0 <= i < part.len() ==> less(middle, #[trigger] part[i]),
        below ==> forall|i: int| 0 <= i < other.len() ==> less(middle, #[trigger] other[i]),
        !below ==> forall|i: int| 0 <= i < other.len() ==> less(#[trigger] other[i], middle),
    ensures
        below ==> increasing(grown + seq![middle] + other),
        !below ==> increasing(other + seq![middle] + grown),
{
    lemma_order::<T>();
    assert forall|i: int| 0 <= i < grown.len() implies (if below {
        less(#[trigger] grown[i], middle)
    } else {
        less(middle, grown[i])
    }) by {
        if i < k {
            assert(grown[i] == part[i]);
        } else if i > k {
            assert(grown[i] == part[i - 1]);
        }
    }
    if below {
        let s = grown + seq![middle] + other;
        let n = grown.len();
        assert forall|i: int, j: int| 0 <= i < j < s.len() implies less(s[i], s[j]) by {
            if j < n {
                assert(less(grown[i], grown[j]));
            } else if i < n {
                assert(less(grown[i], middle));
                if j > n {
                    assert(less(middle, other[j - n - 1]));
                }
            } else if i == n {
                assert(less(middle, other[j - n - 1]));
            } else {
                assert(less(other[i - n - 1], other[j - n - 1]));
            }
        }
    } else {
        let s = other + seq![middle] + grown;
        let n = other.len();
        assert forall|i: int, j: int| 0 <= i < j < s.len() implies less(s[i], s[j]) by {
            if j < n {
                assert(less(other[i], other[j]));
            } else if i < n {
                assert(less(other[i], middle));
                if j > n {
                    assert(less(middle, grown[j - n - 1]));
                }
            } else if i == n {
                assert(less(middle, grown[j - n - 1]));
            } else {
                assert(less(grown[i - n - 1], grown[j - n - 1]));
            }
        }
    }
}

/// How much walking a link still takes: three steps for each node below it.
pub open spec fn effort<T>(link: Option<Box<Node<T>>>) -> nat
    decreases link,
{
    match link {
        Some(node) => 3 + effort(node.left) + effort(node.right),
        None => 0,
    }
}

/// The walk over one node: its left subtree, its element and its right
/// subtree, each until it is handed out.
pub struct NodeIter<'a, T: 'a> {
    left: Option<&'a Node<T>>,
    right: Option<&'a Node<T>>,
    data: Option<&'a T>,
}

/// What the walk over one node hands out: its element, or a subtree to walk.
pub enum State<'a, T: 'a> {
    Data(&'a T),
    Node(&'a Node<T>),
}

impl<'a, T> NodeIter<'a, T> {
    /// The elements that this walk has yet to yield, left to right.
    pub closed spec fn remaining(&self) -> Seq<T> {
        (match self.left {
            Some(node) => node@,
            None => Seq::empty(),
        }) + (match self.data {
            Some(data) => seq![*data],
            None => Seq::empty(),
        }) + (match self.right {
            Some(node) => node@,
            None => Seq::empty(),
        })
    }

    /// How much walking is left here.
    pub closed spec fn effort(&self) -> nat {
        1 + (match self.left {
            Some(node) => 3 + effort(node.left) + effort(node.right),
            None => 0,
        }) + (match self.data {
            Some(_) => 1nat,
            None => 0,
        }) + (match self.right {
            Some(node) => 3 + effort(node.left) + effort(node.right),
            None => 0,
        })
    }

    /// Hands out the left subtree, then the element, then the right subtree.
    fn next(&mut self) -> (r: Option<State<'a, T>>)
        ensures
            match r {
                Some(State::Data(data)) => old(self).remaining() == seq![*data] + final(self).remaining() && final(self).effort() < old(self).effort(),
                Some(State::Node(node)) => old(self).remaining() == node@ + final(self).remaining()
                    && final(self).effort() + 3 + effort(node.left) + effort(node.right) == old(self).effort(),
                None => old(self).remaining().len() == 0 && *final(self) == *old(self),
            },
    {
        match self.left.take() {
            Some(node) => {
                proof {
                    assert(old(self).remaining() =~= node@ + self.remaining());
                }
                Some(State::Node(node))
            },
            None => match self.data.take() {
                Some(data) => {
                    proof {
                        assert(old(self).remaining() =~= seq![*data] + self.remaining());
                    }
                    Some(State::Data(data))
                },
                None => match self.right.take() {
                    Some(node) => {
                        proof {
                            assert(old(self).remaining() =~= node@ + self.remaining());
                        }
                        Some(State::Node(node))
                    },
                    None => None,
                },
            },
        }
    }

    /// Hands out the right subtree, then the element, then the left subtree.
    fn next_back(&mut self) -> (r: Option<State<'a, T>>)
        ensures
            match r {
                Some(State::Data(data)) => old(self).remaining() == final(self).remaining()
                    + seq![*data] && final(self).effort() < old(self).effort(),
                Some(State::Node(node)) => old(self).remaining() == final(self).remaining() + node@
                    && final(self).effort() + 3 + effort(node.left) + effort(node.right) == old(self).effort(),
                None => old(self).remaining().len() == 0 && *final(self) == *old(self),
            },
    {
        match self.right.take() {
            Some(node) => {
                proof {
                    assert(old(self).remaining() =~= self.remaining() + node@);
                }
                Some(State::Node(node))
            },
            None => match self.data.take() {
                Some(data) => {
                    proof {
                        assert(old(self).remaining() =~= self.remaining() + seq![*data]);
                    }
                    Some(State::Data(data))
                },
                None => match self.left.take() {
                    Some(node) => {
                        proof {
                            assert(old(self).remaining() =~= self.remaining() + node@);
                        }
                        Some(State::Node(node))
                    },
                    None => None,
                },
            },
        }
    }
}

impl<T> Node<T> {
    /// The walk over this node, with nothing handed out yet.
    fn iter(&self) -> (it: NodeIter<'_, T>)
        ensures
            it.remaining() == self@,
            it.effort() == 2 + effort(self.left) + effort(self.right),
    {
        let it = NodeIter {
            left: match &self.left {
                Some(node) => Some(&**node),
                None => None,
            },
            right: match &self.right {
                Some(node) => Some(&**node),
                None => None,
            },
            data: Some(&self.data),
        };
        proof {
            assert(it.remaining() =~= self@);
        }
        it
    }
}

/// The elements that a row of walks has yet to yield, left to right.
pub closed spec fn pending<'a, T>(walks: Seq<NodeIter<'a, T>>) -> Seq<T>
    decreases walks.len(),
{
    if walks.len() == 0 {
        Seq::empty()
    } else {
        walks[0].remaining() + pending(walks.drop_first())
    }
}

/// How much walking a row of walks has left.
pub closed spec fn total<'a, T>(walks: Seq<NodeIter<'a, T>>) -> nat
    decreases walks.len(),
{
    if walks.len() == 0 {
        0
    } else {
        walks[0].effort() + total(walks.drop_first())
    }
}

/// A walk put in front of a row yields first, and adds its effort.
proof fn lemma_front<'a, T>(walk: NodeIter<'a, T>, walks: Seq<NodeIter<'a, T>>)
    ensures
        pending(seq![walk] + walks) == walk.remaining() + pending(walks),
        total(seq![walk] + walks) == walk.effort() + total(walks),
{
    assert((seq![walk] + walks).drop_first() =~= walks);
}

/// A walk put behind a row yields last, and adds its effort.
proof fn lemma_back<'a, T>(walks: Seq<NodeIter<'a, T>>, walk: NodeIter<'a, T>)
    ensures
        pending(walks.push(walk)) == pending(walks) + walk.remaining(),
        total(walks.push(walk)) == total(walks) + walk.effort(),
    decreases walks.len(),
{
    if walks.len() == 0 {
        assert(walks.push(walk).drop_first() =~= walks);
        assert(walks.push(walk)[0] == walk);
        assert(pending(walks) =~= Seq::<T>::empty());
        assert(pending(walks.push(walk)) =~= walk.remaining() + pending(walks));
    } else {
        lemma_back(walks.drop_first(), walk);
        assert(walks.push(walk).drop_first() =~= walks.drop_first().push(walk));
        assert(pending(walks.push(walk)) =~= pending(walks) + walk.remaining());
    }
}

/// A walk over a tree in increasing order, which can be taken from either
/// end.
pub struct Iter<'a, T: 'a>(VecDeque<NodeIter<'a, T>>);

impl<'a, T> Iter<'a, T> {
    /// The elements that the walk has yet to yield, in increasing order.
    pub closed spec fn remaining(&self) -> Seq<T> {
        pending(self.0@)
    }

    /// Yields the least element that is left, if any.
    pub fn next(&mut self) -> (r: Option<&'a T>)
        ensures
            match r {
                Some(data) => old(self).remaining().len() > 0 && *data == old(self).remaining()[0]
                    && final(self).remaining() == old(self).remaining().drop_first(),
                None => old(self).remaining().len() == 0 && final(self).remaining().len() == 0,
            },
    {
        loop
            invariant
                pending(self.0@) == old(self).remaining(),
            decreases total(self.0@),
        {
            let ghost before = self.0@;
            match self.0.pop_front() {
                Some(mut walk) => {
                    proof {
                        assert(before.drop_first() =~= self.0@);
                    }
                    let ghost rest = self.0@;
                    let ghost entered = walk;
                    match walk.next() {
                        Some(State::Data(data)) => {
                            self.0.push_front(walk);
                            proof {
                                lemma_front(walk, rest);
                                assert(pending(before) =~= seq![*data] + pending(self.0@));
                                assert(pending(before).drop_first() =~= pending(self.0@));
                            }
                            return Some(data);
                        },
                        Some(State::Node(node)) => {
                            self.0.push_front(walk);
                            let ghost mid = self.0@;
                            let below = node.iter();
                            self.0.push_front(below);
                            proof {
                                lemma_front(walk, rest);
                                lemma_front(below, mid);
                                assert(pending(self.0@) =~= pending(before));
                            }
                        },
                        None => {
                            proof {
                                assert(pending(before) =~= pending(rest));
                            }
                        },
                    }
                },
                None => {
                    return None;
                },
            }
        }
    }

    /// Yields the greatest element that is left, if any.
    pub fn next_back(&mut self) -> (r: Option<&'a T>)
        ensures
            match r {
                Some(data) => old(self).remaining().len() > 0 && *data == old(self).remaining().last() && final(self).remaining() == old(self).remaining().drop_last(),
                None => old(self).remaining().len() == 0 && final(self).remaining().len() == 0,
            },
    {
        loop
            invariant
                pending(self.0@) == old(self).remaining(),
            decreases total(self.0@),
        {
            let ghost before = self.0@;
            match self.0.pop_back() {
                Some(mut walk) => {
                    let ghost rest = self.0@;
                    proof {
                        assert(before =~= rest.push(walk));
                        lemma_back(rest, walk);
                    }
                    match walk.next_back() {
                        Some(State::Data(data)) => {
                            self.0.push_back(walk);
                            proof {
                                lemma_back(rest, walk);
                                assert(pending(before) =~= pending(self.0@) + seq![*data]);
                                assert(pending(before).drop_last() =~= pending(self.0@));
                            }
                            return Some(data);
                        },
                        Some(State::Node(node)) => {
                            self.0.push_back(walk);
                            let ghost mid = self.0@;
                            let below = node.iter();
                            self.0.push_back(below);
                            proof {
                                lemma_back(rest, walk);
                                lemma_back(mid, below);
                                assert(pending(self.0@) =~= pending(before));
                            }
                        },
                        None => {
                            proof {
                                assert(pending(before) =~= pending(rest));
                            }
                        },
                    }
                },
                None => {
                    return None;
                },
            }
        }
    }
}

/// A binary search tree; its view is the sequence of its elements in
/// increasing order.
pub struct Tree<T: Ord> {
    root: Option<Box<Node<T>>>,
}

impl<T: Ord> View for Tree<T> {
    type V = Seq<T>;

    closed spec fn view(&self) -> Seq<T> {
        in_order(self.root)
    }
}

impl<T: Ord> Default for Tree<T> {
    /// The empty tree.
    fn default() -> (tree: Self)
        ensures
            tree@ == Seq::<T>::empty(),
    {
        Self { root: None }
    }
}

impl<T: Ord> Tree<T> {
    /// What holds of every tree: its elements are in increasing order.
    #[verifier::type_invariant]
    pub open spec fn ordered(&self) -> bool {
        increasing(self@)
    }

    /// The empty tree.
    pub fn new() -> (tree: Self)
        ensures
            tree@ == Seq::<T>::empty(),
    {
        Self::default()
    }

    /// A walk over the tree, with every element still to come.
    pub fn iter(&self) -> (iter: Iter<'_, T>)
        ensures
            iter.remaining() == self@,
            increasing(self@),
    {
        proof {
            use_type_invariant(self);
        }
        let mut deque = VecDeque::new();
        match &self.root {
            Some(root) => {
                let walk = root.iter();
                deque.push_front(walk);
                proof {
                    lemma_front(walk, Seq::empty());
                    assert(pending(deque@) =~= self@);
                }
            },
            None => {},
        }
        Iter(deque)
    }

    /// Adds `data`, unless the tree holds an equal element. Says whether it
    /// was added; if so, the elements are those of before with `data` among
    /// them, in increasing order.
    pub fn insert(&mut self, data: T) -> (added: bool)
        requires
            obeys_cmp::<T>(),
        ensures
            increasing(old(self)@),
            increasing(final(self)@),
            added == !holds(old(self)@, data),
            added ==> exists|k: int|
                0 <= k <= old(self)@.len() && final(self)@ == old(self)@.insert(k, data),
            !added ==> final(self)@ == old(self)@,
    {
        proof {
            use_type_invariant(&*self);
        }
        let mut tree = Tree::new();
        std::mem::swap(self, &mut tree);
        let mut root = tree.root;
        let added = insert_at(&mut root, data);
        *self = Tree { root };
        added
    }
}

} // verus!
