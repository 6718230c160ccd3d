//! A binary search tree walked in increasing order with an explicit stack
//! of the nodes still to visit.
use crate::tree::{effort, holds, in_order, increasing, insert_at, Node};
use vstd::laws_cmp::obeys_cmp;
use vstd::prelude::*;

verus! {

/// A binary search tree; its view is the sequence of its elements in
/// increasing order.
pub struct Tree<T: Ord>(Option<Box<Node<T>>>);

impl<T: Ord> View for Tree<T> {
    type V = Seq<T>;

    closed spec fn view(&self) -> Seq<T> {
        in_order(self.0)
    }
}

/// What a node on the stack stands for: its element and its right subtree.
pub open spec fn rest_of<T>(node: &Node<T>) -> Seq<T> {
    seq![node.data] + in_order(node.right)
}

/// The elements that a stack of nodes stands for, the top of the stack
/// first.
pub open spec fn upcoming<'a, T>(stack: Seq<&'a Node<T>>) -> Seq<T>
    decreases stack.len(),
{
    if stack.len() == 0 {
        Seq::empty()
    } else {
        rest_of(stack.last()) + upcoming(stack.drop_last())
    }
}

/// A walk over a tree in increasing order.
pub struct DepthFirstIter<'a, T: 'a + Ord> {
    unvisited: Vec<&'a Node<T>>,
}

impl<'a, T: 'a + Ord> DepthFirstIter<'a, T> {
    /// The elements that the walk has yet to yield, in increasing order.
    pub closed spec fn remaining(&self) -> Seq<T> {
        upcoming(self.unvisited@)
    }

    /// Puts the nodes from `link` down its left edge on the stack: the
    /// elements below `link` then come first.
    pub fn push_left_edge(&mut self, link: &'a Option<Box<Node<T>>>)
        ensures
            final(self).remaining() == in_order(*link) + old(self).remaining(),
    {
        let mut cursor = link;
        let ghost whole = in_order(*link) + upcoming(self.unvisited@);
        loop
            invariant
                in_order(*cursor) + upcoming(self.unvisited@) == whole,
                whole == in_order(*link) + old(self).remaining(),
            decreases effort(*cursor),
        {
            match cursor {
                Some(node) => {
                    proof {
                        let stack = self.unvisited@;
                        assert(stack.push(&**node).drop_last() =~= stack);
                        assert(in_order(node.left) + upcoming(stack.push(&**node)) =~= whole);
                    }
                    cursor = &node.left;
                    self.unvisited.push(&**node);
                },
                None => {
                    proof {
                        assert(upcoming(self.unvisited@) =~= whole);
                    }
                    return ;
                },
            }
        }
    }

    /// Yields the least element that is left, if any.
    pub fn next(&mut self) -> (r: Option<&'a T>)
        ensures
            match r {
                Some(data) => old(self).remaining().len() > 0 && *data == old(self).remaining()[0]
                    && final(self).remaining() == old(self).remaining().drop_first(),
                None => old(self).remaining().len() == 0 && final(self).remaining().len() == 0,
            },
    {
        let ghost before = self.unvisited@;
        match self.unvisited.pop() {
            Some(node) => {
                proof {
                    assert(before.drop_last() =~= self.unvisited@);
                }
                self.push_left_edge(&node.right);
                proof {
                    assert(upcoming(before).drop_first() =~= self.remaining());
                }
                Some(&node.data)
            },
            None => None,
        }
    }
}

impl<T: Ord> Default for Tree<T> {
    /// The empty tree.
    fn default() -> (tree: Self)
        ensures
            tree@ == Seq::<T>::empty(),
    {
        Self(None)
    }
}

impl<'a, T: 'a + Ord> Default for DepthFirstIter<'a, T> {
    /// A walk with nothing to yield.
    fn default() -> (iter: Self)
        ensures
            iter.remaining() == Seq::<T>::empty(),
    {
        Self { unvisited: Vec::default() }
    }
}

impl<T: Ord> Tree<T> {
    /// What holds of every tree: its elements are in increasing order.
    #[verifier::type_invariant]
    pub open spec fn ordered(&self) -> bool {
        increasing(self@)
    }

    /// The empty tree.
    pub fn new() -> (tree: Self)
        ensures
            tree@ == Seq::<T>::empty(),
    {
        Self::default()
    }

    /// Adds `data`, unless the tree holds an equal element. Says whether it
    /// was added; if so, the elements are those of before with `data` among
    /// them, in increasing order.
    pub fn insert(&mut self, data: T) -> (added: bool)
        requires
            obeys_cmp::<T>(),
        ensures
            increasing(old(self)@),
            increasing(final(self)@),
            added == !holds(old(self)@, data),
            added ==> exists|k: int|
                0 <= k <= old(self)@.len() && final(self)@ == old(self)@.insert(k, data),
            !added ==> final(self)@ == old(self)@,
    {
        proof {
            use_type_invariant(&*self);
        }
        let mut tree = Tree::new();
        std::mem::swap(self, &mut tree);
        let mut root = tree.0;
        let added = insert_at(&mut root, data);
        *self = Tree(root);
        added
    }

    /// A walk over the tree, with every element still to come.
    pub fn iter(&self) -> (iter: DepthFirstIter<'_, T>)
        ensures
            iter.remaining() == self@,
            increasing(self@),
    {
        proof {
            use_type_invariant(self);
        }
        let mut iter = DepthFirstIter::default();
        iter.push_left_edge(&self.0);
        proof {
            assert(in_order(self.0) + Seq::<T>::empty() =~= in_order(self.0));
        }
        iter
    }
}

} // verus!
