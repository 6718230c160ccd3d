//! A singly linked list, with the nullable link written as an `Option` of a
//! `Box`.
use vstd::prelude::*;

verus! {

/// One cell of a list: an element and the link to the rest.
pub struct Node<T> {
    next: Option<Box<Node<T>>>,
    data: T,
}

/// The elements from a link on, in order.
pub closed spec fn elements<T>(link: Option<Box<Node<T>>>) -> Seq<T>
    decreases link,
{
    match link {
        Some(node) => seq![node.data] + elements(node.next),
        None => Seq::empty(),
    }
}

impl<T> Node<T> {
    /// The element of this cell and those of the cells after it.
    pub closed spec fn view(&self) -> Seq<T> {
        seq![self.data] + elements(self.next)
    }

    /// A cell that holds `data` and has no successor.
    pub fn new(data: T) -> (node: Self)
        ensures
            node@ == seq![data],
    {
        Self { next: None, data }
    }
}

impl<T> core::ops::Deref for Node<T> {
    type Target = T;

    /// The element of this cell.
    fn deref(&self) -> (d: &T)
        ensures
            *d == self@[0],
    {
        &self.data
    }
}

/// A list; its view is the sequence of its elements, front first.
pub struct List<T> {
    head: Option<Box<Node<T>>>,
}

impl<T> View for List<T> {
    type V = Seq<T>;

    closed spec fn view(&self) -> Seq<T> {
        elements(self.head)
    }
}

impl<T> Default for List<T> {
    /// The empty list.
    fn default() -> (list: Self)
        ensures
            list@ == Seq::<T>::empty(),
    {
        Self { head: None }
    }
}

/// A walk over a list, front to back.
pub struct Iter<'a, T: 'a>(Option<&'a Node<T>>);

impl<'a, T> Iter<'a, T> {
    /// The elements that the walk has yet to yield.
    pub closed spec fn remaining(&self) -> Seq<T> {
        match self.0 {
            Some(node) => node@,
            None => Seq::empty(),
        }
    }

    /// Yields the next element, if any is left.
    pub fn next(&mut self) -> (r: Option<&'a T>)
        ensures
            match r {
                Some(data) => old(self).remaining().len() > 0 && *data == old(self).remaining()[0]
                    && final(self).remaining() == old(self).remaining().drop_first(),
                None => old(self).remaining().len() == 0 && final(self).remaining().len() == 0,
            },
    {
        match self.0 {
            Some(node) => {
                proof {
                    assert(node@.drop_first() =~= elements(node.next));
                }
                self.0 = match &node.next {
                    Some(next) => Some(&**next),
                    None => None,
                };
                Some(&node.data)
            },
            None => None,
        }
    }
}

/// A walk over a list, front to back, that lets each element be changed.
pub struct IterMut<'a, T: 'a>(Option<&'a mut Node<T>>);

impl<'a, T> IterMut<'a, T> {
    /// The elements that the walk has yet to yield, as they are now.
    pub closed spec fn remaining(&self) -> Seq<T> {
        match self.0 {
            Some(node) => node@,
            None => Seq::empty(),
        }
    }

    /// Yields the next element, if any is left.
    pub fn next(&mut self) -> (r: Option<&'a mut T>)
        ensures
            match r {
                Some(data) => old(self).remaining().len() > 0 && *data == old(self).remaining()[0]
                    && final(self).remaining() == old(self).remaining().drop_first(),
                None => old(self).remaining().len() == 0 && final(self).remaining().len() == 0,
            },
    {
        match self.0.take() {
            Some(node) => {
                proof {
                    assert(node@.drop_first() =~= elements(node.next));
                }
                self.0 = match &mut node.next {
                    Some(next) => Some(&mut **next),
                    None => None,
                };
                Some(&mut node.data)
            },
            None => None,
        }
    }
}

impl<T> List<T> {
    /// A walk over the list, from its front, that lets each element be
    /// changed.
    pub fn iter_mut(&mut self) -> (iter: IterMut<'_, T>)
        ensures
            iter.remaining() == old(self)@,
    {
        match &mut self.head {
            Some(node) => IterMut(Some(&mut **node)),
            None => IterMut(None),
        }
    }

    /// The empty list.
    pub fn new() -> (list: Self)
        ensures
            list@ == Seq::<T>::empty(),
    {
        Self::default()
    }

    /// A walk over the list, from its front.
    pub fn iter(&self) -> (iter: Iter<'_, T>)
        ensures
            iter.remaining() == self@,
    {
        match &self.head {
            Some(node) => Iter(Some(&**node)),
            None => Iter(None),
        }
    }

    /// Puts `data` at the front.
    pub fn push_front(&mut self, data: T)
        ensures
            final(self)@ == seq![data] + old(self)@,
    {
        let mut node = Node::new(data);
        node.next = self.head.take();
        self.head = Some(Box::new(node));
    }

    /// Takes the front element off, if there is one.
    pub fn pop_front(&mut self) -> (r: Option<T>)
        ensures
            match r {
                Some(data) => old(self)@.len() > 0 && data == old(self)@[0] && final(self)@ == old(self)@.drop_first(),
                None => old(self)@.len() == 0 && final(self)@.len() == 0,
            },
    {
        match self.head.take() {
            Some(node) => {
                let node = *node;
                proof {
                    assert((seq![node.data] + elements(node.next)).drop_first() =~= elements(
                        node.next,
                    ));
                }
                self.head = node.next;
                Some(node.data)
            },
            None => None,
        }
    }
}

} // verus!
