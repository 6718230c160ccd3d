//! A selector: some elements, one of which is current and stands for the
//! whole when the selector is dereferenced.
use vstd::prelude::*;

verus! {

/// Elements of which one is selected.
pub struct Selector<T> {
    elements: Vec<T>,
    current: usize,
}

impl<T> Selector<T> {
    /// The elements.
    pub closed spec fn elements(&self) -> Seq<T> {
        self.elements@
    }

    /// The index of the selected element.
    pub closed spec fn current(&self) -> int {
        self.current as int
    }

    /// What holds of every selector: the selected element is one of the
    /// elements.
    #[verifier::type_invariant]
    pub open spec fn selected_exists(&self) -> bool {
        0 <= self.current() < self.elements().len()
    }

    /// A selector of `elements` with the one at index `current` selected.
    pub fn new(elements: Vec<T>, current: usize) -> (selector: Self)
        requires
            current < elements.len(),
        ensures
            selector.elements() == elements@,
            selector.current() == current,
    {
        Self { elements, current }
    }

    /// Selects the element at index `current`.
    pub fn select(&mut self, current: usize)
        requires
            current < old(self).elements().len(),
        ensures
            final(self).elements() == old(self).elements(),
            final(self).current() == current,
    {
        self.current = current;
    }

    /// The selector with `value` in the place of the selected element.
    pub fn replace(self, value: T) -> (selector: Self)
        ensures
            selector.elements() == self.elements().update(self.current(), value),
            selector.current() == self.current(),
    {
        proof {
            use_type_invariant(&self);
        }
        let current = self.current;
        let mut elements = self.elements;
        elements.set(current, value);
        Self { elements, current }
    }
}

impl<T> core::ops::Deref for Selector<T> {
    type Target = T;

    /// The selected element.
    fn deref(&self) -> (selected: &T)
        ensures
            *selected == self.elements()[self.current()],
    {
        proof {
            use_type_invariant(self);
        }
        &self.elements[self.current]
    }
}

} // verus!
