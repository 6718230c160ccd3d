//! The Fibonacci numbers, one after the other.
use vstd::prelude::*;

verus! {

/// The `n`th Fibonacci number.
pub open spec fn fib_number(n: nat) -> nat
    decreases n,
{
    if n == 0 {
        0
    } else if n == 1 {
        1
    } else {
        fib_number((n - 1) as nat) + fib_number((n - 2) as nat)
    }
}

/// The Fibonacci numbers never decrease.
pub proof fn lemma_fib_grows(n: nat)
    ensures
        fib_number(n) <= fib_number(n + 1),
    decreases n,
{
    if n >= 1 {
        lemma_fib_grows((n - 1) as nat);
    }
}

/// `n`, where a `usize` can hold it.
pub open spec fn held(n: nat) -> Option<usize> {
    if n <= usize::MAX {
        Some(n as usize)
    } else {
        None
    }
}

/// The walk along the Fibonacci numbers. It ends where a number no longer
/// fits in a `usize`.
pub struct Fib {
    current: Option<usize>,
    following: Option<usize>,
    position: Ghost<nat>,
}

impl Fib {
    /// How many numbers the walk has yielded.
    pub closed spec fn position(&self) -> nat {
        self.position@
    }

    /// What holds of every walk: it stands on the number at its position.
    #[verifier::type_invariant]
    spec fn on_track(&self) -> bool {
        self.current == held(fib_number(self.position@)) && self.following == held(
            fib_number(self.position@ + 1),
        )
    }

    /// Yields the next Fibonacci number, as long as it fits in a `usize`.
    pub fn next(&mut self) -> (r: Option<usize>)
        ensures
            r == held(fib_number(old(self).position())),
            final(self).position() == old(self).position() + 1,
    {
        proof {
            use_type_invariant(&*self);
            lemma_fib_grows(self.position@);
            lemma_fib_grows(self.position@ + 1);
        }
        let r = self.current;
        let after = match (self.current, self.following) {
            (Some(a), Some(b)) => a.checked_add(b),
            _ => None,
        };
        *self = Fib {
            current: self.following,
            following: after,
            position: Ghost((self.position@ + 1) as nat),
        };
        r
    }
}

/// The walk along the Fibonacci numbers, from the first.
pub fn fib() -> (walk: Fib)
    ensures
        walk.position() == 0,
{
    Fib { current: Some(0), following: Some(1), position: Ghost(0) }
}

} // verus!
