//! Fibonacci numbers in any number type that has a zero, a one and `+`.
use core::ops::Add;
use vstd::prelude::*;
use vstd::std_specs::ops::AddSpec;

verus! {

/// A number type with a zero and a one.
pub trait Float: Sized {
    const ZERO: Self;
    const ONE: Self;
}

/// The `n`th Fibonacci number in `T`: zero, one, and from then on the sum of
/// the two before.
pub open spec fn fib_of<T: Float + Add<Output = T>>(n: nat) -> T
    decreases n,
{
    if n == 0 {
        T::ZERO
    } else if n == 1 {
        T::ONE
    } else {
        fib_of::<T>((n - 1) as nat).add_spec(fib_of::<T>((n - 2) as nat))
    }
}

/// The `n`th Fibonacci number in `T`.
pub fn fib<T: Float + Add<Output = T>>(n: usize) -> (r: T)
    requires
        T::obeys_add_spec() ==> forall|k: nat|
            2 <= k <= n ==> (#[trigger] fib_of::<T>((k - 1) as nat)).add_req(
                fib_of::<T>((k - 2) as nat),
            ),
        !T::obeys_add_spec() ==> forall|a: T, b: T| #[trigger] a.add_req(b),
    ensures
        T::obeys_add_spec() ==> r == fib_of::<T>(n as nat),
    decreases n,
{
    if n == 0 {
        T::ZERO
    } else if n == 1 {
        T::ONE
    } else {
        let a = fib::<T>(n - 1);
        let b = fib::<T>(n - 2);
        proof {
            if T::obeys_add_spec() {
                let k = n as nat;
                assert(fib_of::<T>((k - 1) as nat).add_req(fib_of::<T>((k - 2) as nat)));
            }
        }
        a.add(b)
    }
}

} // verus!
