//! The fizz-buzz sequence: the numbers from one on, with `fizz` for the
//! multiples of three and `buzz` for those of five.
use crate::decimal::{decimal, to_decimal};
use vstd::prelude::*;

verus! {

/// The `i`th term: `fizz` if three divides `i`, followed by `buzz` if five
/// does, and `i` in decimal digits if neither does.
pub open spec fn term(i: nat) -> Seq<char> {
    let fizz = if i % 3 == 0 {
        "fizz"@
    } else {
        Seq::empty()
    };
    let buzz = if i % 5 == 0 {
        "buzz"@
    } else {
        Seq::empty()
    };
    if i % 3 == 0 || i % 5 == 0 {
        fizz + buzz
    } else {
        decimal(i)
    }
}

/// The walk along the fizz-buzz sequence. It ends after the last number
/// that an `i32` can hold.
pub struct FizzBuzz {
    count: u32,
}

impl FizzBuzz {
    /// How many terms the walk has yielded.
    pub closed spec fn position(&self) -> nat {
        self.count as nat
    }

    /// Yields the next term, if there is one.
    pub fn next(&mut self) -> (r: Option<String>)
        ensures
            match r {
                Some(text) => old(self).position() < i32::MAX && text@ == term(
                    old(self).position() + 1,
                ) && final(self).position() == old(self).position() + 1,
                None => old(self).position() >= i32::MAX && final(self).position() == old(self).position(),
            },
    {
        if self.count >= 0x7fff_ffff {
            return None;
        }
        let i: u32 = self.count + 1;
        self.count = i;
        let mut text = String::new();
        if i % 3 == 0 {
            text.append("fizz");
        }
        if i % 5 == 0 {
            text.append("buzz");
        }
        if i % 3 != 0 && i % 5 != 0 {
            text = to_decimal(i as u64);
        }
        proof {
            assert(text@ =~= term(i as nat));
        }
        Some(text)
    }
}

/// The walk along the fizz-buzz sequence, from its first term.
pub fn fizzbuzz() -> (walk: FizzBuzz)
    ensures
        walk.position() == 0,
{
    FizzBuzz { count: 0 }
}

} // verus!
