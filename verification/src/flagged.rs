//! A reference and a flag in one word: the flag lives in the lowest bit of
//! the address, which an even address leaves free.
use std::marker::PhantomData;
use vstd::prelude::*;

verus! {

/// The address of a `T` that lives as long as `'a`, with a flag in its
/// lowest bit.
pub struct RefWithFlag<'a, T> {
    ptr_and_bit: usize,
    behaves_like: PhantomData<&'a T>,
}

impl<'a, T> RefWithFlag<'a, T> {
    /// The word that holds the address and the flag.
    pub closed spec fn word(&self) -> usize {
        self.ptr_and_bit
    }

    /// Packs the even address of `_referent` with a flag.
    pub fn from_address(_referent: &'a T, address: usize, flag: bool) -> (packed: Self)
        requires
            address % 2 == 0,
        ensures
            packed.word() == address + if flag {
                1int
            } else {
                0int
            },
    {
        let bit: usize = if flag {
            1
        } else {
            0
        };
        assert(address | bit == address + bit) by (bit_vector)
            requires
                address % 2 == 0,
                bit == 0 || bit == 1,
        ;
        Self { ptr_and_bit: address | bit, behaves_like: PhantomData }
    }

    /// The flag.
    pub fn as_flag(&self) -> (flag: bool)
        ensures
            flag == (self.word() % 2 == 1),
    {
        let word = self.ptr_and_bit;
        assert((word & 1 == 1) == (word % 2 == 1)) by (bit_vector);
        self.ptr_and_bit & 1 == 1
    }

    /// The address, without the flag.
    pub fn address(&self) -> (address: usize)
        ensures
            address == self.word() - self.word() % 2,
    {
        let word = self.ptr_and_bit;
        assert(word & !1 == word - word % 2) by (bit_vector);
        self.ptr_and_bit & !1
    }
}

} // verus!
