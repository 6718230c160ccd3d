//! Complex numbers over any component type, with `+`, unary `-` and `==`.
use core::ops::{Add, Neg};
use vstd::prelude::*;
use vstd::std_specs::cmp::PartialEqSpec;
use vstd::std_specs::ops::{AddSpec, NegSpec};

verus! {

/// A complex number: a real and an imaginary part.
#[derive(Debug)]
pub struct Complex<T> {
    pub re: T,
    pub im: T,
}

impl<T> Add for Complex<T> where T: Add<Output = T> {
    type Output = Self;

    /// The sum, part by part.
    fn add(self, rhs: Self) -> (sum: Self) {
        Self { re: self.re.add(rhs.re), im: self.im.add(rhs.im) }
    }
}

impl<T> vstd::std_specs::ops::AddSpecImpl for Complex<T> where T: Add<Output = T> {
    open spec fn obeys_add_spec() -> bool {
        T::obeys_add_spec()
    }

    open spec fn add_req(self, rhs: Self) -> bool {
        self.re.add_req(rhs.re) && self.im.add_req(rhs.im)
    }

    open spec fn add_spec(self, rhs: Self) -> Self {
        Complex { re: self.re.add_spec(rhs.re), im: self.im.add_spec(rhs.im) }
    }
}

impl<T> Add<&Self> for Complex<T> where T: Copy + Add<Output = T> {
    type Output = Self;

    /// The sum with a borrowed number, part by part.
    fn add(self, rhs: &Self) -> (sum: Self) {
        Self { re: self.re.add(rhs.re), im: self.im.add(rhs.im) }
    }
}

impl<T> vstd::std_specs::ops::AddSpecImpl<&Self> for Complex<T> where T: Copy + Add<Output = T> {
    open spec fn obeys_add_spec() -> bool {
        T::obeys_add_spec()
    }

    open spec fn add_req(self, rhs: &Self) -> bool {
        self.re.add_req(rhs.re) && self.im.add_req(rhs.im)
    }

    open spec fn add_spec(self, rhs: &Self) -> Self {
        Complex { re: self.re.add_spec(rhs.re), im: self.im.add_spec(rhs.im) }
    }
}

impl<T> Add for &Complex<T> where T: Copy + Add<Output = T> {
    type Output = Complex<T>;

    /// The sum of two borrowed numbers, part by part.
    fn add(self, rhs: Self) -> (sum: Complex<T>) {
        Complex { re: self.re.add(rhs.re), im: self.im.add(rhs.im) }
    }
}

impl<T> vstd::std_specs::ops::AddSpecImpl for &Complex<T> where T: Copy + Add<Output = T> {
    open spec fn obeys_add_spec() -> bool {
        T::obeys_add_spec()
    }

    open spec fn add_req(self, rhs: Self) -> bool {
        self.re.add_req(rhs.re) && self.im.add_req(rhs.im)
    }

    open spec fn add_spec(self, rhs: Self) -> Complex<T> {
        Complex { re: self.re.add_spec(rhs.re), im: self.im.add_spec(rhs.im) }
    }
}

impl<T> Neg for Complex<T> where T: Neg<Output = T> {
    type Output = Self;

    /// The negation, part by part.
    fn neg(self) -> (negated: Self) {
        Self { re: self.re.neg(), im: self.im.neg() }
    }
}

impl<T> vstd::std_specs::ops::NegSpecImpl for Complex<T> where T: Neg<Output = T> {
    open spec fn obeys_neg_spec() -> bool {
        T::obeys_neg_spec()
    }

    open spec fn neg_req(self) -> bool {
        self.re.neg_req() && self.im.neg_req()
    }

    open spec fn neg_spec(self) -> Self {
        Complex { re: self.re.neg_spec(), im: self.im.neg_spec() }
    }
}

impl<T> Neg for &Complex<T> where T: Copy + Neg<Output = T> {
    type Output = Complex<T>;

    /// The negation of a borrowed number, part by part.
    fn neg(self) -> (negated: Complex<T>) {
        Complex { re: self.re.neg(), im: self.im.neg() }
    }
}

impl<T> vstd::std_specs::ops::NegSpecImpl for &Complex<T> where T: Copy + Neg<Output = T> {
    open spec fn obeys_neg_spec() -> bool {
        T::obeys_neg_spec()
    }

    open spec fn neg_req(self) -> bool {
        self.re.neg_req() && self.im.neg_req()
    }

    open spec fn neg_spec(self) -> Complex<T> {
        Complex { re: self.re.neg_spec(), im: self.im.neg_spec() }
    }
}

impl<T> Complex<T> where T: Copy + Add<Output = T> {
    /// Adds `rhs` to this number in place, part by part.
    pub fn add_assign(&mut self, rhs: Self)
        requires
            old(self).re.add_req(rhs.re),
            old(self).im.add_req(rhs.im),
        ensures
            T::obeys_add_spec() ==> final(self).re == old(self).re.add_spec(rhs.re) && final(self).im == old(self).im.add_spec(rhs.im),
    {
        let re = self.re.add(rhs.re);
        let im = self.im.add(rhs.im);
        self.re = re;
        self.im = im;
    }
}

impl<T> PartialEq for Complex<T> where T: PartialEq {
    /// Two numbers are equal when both of their parts are.
    fn eq(&self, rhs: &Self) -> (r: bool) {
        self.re == rhs.re && self.im == rhs.im
    }
}

impl<T> vstd::std_specs::cmp::PartialEqSpecImpl for Complex<T> where T: PartialEq {
    open spec fn obeys_eq_spec() -> bool {
        T::obeys_eq_spec()
    }

    open spec fn eq_spec(&self, rhs: &Self) -> bool {
        self.re.eq_spec(&rhs.re) && self.im.eq_spec(&rhs.im)
    }
}

} // verus!
