use async_chat::fib::{fib, Float};
use std::ops::Add;

#[derive(Clone, Copy, Debug, PartialEq)]
struct Single(f32);

impl Float for Single {
    const ZERO: Self = Single(0.0);
    const ONE: Self = Single(1.0);
}

impl Add for Single {
    type Output = Single;

    fn add(self, rhs: Single) -> Single {
        Single(self.0 + rhs.0)
    }
}

impl PartialEq<Single> for f32 {
    fn eq(&self, other: &Single) -> bool {
        *self == other.0
    }
}

#[test]
fn fib_f32() {
    assert_eq!(0.0, fib::<Single>(0));
    assert_eq!(1.0, fib::<Single>(1));
    assert_eq!(1.0, fib::<Single>(2));
    assert_eq!(2.0, fib::<Single>(3));
    assert_eq!(3.0, fib::<Single>(4));
    assert_eq!(5.0, fib::<Single>(5));
    assert_eq!(8.0, fib::<Single>(6));
    assert_eq!(13.0, fib::<Single>(7));
    assert_eq!(21.0, fib::<Single>(8));
    assert_eq!(34.0, fib::<Single>(9));
    assert_eq!(55.0, fib::<Single>(10));
    assert_eq!(89.0, fib::<Single>(11));
    assert_eq!(144.0, fib::<Single>(12));
    assert_eq!(233.0, fib::<Single>(13));
    assert_eq!(377.0, fib::<Single>(14));
    assert_eq!(610.0, fib::<Single>(15));
    assert_eq!(987.0, fib::<Single>(16));
    assert_eq!(1597.0, fib::<Single>(17));
    assert_eq!(2584.0, fib::<Single>(18));
    assert_eq!(4181.0, fib::<Single>(19));
    assert_eq!(6765.0, fib::<Single>(20));
}
