use async_chat::complex::Complex;
use std::ops::{Add, Neg};

#[test]
fn plus() {
    let a = Complex { re: 1.9, im: 5.2 };
    let b = Complex { re: 2.1, im: 9.8 };
    assert_eq!(a + b, Complex { re: 4.0, im: 15.0 });
}

#[test]
fn add() {
    let a = Complex { re: 1.9, im: 5.2 };
    let b = Complex { re: 2.1, im: 9.8 };
    assert_eq!(a.add(b), Complex { re: 4.0, im: 15.0 });
}

#[test]
fn plus_ref() {
    let a = Complex { re: 1.9, im: 5.2 };
    let b = Complex { re: 2.1, im: 9.8 };
    assert_eq!(a + &b, Complex { re: 4.0, im: 15.0 });
}

#[test]
fn add_ref() {
    let a = Complex { re: 1.9, im: 5.2 };
    let b = Complex { re: 2.1, im: 9.8 };
    assert_eq!(a.add(&b), Complex { re: 4.0, im: 15.0 });
}

#[test]
fn ref_plus_ref() {
    let a = Complex { re: 1.9, im: 5.2 };
    let b = Complex { re: 2.1, im: 9.8 };
    assert_eq!(&a + &b, Complex { re: 4.0, im: 15.0 });
}

#[test]
fn ref_add_ref() {
    let a = Complex { re: 1.9, im: 5.2 };
    let b = Complex { re: 2.1, im: 9.8 };
    assert_eq!(a.add(&b), Complex { re: 4.0, im: 15.0 });
}

#[test]
fn minus() {
    let a = Complex { re: 1.1, im: -1.2 };

    assert_eq!(-a, Complex { re: -1.1, im: 1.2 });
}

#[test]
fn neg() {
    let a = Complex { re: 1.1, im: -1.2 };

    assert_eq!(a.neg(), Complex { re: -1.1, im: 1.2 });
}

#[test]
fn minus_ref() {
    let a = &Complex { re: 1.1, im: -1.2 };

    assert_eq!(-a, Complex { re: -1.1, im: 1.2 });
}

#[test]
fn neg_ref() {
    let a = &Complex { re: 1.1, im: -1.2 };

    assert_eq!(a.neg(), Complex { re: -1.1, im: 1.2 });
}

#[test]
fn plus_equal() {
    let mut a = Complex { re: 1.9, im: 5.2 };
    let b = Complex { re: 2.1, im: 9.8 };

    a.add_assign(b);
    assert_eq!(a, Complex { re: 4.0, im: 15.0 });
}

#[test]
fn add_assign() {
    let mut a = Complex { re: 1.9, im: 5.2 };
    let b = Complex { re: 2.1, im: 9.8 };

    a.add_assign(b);
    assert_eq!(a, Complex { re: 4.0, im: 15.0 });
}

#[test]
fn equal() {
    let a = Complex { re: 1.9, im: 5.2 };
    let b = Complex { re: 1.9, im: 5.2 };

    assert!(a == b);
}

#[test]
fn eq() {
    let a = Complex { re: 1.9, im: 5.2 };
    let b = Complex { re: 1.9, im: 5.2 };

    assert!(a.eq(&b));
}
