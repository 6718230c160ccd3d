use async_chat::interval::Interval;
use std::cmp::Ordering;

#[test]
fn partial_ord() {
    let a = Interval { start: 10, end: 20 };
    let b = Interval { start: 5, end: 10 };
    let c = Interval { start: 20, end: 21 };
    let d = Interval { start: 9, end: 15 };
    assert_eq!(a.partial_cmp(&a), Some(Ordering::Equal));
    assert_eq!(a.partial_cmp(&b), Some(Ordering::Greater));
    assert_eq!(a.partial_cmp(&c), Some(Ordering::Less));
    assert_eq!(a.partial_cmp(&d), None);
    assert!(!(a < d));
    assert!(!(a >= d));
    assert!(a != d);
}
