use async_chat::fib_iter::fib;

#[test]
fn test_fib_next() {
    let mut iter = fib();
    assert_eq!(iter.next(), Some(0));
    assert_eq!(iter.next(), Some(1));
    assert_eq!(iter.next(), Some(1));
    assert_eq!(iter.next(), Some(2));
    assert_eq!(iter.next(), Some(3));
    assert_eq!(iter.next(), Some(5));
    assert_eq!(iter.next(), Some(8));
    assert_eq!(iter.next(), Some(13));
    assert_eq!(iter.next(), Some(21));
}

#[test]
fn test_fib_take_10() {
    let mut iter = fib();
    let mut result = Vec::new();
    for _ in 0..10 {
        result.push(iter.next().unwrap());
    }
    assert_eq!(result, vec![0, 1, 1, 2, 3, 5, 8, 13, 21, 34]);
}

#[test]
fn fib_walk_ends_where_the_numbers_no_longer_fit() {
    let mut iter = fib();
    let mut last = 0usize;
    let mut count = 0;
    while let Some(x) = iter.next() {
        assert!(x >= last);
        last = x;
        count += 1;
        assert!(count < 200);
    }
    assert_eq!(iter.next(), None);
    if usize::BITS == 64 {
        assert_eq!(count, 94);
        assert_eq!(last, 12200160415121876738);
    }
}
