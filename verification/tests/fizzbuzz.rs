use async_chat::decimal::to_decimal;
use async_chat::fizzbuzz::fizzbuzz;

#[test]
fn fizzbuzz_first_fifteen() {
    let mut walk = fizzbuzz();
    let want = [
        "1", "2", "fizz", "4", "buzz", "fizz", "7", "8", "fizz", "buzz", "11", "fizz", "13", "14",
        "fizzbuzz",
    ];
    for expected in want {
        assert_eq!(walk.next(), Some(expected.to_string()));
    }
}

#[test]
fn decimal_digits() {
    assert_eq!(to_decimal(0), "0");
    assert_eq!(to_decimal(9), "9");
    assert_eq!(to_decimal(10), "10");
    assert_eq!(to_decimal(4294967295), "4294967295");
}
