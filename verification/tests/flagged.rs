use async_chat::flagged::RefWithFlag;

#[test]
fn from_and_as_flag() {
    let v = vec![10, 20, 30];
    let address = std::ptr::from_ref(&v).addr();
    let flagged = RefWithFlag::from_address(&v, address, true);
    let unflagged = RefWithFlag::from_address(&v, address, false);
    assert!(flagged.as_flag());
    assert!(!unflagged.as_flag());
}

#[test]
fn address_comes_back_without_the_flag() {
    let v = vec![10, 20, 30];
    let address = std::ptr::from_ref(&v).addr();
    assert_eq!(address % 2, 0);
    assert_eq!(RefWithFlag::from_address(&v, address, true).address(), address);
    assert_eq!(RefWithFlag::from_address(&v, address, false).address(), address);
    let unit = ();
    assert_eq!(RefWithFlag::from_address(&unit, 0, true).address(), 0);
    assert!(RefWithFlag::from_address(&unit, 4096, true).as_flag());
    assert_eq!(RefWithFlag::from_address(&unit, 4096, true).address(), 4096);
}
