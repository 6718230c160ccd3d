use async_chat::selector::Selector;

#[test]
fn selector_stands_for_the_selected_element() {
    let mut s = Selector::new(vec!["one", "two", "three"], 0);
    assert_eq!(s.len(), 3);
    assert_eq!(*s, "one");
    s.select(1);
    assert_eq!(*s, "two");
    let s = s.replace("II");
    assert_eq!(*s, "II");
    let mut s = s;
    s.select(2);
    assert_eq!(*s, "three");
    s.select(1);
    assert_eq!(*s, "II");
}
