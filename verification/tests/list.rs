use async_chat::list::{List, Node};

#[test]
fn list_iter_mut() {
    let mut list = List::new();
    list.push_front("first".to_string());
    list.push_front("second".to_string());
    let mut iter = list.iter_mut();
    assert_eq!(iter.next(), Some(&mut "second".to_string()));
    assert_eq!(iter.next(), Some(&mut "first".to_string()));
    assert_eq!(iter.next(), None);
}

#[test]
fn list_push_and_pop() {
    let mut list = List::new();
    assert_eq!(list.pop_front(), None);
    list.push_front("first");
    list.push_front("second");
    assert_eq!(list.pop_front(), Some("second"));
}

#[test]
fn list_push_front() {
    let mut list = List::new();
    list.push_front("first".to_string());
    list.push_front("second".to_string());
}

#[test]
fn list_new() {
    let list = List::<String>::new();
    assert_eq!(list.iter().next(), None);
}

#[test]
fn node_new() {
    let node = Node::new("first".to_string());
    assert_eq!(*node, "first".to_string());
}

#[test]
fn list_iter_walks_front_to_back() {
    let mut list = List::new();
    list.push_front(1);
    list.push_front(2);
    list.push_front(3);
    let mut iter = list.iter();
    assert_eq!(iter.next(), Some(&3));
    assert_eq!(iter.next(), Some(&2));
    assert_eq!(iter.next(), Some(&1));
    assert_eq!(iter.next(), None);
}

#[test]
fn list_pop_front_empties_in_order() {
    let mut list = List::new();
    list.push_front(1);
    list.push_front(2);
    assert_eq!(list.pop_front(), Some(2));
    assert_eq!(list.pop_front(), Some(1));
    assert_eq!(list.pop_front(), None);
}

#[test]
fn list_iter_mut_changes_elements() {
    let mut list = List::new();
    list.push_front(1);
    list.push_front(2);
    let mut iter = list.iter_mut();
    while let Some(x) = iter.next() {
        *x += 10;
    }
    assert_eq!(list.pop_front(), Some(12));
    assert_eq!(list.pop_front(), Some(11));
}
