use async_chat::tree::{Node, Tree};

#[test]
fn tree_next_back() {
    let mut tree = Tree::new();
    tree.insert(1);
    tree.insert(2);
    tree.insert(3);
    let mut iter = tree.iter();
    assert_eq!(iter.next_back(), Some(&3));
    assert_eq!(iter.next_back(), Some(&2));
    assert_eq!(iter.next_back(), Some(&1));
    assert_eq!(iter.next_back(), None);
}

#[test]
fn tree_next() {
    let mut tree = Tree::new();
    tree.insert(110);
    tree.insert(2);
    tree.insert(1000);
    let mut iter = tree.iter();
    assert_eq!(iter.next(), Some(&2));
    assert_eq!(iter.next(), Some(&110));
    assert_eq!(iter.next(), Some(&1000));
    assert_eq!(iter.next(), None);
    assert_eq!(iter.next(), None);
}

#[test]
fn tree_insert() {
    let mut tree = Tree::new();
    assert_eq!(tree.insert(1), true);
    assert_eq!(tree.insert(2), true);
    assert_eq!(tree.insert(3), true);
    assert_eq!(tree.insert(1), false);
}

#[test]
fn node_deref() {
    let node = Node::new(9);
    assert_eq!(*node, 9);
}

#[test]
fn lib_node_new() {
    let node = Node::new(9);
    assert!(node.left.is_none());
    assert!(node.right.is_none());
    assert_eq!(node.data, 9);
}

#[test]
fn tree_new() {
    let tree = Tree::<u32>::new();
    assert_eq!(tree.iter().next(), None);
}

#[test]
fn tree_walk_from_both_ends_meets_once() {
    let mut tree = Tree::new();
    for x in [50, 30, 70, 20, 40, 60, 80] {
        assert!(tree.insert(x));
    }
    let mut iter = tree.iter();
    assert_eq!(iter.next(), Some(&20));
    assert_eq!(iter.next_back(), Some(&80));
    assert_eq!(iter.next(), Some(&30));
    assert_eq!(iter.next_back(), Some(&70));
    assert_eq!(iter.next(), Some(&40));
    assert_eq!(iter.next_back(), Some(&60));
    assert_eq!(iter.next(), Some(&50));
    assert_eq!(iter.next_back(), None);
    assert_eq!(iter.next(), None);
}

#[test]
fn tree_insert_keeps_order_whatever_the_order_of_arrival() {
    let mut tree = Tree::new();
    for x in [5, 1, 4, 2, 3, 5, 1] {
        tree.insert(x);
    }
    let mut iter = tree.iter();
    let mut got = Vec::new();
    while let Some(x) = iter.next() {
        got.push(*x);
    }
    assert_eq!(got, vec![1, 2, 3, 4, 5]);
}
