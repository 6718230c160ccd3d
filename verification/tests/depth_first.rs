use async_chat::depth_first::{DepthFirstIter, Tree};

#[test]
fn depth_first_walk_is_increasing() {
    let mut tree = Tree::new();
    for x in [110, 2, 1000, 7, 2] {
        tree.insert(x);
    }
    let mut iter = tree.iter();
    assert_eq!(iter.next(), Some(&2));
    assert_eq!(iter.next(), Some(&7));
    assert_eq!(iter.next(), Some(&110));
    assert_eq!(iter.next(), Some(&1000));
    assert_eq!(iter.next(), None);
}

#[test]
fn depth_first_insert_reports_duplicates() {
    let mut tree = Tree::new();
    assert_eq!(tree.insert("b"), true);
    assert_eq!(tree.insert("a"), true);
    assert_eq!(tree.insert("b"), false);
}

#[test]
fn depth_first_empty_walk() {
    let mut iter = DepthFirstIter::<u8>::default();
    assert_eq!(iter.next(), None);
    let tree = Tree::<u8>::new();
    assert_eq!(tree.iter().next(), None);
}
