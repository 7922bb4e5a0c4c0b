use chains::doubly::DoublyLinkedList;

#[test]
fn three_appends_traverse_both_ways() {
    let mut list: DoublyLinkedList<char> = DoublyLinkedList::new();
    list.push_back('a');
    list.push_back('b');
    list.push_back('c');
    assert_eq!(list.traverse_forward(), vec!['a', 'b', 'c']);
    assert_eq!(list.traverse_backward(), vec!['c', 'b', 'a']);
}

#[test]
fn push_back_on_empty_sets_head_and_tail() {
    let mut list: DoublyLinkedList<i32> = DoublyLinkedList::new();
    assert!(list.is_empty());
    list.push_back(42);
    assert_eq!(list.peek(), Some(&42));
    assert_eq!(list.traverse_forward(), vec![42]);
    assert_eq!(list.traverse_backward(), vec![42]);
    assert_eq!(list.len(), 1);
}

#[test]
fn pop_front_returns_appends_in_order() {
    let mut list: DoublyLinkedList<i32> = DoublyLinkedList::new();
    list.push_back(1);
    list.push_back(2);
    list.push_back(3);
    assert_eq!(list.pop_front(), Some(1));
    assert_eq!(list.pop_front(), Some(2));
    assert_eq!(list.pop_front(), Some(3));
    assert_eq!(list.pop_front(), None);
    assert!(list.is_empty());
}

#[test]
fn removal_breaks_the_back_link() {
    let mut list: DoublyLinkedList<i32> = DoublyLinkedList::new();
    list.push_back(1);
    list.push_back(2);
    list.push_back(3);
    assert_eq!(list.pop_front(), Some(1));
    // The new head no longer links back at the removed node.
    assert_eq!(list.traverse_forward(), vec![2, 3]);
    assert_eq!(list.traverse_backward(), vec![3, 2]);
    list.push_back(4);
    assert_eq!(list.traverse_forward(), vec![2, 3, 4]);
    assert_eq!(list.traverse_backward(), vec![4, 3, 2]);
}
