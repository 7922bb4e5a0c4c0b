use chains::exclusive::Chain;

#[test]
fn push_front_then_pop_front_is_lifo() {
    let mut chain: Chain<i32> = Chain::new();
    chain.push_front(1);
    chain.push_front(2);
    chain.push_front(3);
    assert_eq!(chain.pop_front(), Some(3));
    assert_eq!(chain.pop_front(), Some(2));
    assert_eq!(chain.pop_front(), Some(1));
    assert_eq!(chain.pop_front(), None);
    assert!(chain.is_empty());
}

#[test]
fn peek_leaves_the_head_in_place() {
    let mut chain: Chain<i32> = Chain::new();
    chain.push_front(1);
    chain.push_front(2);
    chain.push_front(3);
    assert_eq!(chain.pop_front(), Some(3));
    assert_eq!(chain.peek(), Some(&2));
    assert_eq!(chain.peek(), Some(&2));
    assert_eq!(chain.len(), 2);
}

#[test]
fn push_back_appends_in_order() {
    let mut chain: Chain<i32> = Chain::new();
    chain.push_back(1);
    chain.push_back(2);
    chain.push_back(3);
    assert_eq!(chain.pop_front(), Some(1));
    assert_eq!(chain.pop_front(), Some(2));
    assert_eq!(chain.pop_front(), Some(3));
    assert_eq!(chain.pop_front(), None);
}

#[test]
fn reverse_flips_the_order() {
    let mut chain: Chain<i32> = Chain::new();
    chain.push_back(1);
    chain.push_back(2);
    chain.push_back(3);
    chain.reverse();
    assert_eq!(chain.pop_front(), Some(3));
    assert_eq!(chain.pop_front(), Some(2));
    assert_eq!(chain.pop_front(), Some(1));
    assert_eq!(chain.pop_front(), None);
    let mut empty: Chain<i32> = Chain::new();
    empty.reverse();
    assert!(empty.is_empty());
}

#[test]
fn pop_front_on_empty_reports_nothing_to_remove() {
    let mut chain: Chain<String> = Chain::new();
    assert_eq!(chain.pop_front(), None);
    assert!(chain.peek().is_none());
    assert_eq!(chain.len(), 0);
    chain.push_front("a".to_string());
    assert_eq!(chain.pop_front(), Some("a".to_string()));
    assert_eq!(chain.pop_front(), None);
}
