use chains::manual::ManualChain;

#[test]
fn manual_push_front_then_pop_front_is_lifo() {
    let mut chain: ManualChain<i32> = ManualChain::new();
    chain.push_front(1);
    chain.push_front(2);
    chain.push_front(3);
    assert_eq!(chain.pop_front(), Some(3));
    assert_eq!(chain.pop_front(), Some(2));
    assert_eq!(chain.pop_front(), Some(1));
    assert_eq!(chain.pop_front(), None);
    assert!(chain.is_empty());
}

#[test]
fn released_storage_is_reused_not_leaked() {
    let mut chain: ManualChain<i32> = ManualChain::new();
    chain.push_front(1);
    chain.push_front(2);
    assert_eq!(chain.allocation_count(), 2);
    // Removal releases the head's slot onto the free list...
    assert_eq!(chain.pop_front(), Some(2));
    assert_eq!(chain.allocation_count(), 2);
    // ...and the next allocation is carved from it instead of growing the
    // store: the release happened exactly once, and the slot is reachable
    // again only as a fresh node.
    chain.push_front(9);
    assert_eq!(chain.allocation_count(), 2);
    assert_eq!(chain.pop_front(), Some(9));
    assert_eq!(chain.pop_front(), Some(1));
    assert_eq!(chain.pop_front(), None);
    assert_eq!(chain.allocation_count(), 2);
}

#[test]
fn peek_reads_without_releasing() {
    let mut chain: ManualChain<String> = ManualChain::new();
    chain.push_front("x".to_string());
    assert_eq!(chain.peek(), Some(&"x".to_string()));
    assert_eq!(chain.len(), 1);
    assert_eq!(chain.pop_front(), Some("x".to_string()));
    assert_eq!(chain.peek(), None);
}

#[test]
fn manual_pop_front_on_empty_reports_nothing_to_remove() {
    let mut chain: ManualChain<i32> = ManualChain::new();
    assert_eq!(chain.pop_front(), None);
    assert_eq!(chain.allocation_count(), 0);
    assert_eq!(chain.len(), 0);
}
