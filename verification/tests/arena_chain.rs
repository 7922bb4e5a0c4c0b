use chains::arena::ArenaChain;

#[test]
fn handles_stay_valid_while_the_arena_lives() {
    let mut arena: ArenaChain<i32> = ArenaChain::new();
    let a = arena.push_front(1);
    let b = arena.push_front(2);
    let c = arena.push_front(3);
    // Every handle handed out so far still reads its node; nothing was
    // freed by the later pushes.
    assert_eq!(arena.get(a), Some(&1));
    assert_eq!(arena.get(b), Some(&2));
    assert_eq!(arena.get(c), Some(&3));
    assert_eq!(arena.peek(), Some(&3));
    assert_eq!(arena.len(), 3);
    // When `arena` is dropped at the end of this scope the whole region is
    // released at once; the handles cannot be used past that point because
    // every read needs a borrow of the arena itself.
}

#[test]
fn links_walk_from_head_to_first_pushed() {
    let mut arena: ArenaChain<&str> = ArenaChain::new();
    let first = arena.push_front("first");
    let second = arena.push_front("second");
    let third = arena.push_front("third");
    assert_eq!(arena.next_of(third), Some(second));
    assert_eq!(arena.next_of(second), Some(first));
    assert_eq!(arena.next_of(first), None);
}

#[test]
fn a_handle_never_issued_reads_nothing() {
    let mut arena: ArenaChain<i32> = ArenaChain::new();
    arena.push_front(7);
    assert_eq!(arena.get(5), None);
    assert_eq!(arena.next_of(5), None);
}

#[test]
fn empty_arena_has_no_head() {
    let arena: ArenaChain<i32> = ArenaChain::new();
    assert!(arena.is_empty());
    assert_eq!(arena.peek(), None);
    assert_eq!(arena.len(), 0);
}
