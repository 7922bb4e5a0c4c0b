use chains::guarded::{append, read_at};
use std::sync::{Arc, Mutex};

#[test]
fn read_at_is_bounds_checked() {
    let v: Vec<i8> = vec![1; 10];
    assert_eq!(read_at(&v, 0), Some(&1));
    assert_eq!(read_at(&v, 9), Some(&1));
    assert_eq!(read_at(&v, 10), None);
    assert_eq!(read_at(&v, 12), None);
}

#[test]
fn append_grows_by_exactly_one() {
    let mut v: Vec<String> = vec!["A".to_string(); 10];
    append(&mut v, "B".to_string());
    assert_eq!(v.len(), 11);
    assert_eq!(read_at(&v, 10), Some(&"B".to_string()));
    assert_eq!(read_at(&v, 0), Some(&"A".to_string()));
}

#[test]
fn serialized_appends_lose_no_update() {
    // Each operation runs while the lock is held, as it would on its own
    // thread; N appends leave the sequence exactly N longer.
    let shared = Arc::new(Mutex::new(vec![1i8; 10]));
    let n: usize = 13;
    for _ in 0..n {
        let guard = &mut *shared.lock().unwrap();
        append(guard, 8);
    }
    assert_eq!(shared.lock().unwrap().len(), 10 + n);
}
