//! The per-operation steps of a mutex-guarded growable sequence that is
//! shared across threads. Each function here is one serialized operation,
//! performed while the caller holds the lock; the lock itself, and the
//! threads, live with the caller. Because every append grows the sequence
//! by exactly one element, serializing the operations means that N appends
//! from any number of threads grow it by exactly N — no update is lost.

use vstd::prelude::*;

verus! {

/// A bounds-checked read: the element at `n`, or `None` when `n` is past
/// the end. Never reaches outside the sequence.
pub fn read_at<T>(v: &Vec<T>, n: usize) -> (r: Option<&T>)
    ensures
        n < v@.len() ==> r == Some(&v@[n as int]),
        n >= v@.len() ==> r is None,
{
    if n < v.len() {
        Some(&v[n])
    } else {
        None
    }
}

/// Appends one value: the sequence keeps every element it had and grows by
/// exactly one.
pub fn append<T>(v: &mut Vec<T>, value: T)
    ensures
        final(v)@ == old(v)@.push(value),
        final(v)@.len() == old(v)@.len() + 1,
{
    v.push(value);
}

} // verus!
