//! Arena-allocated chain: one bulk region owns every node. Nodes are
//! carved out of the region on `push_front` and are never freed one at a
//! time; the whole region is released exactly once, when the arena value
//! is dropped. Because every read goes through a borrow of the arena,
//! no handle can reach a node after the arena is gone: the borrow checker
//! enforces the lifetime bound, not a runtime check.

use vstd::prelude::*;

verus! {

struct ArenaSlot<T> {
    data: T,
    next: Option<usize>,
}

/// A chain whose nodes all live in one growable region and share its
/// lifetime. `push_front` hands back a stable handle into the region;
/// the handle is only usable through the arena itself.
pub struct ArenaChain<T> {
    slots: Vec<ArenaSlot<T>>,
    head: Option<usize>,
}

impl<T> View for ArenaChain<T> {
    type V = Seq<T>;

    closed spec fn view(&self) -> Seq<T> {
        self.slots@.map_values(|s: ArenaSlot<T>| s.data).reverse()
    }
}

impl<T> ArenaChain<T> {
    /// Nodes are allocated in push order, and each one links to the node
    /// that was the head when it was made: links always point at earlier
    /// slots, so traversal terminates.
    pub closed spec fn wf(&self) -> bool {
        &&& (self.head is Some <==> self.slots@.len() > 0)
        &&& (self.head matches Some(h) ==> h as int == self.slots@.len() - 1)
        &&& (self.slots@.len() > 0 ==> self.slots@[0].next is None)
        &&& forall|k: int|
            0 < k < self.slots@.len() ==> ((#[trigger] self.slots@[k]).next matches Some(j) && j
                as int == k - 1)
    }

    /// A fresh arena holding an empty chain.
    pub fn new() -> (a: Self)
        ensures
            a.wf(),
            a@ == Seq::<T>::empty(),
    {
        ArenaChain { slots: Vec::new(), head: None }
    }

    /// Allocates a node inside the region, links it to the old head, and
    /// returns its handle. The node lives until the arena is dropped.
    pub fn push_front(&mut self, data: T) -> (handle: usize)
        requires
            old(self).wf(),
        ensures
            final(self).wf(),
            final(self)@ == seq![data] + old(self)@,
            handle == old(self)@.len(),
    {
        let handle = self.slots.len();
        let next = self.head;
        self.slots.push(ArenaSlot { data, next });
        self.head = Some(handle);
        proof {
            assert(self@ =~= seq![data] + old(self)@);
        }
        handle
    }

    /// A read-only view of the payload behind a handle. Handles count up
    /// from the far end of the chain, so handle `h` is element
    /// `len - 1 - h` of the view. A handle that was never issued by this
    /// arena yields `None`.
    pub fn get(&self, handle: usize) -> (r: Option<&T>)
        requires
            self.wf(),
        ensures
            handle < self@.len() ==> r == Some(&self@[self@.len() - 1 - handle]),
            handle >= self@.len() ==> r is None,
    {
        if handle < self.slots.len() {
            Some(&self.slots[handle].data)
        } else {
            None
        }
    }

    /// A read-only view of the head's payload.
    pub fn peek(&self) -> (r: Option<&T>)
        requires
            self.wf(),
        ensures
            self@.len() == 0 ==> r is None,
            self@.len() > 0 ==> r == Some(&self@[0]),
    {
        match self.head {
            None => {
                proof {
                    assert(self.slots@.len() == 0);
                    assert(self@.len() == 0);
                }
                None
            },
            Some(h) => {
                let d = &self.slots[h].data;
                proof {
                    assert(h as int == self.slots@.len() - 1);
                    assert(self@[0] == self.slots@[self.slots@.len() - 1].data);
                    assert(*d == self@[0]);
                }
                Some(d)
            },
        }
    }

    /// The handle of the node a given node links to, if any: the links
    /// walk the chain from the head toward the first node pushed.
    pub fn next_of(&self, handle: usize) -> (r: Option<usize>)
        requires
            self.wf(),
        ensures
            handle < self@.len() ==> r == (if handle == 0 {
                None::<usize>
            } else {
                Some((handle - 1) as usize)
            }),
            handle >= self@.len() ==> r is None,
    {
        if handle < self.slots.len() {
            self.slots[handle].next
        } else {
            None
        }
    }

    /// The number of nodes carved out of the region so far.
    pub fn len(&self) -> (n: usize)
        ensures
            n == self@.len(),
    {
        self.slots.len()
    }

    /// Whether the chain holds no values.
    pub fn is_empty(&self) -> (r: bool)
        ensures
            r <==> self@.len() == 0,
    {
        self.slots.is_empty()
    }
}

} // verus!
