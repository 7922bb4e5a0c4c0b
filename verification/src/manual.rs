//! Manually-managed chain: nodes are allocated one at a time out of a slot
//! store and linked by slot addresses, and every removal releases exactly
//! one node's storage back to a free list, from which later allocations
//! are carved first. The well-formedness invariant keeps the live chain
//! and the free list disjoint, so a released slot can never be reached
//! from the head (no use after free) and a live slot can never be released
//! twice (no double free). Payload and link live together in one slot and
//! are reached by one address, the slot index, so a node costs a single
//! allocation — the index-based counterpart of embedding the link field
//! inside the payload structure.

use vstd::prelude::*;

verus! {

struct MSlot<T> {
    data: Option<T>,
    link: Option<usize>,
}

/// A singly linked chain over explicitly managed storage. `link` chains
/// live nodes from the head; on a released slot the same field threads the
/// free list instead.
pub struct ManualChain<T> {
    slots: Vec<MSlot<T>>,
    head: Option<usize>,
    free_head: Option<usize>,
    count: usize,
    order: Ghost<Seq<int>>,
    free_order: Ghost<Seq<int>>,
}

impl<T> ManualChain<T> {
    /// The slot addresses of the live chain, head first.
    spec fn ord(&self) -> Seq<int> {
        self.order@
    }

    /// The slot addresses of the free list, next reuse first.
    spec fn fre(&self) -> Seq<int> {
        self.free_order@
    }

    /// Every slot address is either on the live chain or on the free list,
    /// never both; live slots hold a payload and link to the next live
    /// slot, released slots hold none and link to the next free slot.
    pub closed spec fn wf(&self) -> bool {
        &&& forall|i: int| 0 <= i < self.ord().len() ==> 0 <= #[trigger] self.ord()[i] < self.slots@.len()
        &&& forall|i: int| 0 <= i < self.fre().len() ==> 0 <= #[trigger] self.fre()[i] < self.slots@.len()
        &&& forall|i: int, j: int|
            0 <= i < j < self.ord().len() ==> self.ord()[i] != self.ord()[j]
        &&& forall|i: int, j: int|
            0 <= i < j < self.fre().len() ==> self.fre()[i] != self.fre()[j]
        &&& forall|i: int, j: int|
            0 <= i < self.ord().len() && 0 <= j < self.fre().len() ==> self.ord()[i] != self.fre()[j]
        &&& (self.head is Some <==> self.ord().len() > 0)
        &&& (self.head matches Some(h) ==> h as int == self.ord()[0])
        &&& (self.free_head is Some <==> self.fre().len() > 0)
        &&& (self.free_head matches Some(f) ==> f as int == self.fre()[0])
        &&& self.count == self.ord().len()
        &&& self.ord().len() + self.fre().len() == self.slots@.len()
        &&& forall|i: int|
            0 <= i < self.ord().len() ==> (#[trigger] self.slots@[self.ord()[i]]).data is Some
        &&& forall|i: int|
            0 <= i < self.ord().len() ==> ((#[trigger] self.slots@[self.ord()[i]]).link is Some
                <==> i < self.ord().len() - 1)
        &&& forall|i: int|
            0 <= i < self.ord().len() ==> ((#[trigger] self.slots@[self.ord()[i]]).link matches Some(
            j) ==> j as int == self.ord()[i + 1])
        &&& forall|i: int|
            0 <= i < self.fre().len() ==> (#[trigger] self.slots@[self.fre()[i]]).data is None
        &&& forall|i: int|
            0 <= i < self.fre().len() ==> ((#[trigger] self.slots@[self.fre()[i]]).link is Some
                <==> i < self.fre().len() - 1)
        &&& forall|i: int|
            0 <= i < self.fre().len() ==> ((#[trigger] self.slots@[self.fre()[i]]).link matches Some(
            j) ==> j as int == self.fre()[i + 1])
    }

    /// How many released slots are waiting for reuse.
    pub closed spec fn free_slots(&self) -> nat {
        self.fre().len()
    }

    /// How many slots the store has ever allocated.
    pub closed spec fn allocations(&self) -> nat {
        self.slots@.len()
    }
}

impl<T> View for ManualChain<T> {
    type V = Seq<T>;

    closed spec fn view(&self) -> Seq<T> {
        Seq::new(self.ord().len(), |i: int| self.slots@[self.ord()[i]].data.unwrap())
    }
}

impl<T> ManualChain<T> {
    /// An empty chain over an empty store.
    pub fn new() -> (c: Self)
        ensures
            c.wf(),
            c@ == Seq::<T>::empty(),
            c.allocations() == 0,
            c.free_slots() == 0,
    {
        let c = ManualChain {
            slots: Vec::new(),
            head: None,
            free_head: None,
            count: 0,
            order: Ghost(Seq::empty()),
            free_order: Ghost(Seq::empty()),
        };
        proof {
            assert(c@ =~= Seq::<T>::empty());
        }
        c
    }

    /// Allocates a node — out of the free list if a released slot waits
    /// there, else as fresh storage — sets its link to the current head,
    /// and installs it as the new head. The new head is occupied by
    /// construction: allocation cannot yield an invalid node.
    pub fn push_front(&mut self, data: T)
        requires
            old(self).wf(),
            old(self)@.len() < usize::MAX,
        ensures
            final(self).wf(),
            final(self)@ == seq![data] + old(self)@,
            final(self).allocations() == old(self).allocations() + (if old(self).free_slots() == 0 {
                1int
            } else {
                0int
            }),
            final(self).free_slots() == (if old(self).free_slots() == 0 {
                0int
            } else {
                old(self).free_slots() - 1
            }),
    {
        let new_head: usize;
        match self.free_head {
            Some(f) => {
                let next_free = self.slots[f].link;
                self.slots[f].data = Some(data);
                self.slots[f].link = self.head;
                self.free_head = next_free;
                self.order = Ghost(seq![f as int] + self.order@);
                self.free_order = Ghost(self.free_order@.drop_first());
                new_head = f;
            },
            None => {
                let f = self.slots.len();
                self.slots.push(MSlot { data: Some(data), link: self.head });
                self.order = Ghost(seq![f as int] + self.order@);
                new_head = f;
            },
        }
        self.head = Some(new_head);
        self.count = self.count + 1;
        proof {
            assert(self@ =~= seq![data] + old(self)@);
        }
    }

    /// Detaches the head: the payload is moved out of the slot (so it is
    /// neither duplicated nor dropped twice), the slot's storage is
    /// released onto the free list exactly once, and the head advances to
    /// the former head's link. On an empty chain there is nothing to
    /// remove and `None` is returned.
    pub fn pop_front(&mut self) -> (r: Option<T>)
        requires
            old(self).wf(),
        ensures
            final(self).wf(),
            final(self).allocations() == old(self).allocations(),
            old(self)@.len() == 0 ==> r is None && final(self)@ == old(self)@
                && final(self).free_slots() == old(self).free_slots(),
            old(self)@.len() > 0 ==> r == Some(old(self)@[0])
                && final(self)@ == old(self)@.drop_first()
                && final(self).free_slots() == old(self).free_slots() + 1,
    {
        match self.head {
            None => {
                proof {
                    assert(self@ =~= old(self)@);
                }
                None
            },
            Some(h) => {
                let d = self.slots[h].data.take();
                let next = self.slots[h].link;
                self.slots[h].link = self.free_head;
                self.head = next;
                self.free_head = Some(h);
                self.count = self.count - 1;
                self.order = Ghost(self.order@.drop_first());
                self.free_order = Ghost(seq![h as int] + self.free_order@);
                proof {
                    assert(self@ =~= old(self)@.drop_first());
                }
                d
            },
        }
    }

    /// A read-only view of the head's payload.
    pub fn peek(&self) -> (r: Option<&T>)
        requires
            self.wf(),
        ensures
            self@.len() == 0 ==> r is None,
            self@.len() > 0 ==> r == Some(&self@[0]),
    {
        match self.head {
            None => None,
            Some(h) => self.slots[h].data.as_ref(),
        }
    }

    /// The number of values in the chain.
    pub fn len(&self) -> (n: usize)
        requires
            self.wf(),
        ensures
            n == self@.len(),
    {
        self.count
    }

    /// Whether the chain holds no values.
    pub fn is_empty(&self) -> (r: bool)
        requires
            self.wf(),
        ensures
            r <==> self@.len() == 0,
    {
        self.head.is_none()
    }

    /// How many slots of storage the chain has ever allocated: releases
    /// feed the free list, so pushing after popping reuses storage instead
    /// of growing this number.
    pub fn allocation_count(&self) -> (n: usize)
        ensures
            n == self.allocations(),
    {
        self.slots.len()
    }
}

} // verus!
