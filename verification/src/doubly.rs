//! Doubly-linked mutable list. The collection itself holds every node and
//! has exclusive mutable access to all of them, so no runtime-checked
//! access cell is needed; the next/prev pair that would form a reference
//! cycle under per-node ownership is here a pair of plain indices into the
//! collection-owned table, which owns nothing through them.

use vstd::prelude::*;

verus! {

struct DSlot<T> {
    data: Option<T>,
    prev: Option<usize>,
    next: Option<usize>,
}

/// A doubly-linked list with head and tail references. Nodes sit in a
/// collection-owned table; a slot whose payload has been handed out on
/// removal stays behind as an empty tombstone, never reachable again.
pub struct DoublyLinkedList<T> {
    slots: Vec<DSlot<T>>,
    start: usize,
    head: Option<usize>,
    tail: Option<usize>,
}

impl<T> DoublyLinkedList<T> {
    /// Live nodes occupy the slots from `start` up, linked in index order:
    /// `next` steps one slot up, `prev` one slot down, the head has no
    /// `prev` and the tail no `next`. Slots below `start` were removed and
    /// hold no payload.
    pub closed spec fn wf(&self) -> bool {
        &&& self.start <= self.slots@.len()
        &&& (self.head is Some <==> self.start < self.slots@.len())
        &&& (self.head matches Some(h) ==> h == self.start)
        &&& (self.tail is Some <==> self.start < self.slots@.len())
        &&& (self.tail matches Some(t) ==> t as int == self.slots@.len() - 1)
        &&& forall|k: int|
            self.start <= k < self.slots@.len() ==> (#[trigger] self.slots@[k]).data is Some
        &&& forall|k: int|
            self.start <= k < self.slots@.len() ==> ((#[trigger] self.slots@[k]).next is Some
                <==> k < self.slots@.len() - 1)
        &&& forall|k: int|
            self.start <= k < self.slots@.len() ==> ((#[trigger] self.slots@[k]).next matches Some(
            j) ==> j as int == k + 1)
        &&& forall|k: int|
            self.start <= k < self.slots@.len() ==> ((#[trigger] self.slots@[k]).prev is Some
                <==> k > self.start)
        &&& forall|k: int|
            self.start <= k < self.slots@.len() ==> ((#[trigger] self.slots@[k]).prev matches Some(
            j) ==> j as int == k - 1)
        &&& forall|k: int| 0 <= k < self.start ==> (#[trigger] self.slots@[k]).data is None
    }
}

impl<T> View for DoublyLinkedList<T> {
    type V = Seq<T>;

    closed spec fn view(&self) -> Seq<T> {
        Seq::new(
            (self.slots@.len() - self.start) as nat,
            |i: int| self.slots@[self.start + i].data.unwrap(),
        )
    }
}

impl<T> DoublyLinkedList<T> {
    /// An empty list: no head, no tail.
    pub fn new() -> (l: Self)
        ensures
            l.wf(),
            l@ == Seq::<T>::empty(),
    {
        let l = DoublyLinkedList { slots: Vec::new(), start: 0, head: None, tail: None };
        proof {
            assert(l@ =~= Seq::<T>::empty());
        }
        l
    }

    /// Appends a value: a new node is allocated, the current tail's `next`
    /// is linked to it, its `prev` is linked back to the current tail, and
    /// the tail reference moves to it — or, on an empty list, head and
    /// tail are both set to the new node.
    pub fn push_back(&mut self, data: T)
        requires
            old(self).wf(),
        ensures
            final(self).wf(),
            final(self)@ == old(self)@.push(data),
    {
        let idx = self.slots.len();
        match self.tail {
            Some(t) => {
                self.slots[t].next = Some(idx);
                self.slots.push(DSlot { data: Some(data), prev: Some(t), next: None });
                self.tail = Some(idx);
            },
            None => {
                self.start = idx;
                self.slots.push(DSlot { data: Some(data), prev: None, next: None });
                self.head = Some(idx);
                self.tail = Some(idx);
            },
        }
        proof {
            assert(self@ =~= old(self)@.push(data));
        }
    }

    /// Detaches the head node, returns its payload, and moves the head
    /// reference to its successor, whose back-link is cleared so that the
    /// removed node is cut out of the cycle. On an empty list there is
    /// nothing to remove and `None` is returned.
    pub fn pop_front(&mut self) -> (r: Option<T>)
        requires
            old(self).wf(),
        ensures
            final(self).wf(),
            old(self)@.len() == 0 ==> r is None && final(self)@ == old(self)@,
            old(self)@.len() > 0 ==> r == Some(old(self)@[0]) && final(self)@ == old(
                self,
            )@.drop_first(),
    {
        match self.head {
            None => {
                proof {
                    assert(self@ =~= old(self)@);
                }
                None
            },
            Some(h) => {
                let n = self.slots.len();
                let d = self.slots[h].data.take();
                proof {
                    assert(self.start < n);
                }
                self.start = self.start + 1;
                if self.start < n {
                    let s = self.start;
                    self.slots[s].prev = None;
                    self.head = Some(s);
                } else {
                    self.head = None;
                    self.tail = None;
                }
                proof {
                    assert(self@ =~= old(self)@.drop_first());
                }
                d
            },
        }
    }

    /// A read-only view of the head's payload.
    pub fn peek(&self) -> (r: Option<&T>)
        requires
            self.wf(),
        ensures
            self@.len() == 0 ==> r is None,
            self@.len() > 0 ==> r == Some(&self@[0]),
    {
        match self.head {
            None => None,
            Some(h) => self.slots[h].data.as_ref(),
        }
    }

    /// The number of values in the list.
    pub fn len(&self) -> (n: usize)
        requires
            self.wf(),
        ensures
            n == self@.len(),
    {
        self.slots.len() - self.start
    }

    /// Whether the list holds no values.
    pub fn is_empty(&self) -> (r: bool)
        requires
            self.wf(),
        ensures
            r <==> self@.len() == 0,
    {
        self.head.is_none()
    }
}

impl<T: Copy> DoublyLinkedList<T> {
    /// Walks the `next` links from the head to the tail, collecting the
    /// payloads: the values come out in insertion order.
    pub fn traverse_forward(&self) -> (out: Vec<T>)
        requires
            self.wf(),
        ensures
            out@ == self@,
    {
        let mut out: Vec<T> = Vec::new();
        let mut cur: Option<usize> = self.head;
        loop
            invariant
                self.wf(),
                match cur {
                    Some(i) => self.start <= i < self.slots@.len() && out@ == self@.subrange(
                        0,
                        i - self.start,
                    ),
                    None => out@ == self@,
                },
            ensures
                out@ == self@,
            decreases (match cur {
                Some(i) => self.slots@.len() - i,
                None => 0,
            }),
        {
            match cur {
                None => {
                    break;
                },
                Some(i) => {
                    let d = self.slots[i].data.unwrap();
                    out.push(d);
                    cur = self.slots[i].next;
                    proof {
                        match cur {
                            Some(j) => {
                                assert(out@ =~= self@.subrange(0, j - self.start));
                            },
                            None => {
                                assert(out@ =~= self@);
                            },
                        }
                    }
                },
            }
        }
        out
    }

    /// Walks the `prev` links from the tail to the head, collecting the
    /// payloads: the values come out in reverse insertion order.
    pub fn traverse_backward(&self) -> (out: Vec<T>)
        requires
            self.wf(),
        ensures
            out@ == self@.reverse(),
    {
        let mut out: Vec<T> = Vec::new();
        let mut cur: Option<usize> = self.tail;
        loop
            invariant
                self.wf(),
                match cur {
                    Some(i) => self.start <= i < self.slots@.len() && out@ == self@.subrange(
                        i - self.start + 1,
                        self@.len() as int,
                    ).reverse(),
                    None => out@ == self@.reverse(),
                },
            ensures
                out@ == self@.reverse(),
            decreases (match cur {
                Some(i) => i + 1,
                None => 0,
            }),
        {
            match cur {
                None => {
                    break;
                },
                Some(i) => {
                    let d = self.slots[i].data.unwrap();
                    out.push(d);
                    cur = self.slots[i].prev;
                    proof {
                        match cur {
                            Some(j) => {
                                assert(out@ =~= self@.subrange(
                                    j - self.start + 1,
                                    self@.len() as int,
                                ).reverse());
                            },
                            None => {
                                assert(out@ =~= self@.reverse());
                            },
                        }
                    }
                },
            }
        }
        out
    }
}

/// Law: after appending `a`, then `b`, then `c` to an empty list, the view
/// is `a, b, c`, so — by the contracts of `traverse_forward` and
/// `traverse_backward` — walking head to tail yields `a, b, c` and walking
/// tail to head yields `c, b, a`.
pub proof fn lemma_three_appends_traverse_both_ways<T>(a: T, b: T, c: T)
    ensures
        Seq::<T>::empty().push(a).push(b).push(c) == seq![a, b, c],
        seq![a, b, c].reverse() == seq![c, b, a],
{
    assert(Seq::<T>::empty().push(a).push(b).push(c) =~= seq![a, b, c]);
    assert(seq![a, b, c].reverse() =~= seq![c, b, a]);
}

} // verus!
