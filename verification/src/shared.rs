//! Shared-ownership read-only chain: nodes are reference-counted and a
//! node may be linked into more than one structure at once. Payloads are
//! immutable after construction; a node's storage stays valid exactly as
//! long as at least one reference to it exists, and is reclaimed
//! automatically when the last reference is dropped.

use std::rc::Rc;
use vstd::prelude::*;

verus! {

struct SharedNode<T> {
    data: T,
    next: Option<Rc<SharedNode<T>>>,
}

/// A singly linked chain whose nodes are reference-counted, so two chains
/// may share a common tail. Contents are immutable once linked in.
pub struct SharedChain<T> {
    head: Option<Rc<SharedNode<T>>>,
}

impl<T> SharedNode<T> {
    spec fn optional_as_seq(node_opt: Option<Rc<SharedNode<T>>>) -> Seq<T>
        decreases node_opt,
    {
        match node_opt {
            None => Seq::empty(),
            Some(node) => node.as_seq(),
        }
    }

    spec fn as_seq(self) -> Seq<T>
        decreases self,
    {
        seq![self.data] + SharedNode::<T>::optional_as_seq(self.next)
    }
}

impl<T> View for SharedChain<T> {
    type V = Seq<T>;

    closed spec fn view(&self) -> Seq<T> {
        SharedNode::<T>::optional_as_seq(self.head)
    }
}

/// Relies on std's `Rc::strong_count`: the number of strong references
/// that currently share the allocation. The count is a fact about the
/// whole process at the moment of the call, so nothing relates it to the
/// chain's contents; it is at least one, for the reference handed in.
#[verifier::external_body]
fn strong_count_of<T>(rc: &Rc<SharedNode<T>>) -> (r: usize)
    ensures
        r >= 1,
{
    Rc::strong_count(rc)
}

impl<T> SharedChain<T> {
    /// An empty chain.
    pub fn new() -> (c: Self)
        ensures
            c@ == Seq::<T>::empty(),
    {
        SharedChain { head: None }
    }

    /// Prepends a value in a fresh reference-counted node; the rest of the
    /// chain — possibly shared with other holders — becomes its tail.
    pub fn push_front(&mut self, data: T)
        ensures
            final(self)@ == seq![data] + old(self)@,
    {
        let next = self.head.take();
        self.head = Some(Rc::new(SharedNode { data, next }));
    }

    /// A second chain over the same nodes: the head node, if any, gains
    /// one holder, and both chains see the same values.
    pub fn share(&self) -> (c: Self)
        ensures
            c@ == self@,
    {
        match &self.head {
            None => SharedChain { head: None },
            Some(rc) => SharedChain { head: Some(rc.clone()) },
        }
    }

    /// The chain after the head, sharing its nodes with this one. On an
    /// empty chain there is no tail.
    pub fn tail(&self) -> (c: Option<Self>)
        ensures
            self@.len() == 0 ==> c is None,
            self@.len() > 0 ==> (c matches Some(t) && t@ == self@.drop_first()),
    {
        match &self.head {
            None => None,
            Some(rc) => {
                let next = match &rc.next {
                    None => None,
                    Some(n) => Some(n.clone()),
                };
                proof {
                    assert(SharedNode::<T>::optional_as_seq(next) =~= self@.drop_first());
                }
                Some(SharedChain { head: next })
            },
        }
    }

    /// A read-only view of the head's payload.
    pub fn peek(&self) -> (r: Option<&T>)
        ensures
            self@.len() == 0 ==> r is None,
            self@.len() > 0 ==> r == Some(&self@[0]),
    {
        match &self.head {
            None => None,
            Some(rc) => Some(&rc.data),
        }
    }

    /// How many holders currently share the head node: this chain, plus
    /// every other structure the node is linked into. `None` on an empty
    /// chain. The count is read from the node's reference count at the
    /// moment of the call.
    pub fn head_holders(&self) -> (r: Option<usize>)
        ensures
            self@.len() == 0 ==> r is None,
            self@.len() > 0 ==> (r matches Some(n) && n >= 1),
    {
        match &self.head {
            None => None,
            Some(rc) => Some(strong_count_of(rc)),
        }
    }

    /// Whether the chain holds no values.
    pub fn is_empty(&self) -> (r: bool)
        ensures
            r <==> self@.len() == 0,
    {
        self.head.is_none()
    }
}

impl<T: Copy> SharedChain<T> {
    /// Detaches the head, returns a copy of its payload, and moves this
    /// holder to the tail. The detached node itself lives on as long as
    /// any other holder still references it; this holder merely lets go.
    pub fn pop_front(&mut self) -> (r: Option<T>)
        ensures
            old(self)@.len() == 0 ==> r is None && final(self)@ == old(self)@,
            old(self)@.len() > 0 ==> r == Some(old(self)@[0]) && final(self)@ == old(
                self,
            )@.drop_first(),
    {
        match self.head.take() {
            None => None,
            Some(rc) => {
                let d = rc.data;
                self.head = match &rc.next {
                    None => None,
                    Some(n) => Some(n.clone()),
                };
                proof {
                    assert(SharedNode::<T>::optional_as_seq(self.head) =~= old(
                        self,
                    )@.drop_first());
                }
                Some(d)
            },
        }
    }
}

} // verus!
