//! Exclusive-ownership chain: each node is owned by exactly one
//! predecessor, and the chain owns the head. No node can be referenced
//! from two places, so teardown is automatic and unambiguous.

use vstd::prelude::*;

verus! {

struct Node<T> {
    data: T,
    next: Option<Box<Node<T>>>,
}

/// A singly linked chain under exclusive ownership. Viewed abstractly as
/// the sequence of payloads from the head onward.
pub struct Chain<T> {
    head: Option<Box<Node<T>>>,
}

impl<T> Node<T> {
    spec fn optional_as_seq(node_opt: Option<Box<Node<T>>>) -> Seq<T>
        decreases node_opt,
    {
        match node_opt {
            None => Seq::empty(),
            Some(node) => node.as_seq(),
        }
    }

    spec fn as_seq(self) -> Seq<T>
        decreases self,
    {
        seq![self.data] + Node::<T>::optional_as_seq(self.next)
    }

}

impl<T> View for Chain<T> {
    type V = Seq<T>;

    closed spec fn view(&self) -> Seq<T> {
        Node::<T>::optional_as_seq(self.head)
    }
}

impl<T> Chain<T> {
    /// An empty chain.
    pub fn new() -> (c: Self)
        ensures
            c@ == Seq::<T>::empty(),
    {
        Chain { head: None }
    }

    /// Prepends a value; the new node takes ownership of the whole
    /// previous chain.
    pub fn push_front(&mut self, data: T)
        ensures
            final(self)@ == seq![data] + old(self)@,
    {
        let next = self.head.take();
        self.head = Some(Box::new(Node { data, next }));
    }

    /// Detaches the head node and returns its payload, transferring
    /// ownership of the remainder back to the chain. On an empty chain
    /// there is nothing to remove and `None` is returned.
    pub fn pop_front(&mut self) -> (r: Option<T>)
        ensures
            old(self)@.len() == 0 ==> r is None && final(self)@ == old(self)@,
            old(self)@.len() > 0 ==> r == Some(old(self)@[0]) && final(self)@ == old(self)@.drop_first(),
    {
        match self.head.take() {
            None => None,
            Some(node) => {
                let boxed = *node;
                self.head = boxed.next;
                proof {
                    assert(old(self)@.drop_first() =~= Node::<T>::optional_as_seq(self.head));
                }
                Some(boxed.data)
            },
        }
    }

    /// A read-only view of the head's payload; ownership stays with the
    /// chain.
    pub fn peek(&self) -> (r: Option<&T>)
        ensures
            self@.len() == 0 ==> r is None,
            self@.len() > 0 ==> r == Some(&self@[0]),
    {
        match &self.head {
            None => None,
            Some(node) => Some(&node.data),
        }
    }

    /// Reverses the chain in place, iteratively relinking one node at a
    /// time; no node changes owner for longer than one step.
    pub fn reverse(&mut self)
        ensures
            final(self)@ == old(self)@.reverse(),
    {
        let mut rev: Option<Box<Node<T>>> = None;
        let mut cur: Option<Box<Node<T>>> = self.head.take();
        loop
            invariant
                Node::<T>::optional_as_seq(rev).reverse() + Node::<T>::optional_as_seq(cur) == old(
                    self,
                )@,
            ensures
                Node::<T>::optional_as_seq(rev) == old(self)@.reverse(),
            decreases Node::<T>::optional_as_seq(cur).len(),
        {
            match cur {
                None => {
                    proof {
                        assert(Node::<T>::optional_as_seq(rev) =~= old(self)@.reverse());
                    }
                    break;
                },
                Some(mut node) => {
                    let ghost rev_seq = Node::<T>::optional_as_seq(rev);
                    let ghost cur_seq = Node::<T>::optional_as_seq(cur);
                    cur = node.next.take();
                    node.next = rev;
                    rev = Some(node);
                    proof {
                        assert(Node::<T>::optional_as_seq(rev) =~= seq![cur_seq[0]] + rev_seq);
                        assert(Node::<T>::optional_as_seq(rev).reverse()
                            + Node::<T>::optional_as_seq(cur) =~= old(self)@);
                    }
                },
            }
        }
        self.head = rev;
    }

    /// Appends a value at the end of the chain, iteratively, so that a
    /// pathological chain length cannot overflow the call stack: the chain
    /// is reversed, the value is prepended, and the chain is reversed
    /// back.
    pub fn push_back(&mut self, data: T)
        ensures
            final(self)@ == old(self)@.push(data),
    {
        self.reverse();
        self.push_front(data);
        self.reverse();
        proof {
            assert((seq![data] + old(self)@.reverse()).reverse() =~= old(self)@.push(data));
        }
    }

    /// The number of values in the chain.
    pub fn len(&self) -> (n: usize)
        requires
            self@.len() <= usize::MAX,
        ensures
            n == self@.len(),
    {
        let mut count: usize = 0;
        let mut cursor: &Option<Box<Node<T>>> = &self.head;
        loop
            invariant
                self@.len() <= usize::MAX,
                count + Node::<T>::optional_as_seq(*cursor).len() == self@.len(),
                count <= self@.len(),
            ensures
                count == self@.len(),
            decreases Node::<T>::optional_as_seq(*cursor).len(),
        {
            match cursor {
                None => {
                    break;
                },
                Some(node) => {
                    count = count + 1;
                    cursor = &node.next;
                },
            }
        }
        count
    }

    /// Whether the chain holds no values.
    pub fn is_empty(&self) -> (r: bool)
        ensures
            r <==> self@.len() == 0,
    {
        self.head.is_none()
    }
}

/// The view a chain reaches after pushing each value of `vals`, in order,
/// at the front of a chain whose view was `s`.
pub open spec fn push_front_all<T>(s: Seq<T>, vals: Seq<T>) -> Seq<T>
    decreases vals.len(),
{
    if vals.len() == 0 {
        s
    } else {
        push_front_all(seq![vals[0]] + s, vals.drop_first())
    }
}

/// Law: pushing values at the front puts them before the old contents in
/// reverse push order. Together with the `pop_front` contracts — which
/// return element 0 and keep `drop_first` — this says that any sequence of
/// `push_front` calls followed by `pop_front` calls returns the values in
/// strict last-in-first-out order, and that draining a chain built from
/// `vals.len()` pushes takes exactly `vals.len()` pops and leaves it empty.
/// It holds for every chain variant that offers the two operations, since
/// all of them state the same view transitions for `push_front` and
/// `pop_front`.
pub proof fn lemma_lifo<T>(s: Seq<T>, vals: Seq<T>)
    ensures
        push_front_all(s, vals) == vals.reverse() + s,
        push_front_all(Seq::<T>::empty(), vals).len() == vals.len(),
    decreases vals.len(),
{
    if vals.len() == 0 {
        assert(push_front_all(s, vals) =~= vals.reverse() + s);
        assert(push_front_all(Seq::<T>::empty(), vals) =~= vals.reverse() + Seq::<T>::empty());
    } else {
        lemma_lifo(seq![vals[0]] + s, vals.drop_first());
        assert(vals.drop_first().reverse() + (seq![vals[0]] + s) =~= vals.reverse() + s);
        lemma_lifo(seq![vals[0]] + Seq::<T>::empty(), vals.drop_first());
        assert(vals.drop_first().reverse() + (seq![vals[0]] + Seq::<T>::empty()) =~= vals.reverse()
            + Seq::<T>::empty());
    }
}

} // verus!
