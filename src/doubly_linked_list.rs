//! The stack of `singly_linked_list` with a second link in every node.
//!
//! A doubly linked chain needs every interior node to be reachable from both
//! neighbours at once. With exclusively owning handles only one of the two
//! incoming links can own the node: the ownership relation is a tree, and two
//! owning links between neighbours would form a cycle. The compiler refuses
//! any code that would move one node into both its successor's and its
//! predecessor's handle, because the first move leaves nothing to move a
//! second time.
//!
//! So here `prev`, the link toward the node pushed earlier, is the owning
//! one and defines the order of release, while `next` stays absent: filling
//! it would need a non-owning reference (an index into an arena that owns all
//! nodes, or a weak reference counted pointer), never a second owner.
use vstd::prelude::*;
use crate::singly_linked_list::{spec_pop, spec_push};

verus! {

/// One heap node: a payload, an owning link to the node pushed before it,
/// and a forward link that ownership leaves empty.
struct Node {
    val: i32,
    next: Link,
    prev: Link,
}

type Link = Option<Box<Node>>;

/// The values held by a chain of nodes, following `prev` from the head.
spec fn link_view(link: Link) -> Seq<i32>
    decreases link,
{
    match link {
        None => Seq::empty(),
        Some(node) => seq![node.val] + link_view(node.prev),
    }
}

/// No node of the chain holds a forward link.
spec fn no_forward_links(link: Link) -> bool
    decreases link,
{
    match link {
        None => true,
        Some(node) => node.next is None && no_forward_links(node.prev),
    }
}

/// A stack whose nodes are owned through their `prev` links only.
pub struct LinkedStack {
    head: Link,
}

impl View for LinkedStack {
    type V = Seq<i32>;

    /// The values on the stack, top first.
    closed spec fn view(&self) -> Seq<i32> {
        link_view(self.head)
    }
}

impl LinkedStack {
    /// Every node is owned once, through the `prev` chain, and no node
    /// claims its successor.
    pub closed spec fn well_formed(&self) -> bool {
        no_forward_links(self.head)
    }

    /// An empty stack.
    pub fn new() -> (r: Self)
        ensures
            r@ == Seq::<i32>::empty(),
            r.well_formed(),
    {
        LinkedStack { head: None }
    }

    /// Puts `val` on top; the old head moves into the new node's `prev`.
    pub fn push(&mut self, val: i32)
        requires
            old(self).well_formed(),
        ensures
            final(self).well_formed(),
            final(self)@ == spec_push(old(self)@, val),
    {
        let prev = self.head.take();
        self.head = Some(Box::new(Node { val, next: None, prev }));
    }

    /// Removes and returns the top value, or `None` when the stack is empty
    /// (which leaves it untouched).
    pub fn pop(&mut self) -> (r: Option<i32>)
        requires
            old(self).well_formed(),
        ensures
            final(self).well_formed(),
            (r, final(self)@) == spec_pop(old(self)@),
    {
        match self.head.take() {
            None => None,
            Some(node) => {
                let Node { val, next: _, prev } = *node;
                self.head = prev;
                Some(val)
            },
        }
    }

    /// Releases every node one at a time, following the owning `prev`
    /// links, so that no release recurses through the chain.
    pub fn clear(&mut self)
        ensures
            final(self)@ == Seq::<i32>::empty(),
            final(self).well_formed(),
        opens_invariants none
        no_unwind
    {
        let mut cur: Link = None;
        core::mem::swap(&mut cur, &mut self.head);
        loop
            invariant
                self@ == Seq::<i32>::empty(),
                self.well_formed(),
            decreases link_view(cur).len(),
        {
            match cur {
                None => break,
                Some(mut node) => {
                    let mut prev: Link = None;
                    core::mem::swap(&mut prev, &mut node.prev);
                    cur = prev;
                },
            }
        }
    }
}

impl Drop for LinkedStack {
    fn drop(&mut self)
        ensures
            final(self)@ == Seq::<i32>::empty(),
        opens_invariants none
        no_unwind
    {
        self.clear();
    }
}

} // verus!
