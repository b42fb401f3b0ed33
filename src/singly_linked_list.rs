//! A last-in-first-out stack of `i32` values, built from heap nodes that are
//! chained by exclusive ownership.
use vstd::prelude::*;

verus! {

/// One heap node: a payload and the owning handle to the node below it.
struct Node {
    val: i32,
    next: Link,
}

type Link = Option<Box<Node>>;

/// The values held by a chain of nodes, from the head down.
spec fn link_view(link: Link) -> Seq<i32>
    decreases link,
{
    match link {
        None => Seq::empty(),
        Some(node) => seq![node.val] + link_view(node.next),
    }
}

/// A stack whose head node is owned by the stack and every other node by the
/// node above it.
pub struct LinkedStack {
    head: Link,
}

/// The stack after pushing `v` onto `s` (the top is at index 0).
pub open spec fn spec_push(s: Seq<i32>, v: i32) -> Seq<i32> {
    seq![v] + s
}

/// What popping `s` returns, and the stack it leaves.
pub open spec fn spec_pop(s: Seq<i32>) -> (Option<i32>, Seq<i32>) {
    if s.len() == 0 {
        (None, s)
    } else {
        (Some(s[0]), s.drop_first())
    }
}

/// The stack after pushing the values of `vs` onto `s`, first to last.
pub open spec fn spec_push_all(s: Seq<i32>, vs: Seq<i32>) -> Seq<i32>
    decreases vs.len(),
{
    if vs.len() == 0 {
        s
    } else {
        spec_push(spec_push_all(s, vs.drop_last()), vs.last())
    }
}

/// What `n` pops of `s` return, in the order they return it, and the stack
/// they leave.
pub open spec fn spec_pop_times(s: Seq<i32>, n: nat) -> (Seq<Option<i32>>, Seq<i32>)
    decreases n,
{
    if n == 0 {
        (Seq::empty(), s)
    } else {
        let (first, rest) = spec_pop(s);
        let (more, left) = spec_pop_times(rest, (n - 1) as nat);
        (seq![first] + more, left)
    }
}

/// Popping an empty stack gives no value and leaves the stack empty.
pub proof fn lemma_pop_empty()
    ensures
        spec_pop(Seq::empty()) == (None::<i32>, Seq::<i32>::empty()),
{
}

/// A pop right after a push returns the pushed value and restores the stack
/// as it was before the push, whatever it held.
pub proof fn lemma_push_then_pop(s: Seq<i32>, v: i32)
    ensures
        spec_pop(spec_push(s, v)) == (Some(v), s),
{
    assert(spec_push(s, v).drop_first() =~= s);
}

/// Pushing `vs` lays them on top of `s` in reverse order.
proof fn lemma_push_all_reverses(s: Seq<i32>, vs: Seq<i32>)
    ensures
        spec_push_all(s, vs) == vs.reverse() + s,
    decreases vs.len(),
{
    if vs.len() > 0 {
        lemma_push_all_reverses(s, vs.drop_last());
        assert(vs.reverse() =~= seq![vs.last()] + vs.drop_last().reverse());
        assert(spec_push_all(s, vs) =~= vs.reverse() + s);
    } else {
        assert(vs.reverse() + s =~= s);
    }
}

/// Popping `t.len()` times from `t + s` yields `t` in order and leaves `s`.
proof fn lemma_pop_prefix(t: Seq<i32>, s: Seq<i32>)
    ensures
        spec_pop_times(t + s, t.len()) == (t.map_values(|v: i32| Some(v)), s),
    decreases t.len(),
{
    if t.len() == 0 {
        assert(t + s =~= s);
        assert(t.map_values(|v: i32| Some(v)) =~= Seq::<Option<i32>>::empty());
    } else {
        assert((t + s).drop_first() =~= t.drop_first() + s);
        lemma_pop_prefix(t.drop_first(), s);
        assert(t.map_values(|v: i32| Some(v)) =~= seq![Some(t[0])] + t.drop_first().map_values(
            |v: i32| Some(v),
        ));
    }
}

/// Pushing `vs` onto any stack and then popping `vs.len()` times yields the
/// values in exact reverse order of pushing and leaves the stack as it was.
pub proof fn lemma_lifo(s: Seq<i32>, vs: Seq<i32>)
    ensures
        spec_pop_times(spec_push_all(s, vs), vs.len()) == (vs.reverse().map_values(
            |v: i32| Some(v),
        ), s),
{
    lemma_push_all_reverses(s, vs);
    lemma_pop_prefix(vs.reverse(), s);
}

impl View for LinkedStack {
    type V = Seq<i32>;

    /// The values on the stack, top first.
    closed spec fn view(&self) -> Seq<i32> {
        link_view(self.head)
    }
}

impl LinkedStack {
    /// An empty stack.
    pub fn new() -> (r: Self)
        ensures
            r@ == Seq::<i32>::empty(),
    {
        LinkedStack { head: None }
    }

    /// Puts `val` on top; the old head moves into the new node.
    pub fn push(&mut self, val: i32)
        ensures
            final(self)@ == spec_push(old(self)@, val),
    {
        let next = self.head.take();
        self.head = Some(Box::new(Node { val, next }));
    }

    /// Removes and returns the top value, or `None` when the stack is empty
    /// (which leaves it untouched).
    pub fn pop(&mut self) -> (r: Option<i32>)
        ensures
            (r, final(self)@) == spec_pop(old(self)@),
    {
        match self.head.take() {
            None => None,
            Some(node) => {
                let Node { val, next } = *node;
                self.head = next;
                Some(val)
            },
        }
    }

    /// Releases every node one at a time, so that no release recurses
    /// through the chain.
    pub fn clear(&mut self)
        ensures
            final(self)@ == Seq::<i32>::empty(),
        opens_invariants none
        no_unwind
    {
        let mut cur: Link = None;
        core::mem::swap(&mut cur, &mut self.head);
        loop
            invariant
                self@ == Seq::<i32>::empty(),
            decreases link_view(cur).len(),
        {
            match cur {
                None => break,
                Some(mut node) => {
                    let mut next: Link = None;
                    core::mem::swap(&mut next, &mut node.next);
                    cur = next;
                },
            }
        }
    }
}

impl Drop for LinkedStack {
    fn drop(&mut self)
        ensures
            final(self)@ == Seq::<i32>::empty(),
        opens_invariants none
        no_unwind
    {
        self.clear();
    }
}

} // verus!
