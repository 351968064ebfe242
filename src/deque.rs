//! A double-ended queue of nodes linked in both directions.
//!
//! The nodes live in an arena and name their neighbours by index, so a node
//! can be reached from both sides without shared ownership. Slots freed by a
//! pop are kept on a free list and used again by later pushes.
use vstd::prelude::*;

verus! {

struct Node<T> {
    elem: Option<T>,
    next: Option<usize>,
    prev: Option<usize>,
}

impl<T> Node<T> {
    /// A node holding `elem`, linked to nothing yet.
    fn new(elem: T) -> (r: Node<T>)
        ensures
            r.elem == Some(elem),
            r.next is None,
            r.prev is None,
    {
        Node { elem: Some(elem), next: None, prev: None }
    }
}

pub struct List<T> {
    nodes: Vec<Node<T>>,
    free: Vec<usize>,
    head: Option<usize>,
    tail: Option<usize>,
    /// The arena indices of the linked nodes, front to back.
    order: Ghost<Seq<usize>>,
}

impl<T> View for List<T> {
    type V = Seq<T>;

    /// The elements from front to back.
    closed spec fn view(&self) -> Seq<T> {
        Seq::new(self.order@.len(), |k: int| self.nodes@[self.order@[k] as int].elem->0)
    }
}

impl<T> List<T> {
    /// The front and back references are both empty.
    pub closed spec fn ends_empty(&self) -> bool {
        self.head is None && self.tail is None
    }

    /// Following `next` from the front visits every linked node once and
    /// ends at the back; `prev` does the same from the back. Free slots are
    /// distinct, unlinked and hold no element.
    pub closed spec fn wf(&self) -> bool {
        let order = self.order@;
        let nodes = self.nodes@;
        let free = self.free@;
        &&& forall|k: int| 0 <= k < order.len() ==> (#[trigger] order[k]) < nodes.len()
        &&& forall|k: int| 0 <= k < order.len() ==> (#[trigger] nodes[order[k] as int]).elem is Some
        &&& forall|j: int, k: int| 0 <= j < k < order.len() ==> order[j] != order[k]
        &&& forall|k: int|
            0 <= k < order.len() ==> (#[trigger] nodes[order[k] as int]).next == if k + 1
                < order.len() {
                Some(order[k + 1])
            } else {
                None::<usize>
            }
        &&& forall|k: int|
            0 <= k < order.len() ==> (#[trigger] nodes[order[k] as int]).prev == if k > 0 {
                Some(order[k - 1])
            } else {
                None::<usize>
            }
        &&& self.head == if order.len() > 0 {
            Some(order[0])
        } else {
            None::<usize>
        }
        &&& self.tail == if order.len() > 0 {
            Some(order.last())
        } else {
            None::<usize>
        }
        &&& forall|j: int|
            0 <= j < free.len() ==> (#[trigger] free[j]) < nodes.len() && !order.contains(free[j])
                && nodes[free[j] as int].elem is None
        &&& forall|i: int, j: int| 0 <= i < j < free.len() ==> free[i] != free[j]
    }

    pub fn new() -> (r: Self)
        ensures
            r.wf(),
            r@ == Seq::<T>::empty(),
            r.ends_empty(),
    {
        List { nodes: Vec::new(), free: Vec::new(), head: None, tail: None, order: Ghost(Seq::empty()) }
    }

    /// Puts `node` into a free slot, or a new one, and returns its index.
    /// The linked nodes are left as they were.
    fn take_slot(&mut self, node: Node<T>) -> (idx: usize)
        requires
            old(self).wf(),
            node.elem is Some,
        ensures
            final(self).wf(),
            final(self)@ == old(self)@,
            final(self).order == old(self).order,
            final(self).head == old(self).head,
            final(self).tail == old(self).tail,
            idx <= old(self).nodes@.len(),
            !old(self).order@.contains(idx),
            final(self).nodes@ == if idx < old(self).nodes@.len() {
                old(self).nodes@.update(idx as int, node)
            } else {
                old(self).nodes@.push(node)
            },
    {
        match self.free.pop() {
            Some(idx) => {
                proof {
                    assert(old(self).free@[old(self).free@.len() - 1] == idx);
                }
                self.nodes[idx] = node;
                proof {
                    assert forall|k: int| 0 <= k < self.order@.len() implies self.order@[k] != idx by {
                        assert(old(self).order@[k] == self.order@[k]);
                    }
                    assert forall|j: int| 0 <= j < self.free@.len() implies self.free@[j] != idx by {
                        assert(old(self).free@[j] == self.free@[j]);
                    }
                    assert(self@ =~= old(self)@);
                }
                idx
            },
            None => {
                let idx = self.nodes.len();
                self.nodes.push(node);
                proof {
                    assert(self@ =~= old(self)@);
                }
                idx
            },
        }
    }
}

impl<T> List<T> {
    pub fn push_front(&mut self, elem: T)
        requires
            old(self).wf(),
        ensures
            final(self).wf(),
            final(self)@ == seq![elem] + old(self)@,
    {
        let mut node = Node::new(elem);
        node.next = self.head;
        let new_head = self.take_slot(node);
        let ghost mid = self.nodes@;
        match self.head {
            None => {
                self.tail = Some(new_head);
            },
            Some(old_head) => {
                self.nodes[old_head].prev = Some(new_head);
            },
        }
        self.head = Some(new_head);
        let ghost order = self.order@;
        self.order = Ghost(seq![new_head] + order);
        proof {
            let o = self.order@;
            assert(o[0] == new_head);
            assert forall|k: int| 0 <= k < order.len() implies o[k + 1] == order[k] by {}
            assert forall|k: int| 0 < k < o.len() implies o[k] != new_head by {
                assert(o[k] == order[k - 1]);
            }
            assert forall|k: int| 0 < k < o.len() implies self.nodes@[o[k] as int].elem
                == mid[o[k] as int].elem by {}
            assert(self@ =~= seq![elem] + old(self)@);
        }
    }

    pub fn push_back(&mut self, elem: T)
        requires
            old(self).wf(),
        ensures
            final(self).wf(),
            final(self)@ == old(self)@.push(elem),
    {
        let mut node = Node::new(elem);
        node.prev = self.tail;
        let new_tail = self.take_slot(node);
        let ghost mid = self.nodes@;
        match self.tail {
            None => {
                self.head = Some(new_tail);
            },
            Some(old_tail) => {
                self.nodes[old_tail].next = Some(new_tail);
            },
        }
        self.tail = Some(new_tail);
        let ghost order = self.order@;
        self.order = Ghost(order.push(new_tail));
        proof {
            let o = self.order@;
            assert forall|k: int| 0 <= k < order.len() implies o[k] == order[k] by {}
            assert forall|k: int| 0 <= k < order.len() implies self.nodes@[o[k] as int].elem
                == mid[o[k] as int].elem by {}
            assert(self@ =~= old(self)@.push(elem));
        }
    }

    pub fn pop_front(&mut self) -> (r: Option<T>)
        requires
            old(self).wf(),
        ensures
            final(self).wf(),
            old(self)@.len() == 0 ==> r is None && final(self)@ == old(self)@,
            old(self)@.len() > 0 ==> r == Some(old(self)@[0]) && final(self)@
                == old(self)@.drop_first(),
            final(self)@.len() == 0 ==> final(self).ends_empty(),
    {
        match self.head {
            None => None,
            Some(old_head) => {
                let ghost order = self.order@;
                let elem = self.nodes[old_head].elem.take();
                let next = self.nodes[old_head].next.take();
                self.nodes[old_head].prev = None;
                match next {
                    None => {
                        self.tail = None;
                    },
                    Some(new_head) => {
                        self.nodes[new_head].prev = None;
                    },
                }
                self.head = next;
                self.free.push(old_head);
                self.order = Ghost(order.drop_first());
                proof {
                    let o = self.order@;
                    assert forall|k: int| 0 <= k < o.len() implies o[k] == order[k + 1]
                        && o[k] != old_head by {
                        assert(order[0] != order[k + 1]);
                    }
                    assert(self@ =~= old(self)@.drop_first());
                }
                elem
            },
        }
    }

    pub fn pop_back(&mut self) -> (r: Option<T>)
        requires
            old(self).wf(),
        ensures
            final(self).wf(),
            old(self)@.len() == 0 ==> r is None && final(self)@ == old(self)@,
            old(self)@.len() > 0 ==> r == Some(old(self)@.last()) && final(self)@
                == old(self)@.drop_last(),
            final(self)@.len() == 0 ==> final(self).ends_empty(),
    {
        match self.tail {
            None => None,
            Some(old_tail) => {
                let ghost order = self.order@;
                let elem = self.nodes[old_tail].elem.take();
                let prev = self.nodes[old_tail].prev.take();
                self.nodes[old_tail].next = None;
                match prev {
                    None => {
                        self.head = None;
                    },
                    Some(new_tail) => {
                        self.nodes[new_tail].next = None;
                    },
                }
                self.tail = prev;
                self.free.push(old_tail);
                self.order = Ghost(order.drop_last());
                proof {
                    let o = self.order@;
                    assert forall|k: int| 0 <= k < o.len() implies o[k] == order[k]
                        && o[k] != old_tail by {
                        assert(order[k] != order[order.len() - 1]);
                    }
                    assert(self@ =~= old(self)@.drop_last());
                }
                elem
            },
        }
    }

    pub fn peek_front(&self) -> (r: Option<&T>)
        requires
            self.wf(),
        ensures
            self@.len() == 0 ==> r is None,
            self@.len() > 0 ==> r == Some(&self@[0]),
    {
        match self.head {
            None => None,
            Some(h) => self.nodes[h].elem.as_ref(),
        }
    }

    pub fn peek_back(&self) -> (r: Option<&T>)
        requires
            self.wf(),
        ensures
            self@.len() == 0 ==> r is None,
            self@.len() > 0 ==> r == Some(&self@.last()),
    {
        match self.tail {
            None => None,
            Some(t) => self.nodes[t].elem.as_ref(),
        }
    }
}

/// A consuming iterator that can be stepped from either end.
pub struct IntoIter<T> {
    list: List<T>,
}

impl<T> View for IntoIter<T> {
    type V = Seq<T>;

    /// The elements not yet yielded, front to back.
    closed spec fn view(&self) -> Seq<T> {
        self.list@
    }
}

impl<T> IntoIter<T> {
    pub closed spec fn wf(&self) -> bool {
        self.list.wf()
    }

    /// Yields the front element.
    pub fn next(&mut self) -> (r: Option<T>)
        requires
            old(self).wf(),
        ensures
            final(self).wf(),
            old(self)@.len() == 0 ==> r is None && final(self)@ == old(self)@,
            old(self)@.len() > 0 ==> r == Some(old(self)@[0]) && final(self)@
                == old(self)@.drop_first(),
    {
        self.list.pop_front()
    }

    /// Yields the back element.
    pub fn next_back(&mut self) -> (r: Option<T>)
        requires
            old(self).wf(),
        ensures
            final(self).wf(),
            old(self)@.len() == 0 ==> r is None && final(self)@ == old(self)@,
            old(self)@.len() > 0 ==> r == Some(old(self)@.last()) && final(self)@
                == old(self)@.drop_last(),
    {
        self.list.pop_back()
    }
}

impl<T> List<T> {
    pub fn into_iter(self) -> (r: IntoIter<T>)
        requires
            self.wf(),
        ensures
            r.wf(),
            r@ == self@,
    {
        IntoIter { list: self }
    }
}

/// The contents after pushing each of `vs` at the back of `s`, in order.
pub open spec fn pushed_back<T>(s: Seq<T>, vs: Seq<T>) -> Seq<T>
    decreases vs.len(),
{
    if vs.len() == 0 {
        s
    } else {
        pushed_back(s.push(vs[0]), vs.drop_first())
    }
}

/// The contents after pushing each of `vs` at the front of `s`, in order.
pub open spec fn pushed_front<T>(s: Seq<T>, vs: Seq<T>) -> Seq<T>
    decreases vs.len(),
{
    if vs.len() == 0 {
        s
    } else {
        pushed_front(seq![vs[0]] + s, vs.drop_first())
    }
}

/// What popping at the front yields, in turn, until the deque is empty.
pub open spec fn drained_front<T>(s: Seq<T>) -> Seq<T>
    decreases s.len(),
{
    if s.len() == 0 {
        Seq::empty()
    } else {
        seq![s[0]] + drained_front(s.drop_first())
    }
}

/// What popping at the back yields, in turn, until the deque is empty.
pub open spec fn drained_back<T>(s: Seq<T>) -> Seq<T>
    decreases s.len(),
{
    if s.len() == 0 {
        Seq::empty()
    } else {
        seq![s.last()] + drained_back(s.drop_last())
    }
}

proof fn lemma_pushed_back_appends<T>(s: Seq<T>, vs: Seq<T>)
    ensures
        pushed_back(s, vs) == s + vs,
    decreases vs.len(),
{
    if vs.len() > 0 {
        lemma_pushed_back_appends(s.push(vs[0]), vs.drop_first());
        assert(s.push(vs[0]) + vs.drop_first() =~= s + vs);
    }
}

proof fn lemma_pushed_front_prepends_reversed<T>(s: Seq<T>, vs: Seq<T>)
    ensures
        pushed_front(s, vs) == vs.reverse() + s,
    decreases vs.len(),
{
    if vs.len() > 0 {
        lemma_pushed_front_prepends_reversed(seq![vs[0]] + s, vs.drop_first());
        assert(vs.drop_first().reverse() + (seq![vs[0]] + s) =~= vs.reverse() + s);
    }
}

proof fn lemma_drained_front_is_identity<T>(s: Seq<T>)
    ensures
        drained_front(s) == s,
    decreases s.len(),
{
    if s.len() > 0 {
        lemma_drained_front_is_identity(s.drop_first());
        assert(seq![s[0]] + s.drop_first() =~= s);
    }
}

proof fn lemma_drained_back_reverses<T>(s: Seq<T>)
    ensures
        drained_back(s) == s.reverse(),
    decreases s.len(),
{
    if s.len() > 0 {
        lemma_drained_back_reverses(s.drop_last());
        assert(seq![s.last()] + s.drop_last().reverse() =~= s.reverse());
    }
}

/// Pushing `vs` at the back of an empty deque and then popping at the front
/// yields `vs` in order; popping at the back yields it reversed.
pub proof fn lemma_push_back_fifo_lifo<T>(vs: Seq<T>)
    ensures
        drained_front(pushed_back(Seq::empty(), vs)) == vs,
        drained_back(pushed_back(Seq::empty(), vs)) == vs.reverse(),
{
    lemma_pushed_back_appends(Seq::<T>::empty(), vs);
    assert(Seq::<T>::empty() + vs =~= vs);
    lemma_drained_front_is_identity(vs);
    lemma_drained_back_reverses(vs);
}

/// Pushing `vs` at one end of an empty deque and draining it from the same
/// end yields `vs` reversed; draining it from the other end yields `vs`.
pub proof fn lemma_round_trip<T>(vs: Seq<T>)
    ensures
        drained_back(pushed_back(Seq::empty(), vs)) == vs.reverse(),
        drained_front(pushed_back(Seq::empty(), vs)) == vs,
        drained_front(pushed_front(Seq::empty(), vs)) == vs.reverse(),
        drained_back(pushed_front(Seq::empty(), vs)) == vs,
{
    lemma_push_back_fifo_lifo(vs);
    lemma_pushed_front_prepends_reversed(Seq::<T>::empty(), vs);
    assert(vs.reverse() + Seq::<T>::empty() =~= vs.reverse());
    lemma_drained_front_is_identity(vs.reverse());
    lemma_drained_back_reverses(vs.reverse());
    assert(vs.reverse().reverse() =~= vs);
}

/// A well-formed deque with no elements has empty front and back
/// references, exactly as a new one has, so pushing onto it behaves as
/// pushing onto a new deque.
pub proof fn lemma_empty_has_no_ends<T>(d: &List<T>)
    requires
        d.wf(),
        d@.len() == 0,
    ensures
        d.ends_empty(),
        d@ == Seq::<T>::empty(),
{
    assert(d@ =~= Seq::<T>::empty());
}

} // verus!
