//! A persistent singly-linked list: lists are never changed, and every list
//! made from another one shares that list's nodes through counted references.
use std::rc::Rc;
use vstd::prelude::*;

verus! {

/// A shared link to the next node, or `None` at the end of the chain.
pub type Link<T> = Option<Rc<Node<T>>>;

pub struct Node<T> {
    elem: T,
    next: Link<T>,
}

/// The elements reachable from `link`, first node first.
pub closed spec fn link_view<T>(link: Link<T>) -> Seq<T>
    decreases link,
{
    match link {
        None => Seq::empty(),
        Some(node) => seq![node.elem] + link_view(node.next),
    }
}

/// The list without its first element; an empty list stays empty.
pub open spec fn tail_of<T>(s: Seq<T>) -> Seq<T> {
    if s.len() == 0 {
        s
    } else {
        s.drop_first()
    }
}

/// An immutable list; `append` puts a new element in front.
pub struct List<T> {
    head: Link<T>,
}

impl<T> View for List<T> {
    type V = Seq<T>;

    /// The elements from the head onwards.
    closed spec fn view(&self) -> Seq<T> {
        link_view(self.head)
    }
}

impl<T> List<T> {
    pub fn new() -> (r: List<T>)
        ensures
            r@ == Seq::<T>::empty(),
    {
        List { head: None }
    }

    /// A new list with `elem` in front of this one, whose other nodes are
    /// this list's own.
    pub fn append(&self, elem: T) -> (r: List<T>)
        ensures
            r@ == seq![elem] + self@,
    {
        let next: Link<T> = match &self.head {
            None => None,
            Some(node) => Some(Rc::clone(node)),
        };
        let new_node = Node { elem, next };
        List { head: Some(Rc::new(new_node)) }
    }

    pub fn head(&self) -> (r: Option<&T>)
        ensures
            self@.len() == 0 ==> r is None,
            self@.len() > 0 ==> r == Some(&self@[0]),
    {
        match &self.head {
            None => None,
            Some(node) => Some(&node.elem),
        }
    }

    /// The list after the first element, sharing this list's nodes.
    pub fn tail_orig(&self) -> (r: List<T>)
        ensures
            r@ == tail_of(self@),
    {
        if self.head.is_none() {
            // an empty list
            return List { head: None };
        }
        let head_node = self.head.as_ref().unwrap();
        if head_node.next.is_none() {
            // a list of one element
            return List { head: None };
        } else {
            let new_head_node = head_node.next.as_ref().unwrap();
            return List { head: Some(Rc::clone(new_head_node)) };
        }
    }

    /// The list after the first element, sharing this list's nodes.
    pub fn tail(&self) -> (r: List<T>)
        ensures
            r@ == tail_of(self@),
    {
        if let Some(cur_head) = self.head.as_ref() {
            if let Some(new_head) = cur_head.next.as_ref() {
                return List { head: Some(Rc::clone(new_head)) };
            }
        }
        // a list of zero or one elements
        List { head: None }
    }

    /// Takes a shared reference to the second node, if there is one, and
    /// lets it go again; the list itself is left as it was.
    pub fn tail_from_book(&self) {
        let _head: Link<T> = match self.head.as_ref() {
            None => None,
            Some(node) => node.next.clone(),
        };
    }

    pub fn iter(&self) -> (r: Iter<'_, T>)
        ensures
            r@ == self@,
    {
        Iter {
            next: match self.head.as_ref() {
                None => None,
                Some(node) => Some(&**node),
            },
        }
    }
}

/// A borrowing iterator over the elements, head first.
pub struct Iter<'a, T> {
    next: Option<&'a Node<T>>,
}

impl<'a, T> View for Iter<'a, T> {
    type V = Seq<T>;

    /// The elements still to be yielded, in order.
    closed spec fn view(&self) -> Seq<T> {
        match self.next {
            None => Seq::empty(),
            Some(node) => seq![node.elem] + link_view(node.next),
        }
    }
}

impl<'a, T> Iter<'a, T> {
    pub fn next(&mut self) -> (r: Option<&'a T>)
        ensures
            old(self)@.len() == 0 ==> r is None && final(self)@ == old(self)@,
            old(self)@.len() > 0 ==> r == Some(&old(self)@[0]) && final(self)@ == old(self)@.drop_first(),
    {
        match self.next {
            None => None,
            Some(node) => {
                self.next = match node.next.as_ref() {
                    None => None,
                    Some(n) => Some(&**n),
                };
                proof {
                    assert(old(self)@.drop_first() =~= self@);
                }
                Some(&node.elem)
            }
        }
    }
}

/// What `tail` gives when applied `n` times in a row.
pub open spec fn tails_of<T>(s: Seq<T>, n: nat) -> Seq<T>
    decreases n,
{
    if n == 0 {
        s
    } else {
        tails_of(tail_of(s), (n - 1) as nat)
    }
}

/// Two lists made by putting different elements in front of one base list
/// both have that base as their tail, and so the same second element as
/// the base's first.
pub proof fn lemma_append_shares_base<T>(base: Seq<T>, x: T, y: T)
    ensures
        tail_of(seq![x] + base) == base,
        tail_of(seq![y] + base) == base,
        base.len() > 0 ==> tail_of(seq![x] + base)[0] == base[0] && tail_of(seq![y] + base)[0]
            == base[0],
{
    assert((seq![x] + base).drop_first() =~= base);
    assert((seq![y] + base).drop_first() =~= base);
}

/// The tail of a list of at most one element is empty, and taking the tail
/// again and again past that point keeps giving the empty list.
pub proof fn lemma_tail_past_end<T>(s: Seq<T>, n: nat)
    requires
        s.len() <= n,
    ensures
        tails_of(s, n) == Seq::<T>::empty(),
        s.len() <= 1 ==> tail_of(s) == Seq::<T>::empty(),
    decreases n,
{
    if s.len() <= 1 {
        assert(tail_of(s) =~= Seq::<T>::empty());
    }
    if n == 0 {
        assert(s =~= Seq::<T>::empty());
    } else {
        lemma_tail_past_end(tail_of(s), (n - 1) as nat);
    }
}

} // verus!
