//! A singly-linked stack of boxed nodes.
use vstd::prelude::*;

verus! {

/// A link to the next node, or `None` at the end of the chain.
pub type Link<T> = Option<Box<Node<T>>>;

pub struct Node<T> {
    elem: T,
    next: Link<T>,
}

/// The elements reachable from `link`, first node first.
pub closed spec fn link_view<T>(link: Link<T>) -> Seq<T>
    decreases link,
{
    match link {
        None => Seq::empty(),
        Some(node) => seq![node.elem] + link_view(node.next),
    }
}

/// A stack: `push`, `pop` and `peek` all work on the head of the chain.
pub struct List<T> {
    head: Link<T>,
}

impl<T> View for List<T> {
    type V = Seq<T>;

    /// The elements from the top of the stack down.
    closed spec fn view(&self) -> Seq<T> {
        link_view(self.head)
    }
}

impl<T> List<T> {
    pub fn new() -> (r: Self)
        ensures
            r@ == Seq::<T>::empty(),
    {
        List { head: None }
    }

    pub fn push(&mut self, elem: T)
        ensures
            final(self)@ == seq![elem] + old(self)@,
    {
        let new_node = Node { elem, next: self.head.take() };
        self.head = Some(Box::new(new_node));
    }

    pub fn pop(&mut self) -> (r: Option<T>)
        ensures
            old(self)@.len() == 0 ==> r is None && final(self)@ == old(self)@,
            old(self)@.len() > 0 ==> r == Some(old(self)@[0]) && final(self)@ == old(self)@.drop_first(),
    {
        match self.head.take() {
            None => None,
            Some(node) => {
                let node = *node;
                self.head = node.next;
                proof {
                    assert(old(self)@.drop_first() =~= link_view(self.head));
                }
                Some(node.elem)
            }
        }
    }

    pub fn peek(&self) -> (r: Option<&T>)
        ensures
            self@.len() == 0 ==> r is None,
            self@.len() > 0 ==> r == Some(&self@[0]),
    {
        match &self.head {
            None => None,
            Some(node) => Some(&node.elem),
        }
    }

    pub fn peek_mut(&mut self) -> (r: Option<&mut T>)
        ensures
            old(self)@.len() == 0 ==> r is None && final(self)@ == old(self)@,
            old(self)@.len() > 0 ==> (r matches Some(e) && *e == old(self)@[0] && final(self)@
                == old(self)@.update(0, *final(e))),
    {
        match &mut self.head {
            None => None,
            Some(node) => Some(&mut node.elem),
        }
    }
}

/// A consuming iterator: each step pops the top of the stack.
pub struct IntoIter<T>(List<T>);

impl<T> View for IntoIter<T> {
    type V = Seq<T>;

    /// The elements still to be yielded, in order.
    closed spec fn view(&self) -> Seq<T> {
        self.0@
    }
}

impl<T> IntoIter<T> {
    pub fn next(&mut self) -> (r: Option<T>)
        ensures
            old(self)@.len() == 0 ==> r is None && final(self)@ == old(self)@,
            old(self)@.len() > 0 ==> r == Some(old(self)@[0]) && final(self)@ == old(self)@.drop_first(),
    {
        self.0.pop()
    }
}

/// A borrowing iterator that walks the links themselves.
pub struct Iter<'a, T> {
    cur: &'a Link<T>,
}

impl<'a, T> View for Iter<'a, T> {
    type V = Seq<T>;

    closed spec fn view(&self) -> Seq<T> {
        link_view(*self.cur)
    }
}

impl<'a, T> Iter<'a, T> {
    pub fn next(&mut self) -> (r: Option<&'a T>)
        ensures
            old(self)@.len() == 0 ==> r is None && final(self)@ == old(self)@,
            old(self)@.len() > 0 ==> r == Some(&old(self)@[0]) && final(self)@ == old(self)@.drop_first(),
    {
        match self.cur {
            None => None,
            Some(node) => {
                let retval = &node.elem;
                self.cur = &node.next;
                proof {
                    assert(old(self)@.drop_first() =~= self@);
                }
                Some(retval)
            }
        }
    }
}

/// A borrowing iterator that walks the nodes.
pub struct IterAlt<'a, T> {
    curnode: Option<&'a Node<T>>,
}

impl<'a, T> View for IterAlt<'a, T> {
    type V = Seq<T>;

    closed spec fn view(&self) -> Seq<T> {
        match self.curnode {
            None => Seq::empty(),
            Some(node) => seq![node.elem] + link_view(node.next),
        }
    }
}

impl<'a, T> IterAlt<'a, T> {
    pub fn next(&mut self) -> (r: Option<&'a T>)
        ensures
            old(self)@.len() == 0 ==> r is None && final(self)@ == old(self)@,
            old(self)@.len() > 0 ==> r == Some(&old(self)@[0]) && final(self)@ == old(self)@.drop_first(),
    {
        match self.curnode {
            None => None,
            Some(node) => {
                self.curnode = match &node.next {
                    None => None,
                    Some(b) => Some(&**b),
                };
                proof {
                    assert(old(self)@.drop_first() =~= self@);
                }
                Some(&node.elem)
            }
        }
    }
}

/// The elements of `node` and of the chain after it.
pub closed spec fn node_view<T>(node: Node<T>) -> Seq<T> {
    seq![node.elem] + link_view(node.next)
}

/// An iterator handing out a mutable reference to each element in turn.
pub struct IterMut<'a, T> {
    /// The node whose element is handed out next.
    pub next: Option<&'a mut Node<T>>,
}

impl<'a, T> View for IterMut<'a, T> {
    type V = Seq<T>;

    /// The current values of the elements still to be visited.
    closed spec fn view(&self) -> Seq<T> {
        match self.next {
            None => Seq::empty(),
            Some(node) => node_view(*node),
        }
    }
}

impl<'a, T> IterMut<'a, T> {
    /// Hands out the next element. What the visited nodes finally hold is
    /// the value left behind that reference, followed by what the rest of
    /// the iterator leaves behind.
    pub fn next(&mut self) -> (r: Option<&'a mut T>)
        ensures
            old(self).next is None <==> old(self)@.len() == 0,
            old(self)@.len() == 0 ==> r is None && final(self)@ == old(self)@,
            old(self)@.len() > 0 ==> (r matches Some(e) && *e == old(self)@[0] && final(self)@
                == old(self)@.drop_first()),
            old(self)@.len() > 0 ==> (r matches Some(e) && old(self).next matches Some(n)
                && node_view(*final(n)) == seq![*final(e)] + match final(self).next {
                None => Seq::empty(),
                Some(m) => node_view(*final(m)),
            }),
    {
        match self.next.take() {
            None => None,
            Some(node) => {
                self.next = match &mut node.next {
                    None => None,
                    Some(b) => Some(&mut **b),
                };
                Some(&mut node.elem)
            }
        }
    }
}

impl<T> List<T> {
    pub fn into_iter(self) -> (r: IntoIter<T>)
        ensures
            r@ == self@,
    {
        IntoIter(self)
    }

    pub fn iter(&self) -> (r: Iter<'_, T>)
        ensures
            r@ == self@,
    {
        Iter { cur: &self.head }
    }

    pub fn iter_alt(&self) -> (r: IterAlt<'_, T>)
        ensures
            r@ == self@,
    {
        let curnode = match &self.head {
            None => None,
            Some(head) => Some(&**head),
        };
        IterAlt { curnode }
    }

    pub fn iter_mut(&mut self) -> (r: IterMut<'_, T>)
        ensures
            r@ == old(self)@,
            // the list ends up holding whatever the iterator leaves behind
            final(self)@ == match r.next {
                None => Seq::empty(),
                Some(n) => node_view(*final(n)),
            },
    {
        let nodeptr = match &mut self.head {
            None => None,
            Some(node) => Some(&mut **node),
        };
        IterMut { next: nodeptr }
    }
}

} // verus!
