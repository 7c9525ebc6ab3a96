//! A persistent singly-linked list with structural sharing.
//!
//! Nodes are immutable once created and reference-counted, so several list
//! values may share the same suffix. `append` prepends in O(1) by pointing a
//! fresh node at the old chain; `tail` returns the shared suffix without
//! copying. A list's view is the sequence of its elements from the front
//! (most recently appended) to the back.

use std::rc::Rc;
use vstd::prelude::*;

verus! {

struct Node<T> {
    elem: T,
    next: Option<Rc<Node<T>>>,
}

/// The elements reachable from a link, front first.
spec fn link_view<T>(link: Option<Rc<Node<T>>>) -> Seq<T>
    decreases link,
{
    match link {
        None => Seq::empty(),
        Some(node) => seq![node.elem] + link_view(node.next),
    }
}

/// A persistent list: a shared, immutable chain of nodes.
pub struct List<T> {
    head: Option<Rc<Node<T>>>,
}

impl<T> View for List<T> {
    type V = Seq<T>;

    closed spec fn view(&self) -> Seq<T> {
        link_view(self.head)
    }
}

impl<T> List<T> {
    /// The empty list.
    pub fn new() -> (r: List<T>)
        ensures
            r@ == Seq::<T>::empty(),
    {
        List { head: None }
    }

    /// A new list whose front element is `elem` and whose remainder is this
    /// list, which stays valid and unchanged (the chain is shared, not copied).
    pub fn append(&self, elem: T) -> (r: List<T>)
        ensures
            r@ == seq![elem] + self@,
    {
        let next = match &self.head {
            Some(node) => Some(node.clone()),
            None => None,
        };
        List { head: Some(Rc::new(Node { elem, next })) }
    }

    /// The list of everything after the front element; the empty list if this
    /// list is empty. The suffix is shared, not copied.
    pub fn tail(&self) -> (r: List<T>)
        ensures
            self@.len() > 0 ==> r@ == self@.drop_first(),
            self@.len() == 0 ==> r@ == Seq::<T>::empty(),
    {
        match &self.head {
            Some(node) => List {
                head: match &node.next {
                    Some(next) => Some(next.clone()),
                    None => None,
                },
            },
            None => List { head: None },
        }
    }

    /// The front element, or `None` exactly when the list is empty.
    pub fn head(&self) -> (r: Option<&T>)
        ensures
            match r {
                Some(e) => self@.len() > 0 && *e == self@[0],
                None => self@.len() == 0,
            },
    {
        match &self.head {
            Some(node) => Some(&node.elem),
            None => None,
        }
    }

    /// A fresh forward traversal of the whole list. Traversal borrows the
    /// list and never consumes or mutates it, so it can be restarted by
    /// calling `iter` again.
    pub fn iter(&self) -> (r: Iter<'_, T>)
        ensures
            r@ == self@,
    {
        Iter {
            next: match &self.head {
                Some(node) => Some(&**node),
                None => None,
            },
        }
    }
}

/// A forward traversal of a persistent list. Its view is the sequence of
/// elements not yet yielded.
pub struct Iter<'a, T> {
    next: Option<&'a Node<T>>,
}

impl<'a, T> View for Iter<'a, T> {
    type V = Seq<T>;

    closed spec fn view(&self) -> Seq<T> {
        match self.next {
            None => Seq::empty(),
            Some(node) => seq![node.elem] + link_view(node.next),
        }
    }
}

impl<'a, T> Iter<'a, T> {
    /// Yields the next element, front first, or `None` exactly when the
    /// traversal is exhausted. Exhaustion is stable: once `None` is returned,
    /// every later call returns `None` again.
    pub fn next(&mut self) -> (r: Option<&'a T>)
        ensures
            match r {
                Some(e) => old(self)@.len() > 0 && *e == old(self)@[0]
                    && final(self)@ == old(self)@.drop_first(),
                None => old(self)@.len() == 0 && final(self)@ == old(self)@,
            },
    {
        match self.next {
            Some(node) => {
                self.next = match &node.next {
                    Some(next) => Some(&**next),
                    None => None,
                };
                Some(&node.elem)
            },
            None => None,
        }
    }
}

/// Relies on std's Rc::try_unwrap: it hands back the inner value when the
/// given reference was the only strong one, and otherwise returns the same
/// reference unchanged; it returns in both cases and never unwinds, which
/// vstd's own specification of it leaves unstated.
#[verifier::external_body]
fn try_unwrap_node<T>(rc: Rc<Node<T>>) -> (r: Result<Node<T>, Rc<Node<T>>>)
    ensures
        match r {
            Ok(inner) => inner == rc,
            Err(e) => e == rc,
        },
    opens_invariants none
    no_unwind
{
    Rc::try_unwrap(rc)
}

/// Releases a chain front to back, iteratively. Each step reclaims the front
/// node only when it has no other owner; a node still shared with another
/// list stops the walk, since everything from it on is still alive elsewhere.
fn release_chain<T>(first: Option<Rc<Node<T>>>)
    opens_invariants none
    no_unwind
{
    let mut link = first;
    let ghost mut remaining: Seq<T> = link_view(link);
    loop
        invariant
            remaining == link_view(link),
        decreases remaining.len(),
    {
        match link {
            None => {
                break;
            },
            Some(node) => {
                match try_unwrap_node(node) {
                    Ok(inner) => {
                        link = inner.next;
                        proof {
                            remaining = remaining.drop_first();
                        }
                    },
                    Err(_) => {
                        break;
                    },
                }
            },
        }
    }
}

/// Structural sharing: appending an element to a list gives a new list that
/// keeps the old list's whole sequence as its suffix. Two lists appended onto
/// the same list therefore agree with it, and with each other, on everything
/// past their fronts, whatever was appended.
pub proof fn lemma_structural_sharing<T>(a: List<T>, b: List<T>, c: List<T>, x: T, y: T)
    requires
        b@ == seq![x] + a@,
        c@ == seq![y] + a@,
    ensures
        b@.drop_first() == a@,
        c@.drop_first() == a@,
        b@[0] == x,
        c@[0] == y,
{
    assert(b@.drop_first() =~= a@);
    assert(c@.drop_first() =~= a@);
}

/// The view of the list built by appending the elements of `elems` one by
/// one, first to last, onto the empty list: each append puts its element in
/// front of everything appended before it.
pub open spec fn appended_view<T>(elems: Seq<T>) -> Seq<T>
    decreases elems.len(),
{
    if elems.len() == 0 {
        Seq::empty()
    } else {
        seq![elems.last()] + appended_view(elems.drop_last())
    }
}

/// Appending elements in order hands them back most-recent-first: the list
/// built from `e1 .. en` reads `en, .., e1` from the front, and right after
/// each append the front element is the one just appended.
pub proof fn lemma_append_order<T>(elems: Seq<T>)
    ensures
        appended_view(elems) == elems.reverse(),
        elems.len() > 0 ==> appended_view(elems)[0] == elems.last(),
    decreases elems.len(),
{
    if elems.len() == 0 {
        assert(appended_view(elems) =~= elems.reverse());
    } else {
        lemma_append_order(elems.drop_last());
        assert(appended_view(elems) =~= elems.reverse());
    }
}

impl<T> Drop for List<T> {
    /// Tears the chain down iteratively, so that dropping a long list never
    /// recurses once per node.
    fn drop(&mut self)
        opens_invariants none
        no_unwind
    {
        let mut link: Option<Rc<Node<T>>> = None;
        std::mem::swap(&mut link, &mut self.head);
        release_chain(link);
    }
}

} // verus!
