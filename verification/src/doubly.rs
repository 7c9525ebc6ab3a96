//! A mutable doubly-linked list over an arena of index-linked nodes.
//!
//! Every node lives in one owned table and names its neighbors by index, in
//! both directions: a back link is a plain index, so it confers no ownership
//! and no reference cycle can form. Tearing the list down is dropping the
//! table. Exclusive access to a node for in-place mutation comes from the
//! exclusive borrow of the whole list, so overlapping accesses are rejected
//! before the program runs. The list's view is the sequence of its elements
//! from front to back.

use vstd::prelude::*;

verus! {

/// One arena slot: an element together with the indices of its neighbors.
/// A slot whose element has been taken out belongs to no list.
pub struct Node<T> {
    elem: Option<T>,
    next: Option<usize>,
    prev: Option<usize>,
}

impl<T> Node<T> {
    /// The element this node holds, if it still holds one.
    pub closed spec fn spec_elem(&self) -> Option<T> {
        self.elem
    }

    /// The arena index of this node's successor, if any.
    pub closed spec fn spec_next(&self) -> Option<usize> {
        self.next
    }

    /// The arena index of this node's predecessor, if any.
    pub closed spec fn spec_prev(&self) -> Option<usize> {
        self.prev
    }

    /// A fresh node holding `elem`, linked to nothing yet.
    pub fn new(elem: T) -> (n: Node<T>)
        ensures
            n.spec_elem() == Some(elem),
            n.spec_next() is None,
            n.spec_prev() is None,
    {
        Node { elem: Some(elem), next: None, prev: None }
    }

    /// The element, read in place, if the node still holds one.
    pub fn elem(&self) -> (r: Option<&T>)
        ensures
            match r {
                Some(e) => self.spec_elem() == Some(*e),
                None => self.spec_elem() is None,
            },
    {
        self.elem.as_ref()
    }

    /// The arena index of this node's successor, if any.
    pub fn next_index(&self) -> (r: Option<usize>)
        ensures
            r == self.spec_next(),
    {
        self.next
    }

    /// The arena index of this node's predecessor, if any.
    pub fn prev_index(&self) -> (r: Option<usize>)
        ensures
            r == self.spec_prev(),
    {
        self.prev
    }
}

/// A doubly-linked list: an arena of nodes, the indices of the first and
/// last node, the indices of vacated slots kept for reuse, and a ghost
/// record of the arena indices in list order.
pub struct List<T> {
    nodes: Vec<Node<T>>,
    head: Option<usize>,
    tail: Option<usize>,
    free: Vec<usize>,
    order: Ghost<Seq<usize>>,
}

impl<T> View for List<T> {
    type V = Seq<T>;

    closed spec fn view(&self) -> Seq<T> {
        self.order@.map(|i: int, idx: usize| self.nodes@[idx as int].elem.unwrap())
    }
}

impl<T> List<T> {
    /// Well-formedness: the ghost order lists distinct, live arena slots;
    /// adjacent nodes point at each other, the first node has no predecessor,
    /// the last no successor; `head` and `tail` name the two ends and are
    /// absent exactly when the list is empty.
    pub closed spec fn wf(&self) -> bool {
        let ord = self.order@;
        let nodes = self.nodes@;
        &&& forall|i: int| 0 <= i < ord.len() ==> (#[trigger] ord[i]) < nodes.len()
        &&& forall|i: int, j: int|
            0 <= i < ord.len() && 0 <= j < ord.len() && i != j ==> ord[i] != ord[j]
        &&& forall|i: int| 0 <= i < ord.len() ==> (#[trigger] nodes[ord[i] as int].elem) is Some
        &&& forall|i: int|
            0 <= i < ord.len() ==> (#[trigger] nodes[ord[i] as int].next) == (if i + 1
                < ord.len() {
                Some(ord[i + 1])
            } else {
                None::<usize>
            })
        &&& forall|i: int|
            0 <= i < ord.len() ==> (#[trigger] nodes[ord[i] as int].prev) == (if 0 < i {
                Some(ord[i - 1])
            } else {
                None::<usize>
            })
        &&& self.head == (if ord.len() > 0 {
            Some(ord[0])
        } else {
            None::<usize>
        })
        &&& self.tail == (if ord.len() > 0 {
            Some(ord[ord.len() - 1])
        } else {
            None::<usize>
        })
        &&& forall|k: int| 0 <= k < self.free@.len() ==> (#[trigger] self.free@[k]) < nodes.len()
        &&& forall|k: int, l: int|
            0 <= k < self.free@.len() && 0 <= l < self.free@.len() && k != l ==> self.free@[k]
                != self.free@[l]
        &&& forall|k: int, i: int|
            0 <= k < self.free@.len() && 0 <= i < ord.len() ==> self.free@[k] != ord[i]
    }

    /// The arena index of the first node, if any.
    pub closed spec fn spec_head(&self) -> Option<usize> {
        self.head
    }

    /// The arena index of the last node, if any.
    pub closed spec fn spec_tail(&self) -> Option<usize> {
        self.tail
    }

    /// How many slots the arena holds.
    pub closed spec fn spec_num_slots(&self) -> nat {
        self.nodes@.len()
    }

    /// The node in arena slot `idx`.
    pub closed spec fn spec_node(&self, idx: usize) -> Node<T>
        recommends
            idx < self.spec_num_slots(),
    {
        self.nodes@[idx as int]
    }

    /// The arena index reached from `link` by following `next` links for
    /// `steps` steps, or `None` if the walk runs off the list or out of the
    /// arena.
    pub closed spec fn fwd_reach(&self, link: Option<usize>, steps: nat) -> Option<usize>
        decreases steps,
    {
        if steps == 0 {
            link
        } else {
            match link {
                None => None,
                Some(idx) => if idx < self.nodes@.len() {
                    self.fwd_reach(self.nodes@[idx as int].next, (steps - 1) as nat)
                } else {
                    None
                },
            }
        }
    }

    /// The arena index reached from `link` by following `prev` links for
    /// `steps` steps, or `None` if the walk runs off the list or out of the
    /// arena.
    pub closed spec fn bwd_reach(&self, link: Option<usize>, steps: nat) -> Option<usize>
        decreases steps,
    {
        if steps == 0 {
            link
        } else {
            match link {
                None => None,
                Some(idx) => if idx < self.nodes@.len() {
                    self.bwd_reach(self.nodes@[idx as int].prev, (steps - 1) as nat)
                } else {
                    None
                },
            }
        }
    }

    proof fn lemma_fwd_from(&self, p: int, steps: nat)
        requires
            self.wf(),
            0 <= p,
            p + steps < self.order@.len(),
        ensures
            self.fwd_reach(Some(self.order@[p]), steps) == Some(self.order@[p + steps]),
        decreases steps,
    {
        if steps > 0 {
            self.lemma_fwd_from(p + 1, (steps - 1) as nat);
        }
    }

    proof fn lemma_bwd_from(&self, p: int, steps: nat)
        requires
            self.wf(),
            steps <= p < self.order@.len(),
        ensures
            self.bwd_reach(Some(self.order@[p]), steps) == Some(self.order@[p - steps]),
        decreases steps,
    {
        if steps > 0 {
            self.lemma_bwd_from(p - 1, (steps - 1) as nat);
        }
    }

    /// Doubly-linked invariant: in a well-formed list, walking forward from
    /// `head` by `k` next-steps and walking backward from `tail` by the
    /// remaining steps meet at the same node, which holds the `k`-th element.
    /// The forward and backward traversals therefore visit the same nodes in
    /// exactly reversed order; in particular walking all the way back from
    /// `tail` ends at `head`, and all the way forward from `head` at `tail`.
    pub proof fn lemma_doubly_linked_walks(&self, k: int)
        requires
            self.wf(),
            0 <= k < self@.len(),
        ensures
            self.fwd_reach(self.spec_head(), k as nat) is Some,
            self.fwd_reach(self.spec_head(), k as nat) == self.bwd_reach(
                self.spec_tail(),
                (self@.len() - 1 - k) as nat,
            ),
            self.spec_node(self.fwd_reach(self.spec_head(), k as nat).unwrap()).spec_elem()
                == Some(self@[k]),
            self.fwd_reach(self.spec_head(), (self@.len() - 1) as nat) == self.spec_tail(),
            self.bwd_reach(self.spec_tail(), (self@.len() - 1) as nat) == self.spec_head(),
    {
        let last = self.order@.len() - 1;
        self.lemma_fwd_from(0, k as nat);
        self.lemma_bwd_from(last, (last - k) as nat);
        self.lemma_fwd_from(0, last as nat);
        self.lemma_bwd_from(last, last as nat);
    }

    /// A list of exactly one element: `head` and `tail` name the same node,
    /// and that node has neither successor nor predecessor.
    pub proof fn lemma_single_node(&self)
        requires
            self.wf(),
            self@.len() == 1,
        ensures
            self.spec_head() is Some,
            self.spec_head() == self.spec_tail(),
            self.spec_node(self.spec_head().unwrap()).spec_next() is None,
            self.spec_node(self.spec_head().unwrap()).spec_prev() is None,
            self.spec_node(self.spec_head().unwrap()).spec_elem() == Some(self@[0]),
    {
    }

    /// The empty list.
    pub fn new() -> (r: List<T>)
        ensures
            r.wf(),
            r@ == Seq::<T>::empty(),
    {
        let r = List {
            nodes: Vec::new(),
            head: None,
            tail: None,
            free: Vec::new(),
            order: Ghost(Seq::empty()),
        };
        proof {
            assert(r@ =~= Seq::<T>::empty());
        }
        r
    }

    /// Stores `node` in a vacated slot when one is free, else in a fresh
    /// slot at the end of the arena, and returns the slot's index. The slots
    /// of the list itself are left as they were.
    fn place(&mut self, node: Node<T>) -> (idx: usize)
        requires
            old(self).wf(),
        ensures
            final(self).head == old(self).head,
            final(self).tail == old(self).tail,
            final(self).order == old(self).order,
            idx < final(self).nodes@.len(),
            final(self).nodes@[idx as int] == node,
            old(self).nodes@.len() <= final(self).nodes@.len(),
            forall|j: int|
                0 <= j < old(self).nodes@.len() && j != idx ==> final(self).nodes@[j] == old(self).nodes@[j],
            forall|i: int| 0 <= i < final(self).order@.len() ==> final(self).order@[i] != idx,
            forall|i: int|
                0 <= i < final(self).order@.len() ==> (#[trigger] final(self).order@[i])
                    < final(self).nodes@.len(),
            forall|k: int|
                0 <= k < final(self).free@.len() ==> (#[trigger] final(self).free@[k])
                    < final(self).nodes@.len(),
            forall|k: int, l: int|
                0 <= k < final(self).free@.len() && 0 <= l < final(self).free@.len() && k != l
                    ==> final(self).free@[k] != final(self).free@[l],
            forall|k: int, i: int|
                0 <= k < final(self).free@.len() && 0 <= i < final(self).order@.len() ==> final(self).free@[k] != final(self).order@[i],
            forall|k: int| 0 <= k < final(self).free@.len() ==> final(self).free@[k] != idx,
    {
        match self.free.pop() {
            Some(i) => {
                self.nodes[i] = node;
                i
            },
            None => {
                let i = self.nodes.len();
                self.nodes.push(node);
                i
            },
        }
    }

    /// Puts `elem` at the front: the new node's successor is the old head,
    /// the old head's back link is turned to the new node, and `head` (and,
    /// when the list was empty, `tail`) is pointed at the new node.
    pub fn push_front(&mut self, elem: T)
        requires
            old(self).wf(),
        ensures
            final(self).wf(),
            final(self)@ == seq![elem] + old(self)@,
    {
        let mut node = Node::new(elem);
        node.next = self.head;
        let idx = self.place(node);
        match self.head {
            Some(h) => {
                self.nodes[h].prev = Some(idx);
            },
            None => {
                self.tail = Some(idx);
            },
        }
        self.head = Some(idx);
        proof {
            self.order@ = seq![idx] + self.order@;
            assert(self@ =~= seq![elem] + old(self)@);
        }
    }

    /// Puts `elem` at the back: the new node's predecessor is the old tail,
    /// the old tail's forward link is turned to the new node, and `tail`
    /// (and, when the list was empty, `head`) is pointed at the new node.
    pub fn push_back(&mut self, elem: T)
        requires
            old(self).wf(),
        ensures
            final(self).wf(),
            final(self)@ == old(self)@ + seq![elem],
    {
        let mut node = Node::new(elem);
        node.prev = self.tail;
        let idx = self.place(node);
        match self.tail {
            Some(t) => {
                self.nodes[t].next = Some(idx);
            },
            None => {
                self.head = Some(idx);
            },
        }
        self.tail = Some(idx);
        proof {
            self.order@ = self.order@ + seq![idx];
            assert(self@ =~= old(self)@ + seq![elem]);
        }
    }

    /// Takes the front element out, or returns `None` exactly when the list
    /// is empty. The second node, if any, becomes the head and loses its
    /// back link; removing the only node empties both ends.
    pub fn pop_front(&mut self) -> (r: Option<T>)
        requires
            old(self).wf(),
        ensures
            final(self).wf(),
            match r {
                Some(e) => old(self)@.len() > 0 && e == old(self)@[0] && final(self)@ == old(
                    self,
                )@.drop_first(),
                None => old(self)@.len() == 0 && final(self)@ == old(self)@,
            },
    {
        match self.head {
            None => None,
            Some(idx) => {
                let next = self.nodes[idx].next;
                let elem = self.nodes[idx].elem.take();
                self.free.push(idx);
                match next {
                    Some(j) => {
                        self.nodes[j].prev = None;
                        self.head = Some(j);
                    },
                    None => {
                        self.head = None;
                        self.tail = None;
                    },
                }
                proof {
                    self.order@ = self.order@.drop_first();
                    assert(self@ =~= old(self)@.drop_first());
                }
                Some(elem.unwrap())
            },
        }
    }

    /// Takes the back element out, or returns `None` exactly when the list
    /// is empty. The next-to-last node, if any, becomes the tail and loses
    /// its forward link; removing the only node empties both ends.
    pub fn pop_back(&mut self) -> (r: Option<T>)
        requires
            old(self).wf(),
        ensures
            final(self).wf(),
            match r {
                Some(e) => old(self)@.len() > 0 && e == old(self)@.last() && final(self)@ == old(
                    self,
                )@.drop_last(),
                None => old(self)@.len() == 0 && final(self)@ == old(self)@,
            },
    {
        match self.tail {
            None => None,
            Some(idx) => {
                let prev = self.nodes[idx].prev;
                let elem = self.nodes[idx].elem.take();
                self.free.push(idx);
                match prev {
                    Some(j) => {
                        self.nodes[j].next = None;
                        self.tail = Some(j);
                    },
                    None => {
                        self.head = None;
                        self.tail = None;
                    },
                }
                proof {
                    self.order@ = self.order@.drop_last();
                    assert(self@ =~= old(self)@.drop_last());
                }
                Some(elem.unwrap())
            },
        }
    }

    /// The front element, read in place, or `None` exactly when the list is
    /// empty.
    pub fn front(&self) -> (r: Option<&T>)
        requires
            self.wf(),
        ensures
            match r {
                Some(e) => self@.len() > 0 && *e == self@[0],
                None => self@.len() == 0,
            },
    {
        match self.head {
            Some(idx) => self.nodes[idx].elem.as_ref(),
            None => None,
        }
    }

    /// The back element, read in place, or `None` exactly when the list is
    /// empty.
    pub fn back(&self) -> (r: Option<&T>)
        requires
            self.wf(),
        ensures
            match r {
                Some(e) => self@.len() > 0 && *e == self@.last(),
                None => self@.len() == 0,
            },
    {
        match self.tail {
            Some(idx) => self.nodes[idx].elem.as_ref(),
            None => None,
        }
    }

    /// Exclusive, in-place access to the front element, or `None` exactly
    /// when the list is empty. The exclusive borrow of the whole list is what
    /// rules out any overlapping access to the node while the reference
    /// lives.
    pub fn front_mut(&mut self) -> (r: Option<&mut T>)
        requires
            old(self).wf(),
        ensures
            final(self).wf(),
            r is Some <==> old(self)@.len() > 0,
            r is None ==> final(self)@ == old(self)@,
            r is Some ==> *r.unwrap() == old(self)@[0] && final(self)@ == old(self)@.update(
                0,
                *final(r.unwrap()),
            ),
    {
        match self.head {
            Some(idx) => self.nodes[idx].elem.as_mut(),
            None => None,
        }
    }

    /// Exclusive, in-place access to the back element, or `None` exactly
    /// when the list is empty.
    pub fn back_mut(&mut self) -> (r: Option<&mut T>)
        requires
            old(self).wf(),
        ensures
            final(self).wf(),
            r is Some <==> old(self)@.len() > 0,
            r is None ==> final(self)@ == old(self)@,
            r is Some ==> *r.unwrap() == old(self)@.last() && final(self)@ == old(self)@.update(
                old(self)@.len() - 1,
                *final(r.unwrap()),
            ),
    {
        match self.tail {
            Some(idx) => self.nodes[idx].elem.as_mut(),
            None => None,
        }
    }
}

} // verus!
