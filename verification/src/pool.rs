//! Storage for the chain's cells: slots addressed by stable indices.
//!
//! A slot is either occupied by a cell or vacant. Vacant slots are remembered
//! and handed out again before the storage grows, so a slot index stays valid
//! for exactly as long as its cell is live.

use vstd::prelude::*;
use crate::node::QNode;

verus! {

/// A pool of cells. Its view maps each occupied slot to the cell it holds.
#[derive(Debug)]
pub struct NodePool<T> where T: Clone + std::fmt::Debug {
    slots: Vec<Option<QNode<T>>>,
    vacant: Vec<usize>,
}

impl<T: Clone + std::fmt::Debug> NodePool<T> {
    /// The occupied slots and their cells.
    pub closed spec fn view(&self) -> Map<usize, QNode<T>> {
        Map::new(
            |i: usize| i < self.slots@.len() && self.slots@[i as int] is Some,
            |i: usize| self.slots@[i as int].unwrap(),
        )
    }

    /// The vacant list names every vacant slot exactly once, and nothing else.
    pub closed spec fn wf(&self) -> bool {
        &&& self@.dom().finite()
        &&& self@.dom().len() + self.vacant@.len() == self.slots@.len()
        &&& forall|k: int|
            0 <= k < self.vacant@.len() ==> (#[trigger] self.vacant@[k]) < self.slots@.len()
                && self.slots@[self.vacant@[k] as int] is None
        &&& forall|j: int, k: int|
            0 <= j < k < self.vacant@.len() ==> self.vacant@[j] != self.vacant@[k]
        &&& forall|i: int|
            0 <= i < self.slots@.len() && (#[trigger] self.slots@[i]) is None ==> exists|k: int|
                0 <= k < self.vacant@.len() && self.vacant@[k] == i
    }

    /// The number of live cells.
    pub open spec fn live(&self) -> nat {
        self@.dom().len()
    }

    /// A well-formed pool holds finitely many cells.
    pub proof fn lemma_finite(&self)
        requires
            self.wf(),
        ensures
            self@.dom().finite(),
    {
    }

    /// Creates a pool without cells.
    pub fn new() -> (pool: Self)
        ensures
            pool.wf(),
            pool@ == Map::<usize, QNode<T>>::empty(),
    {
        let pool = NodePool { slots: Vec::new(), vacant: Vec::new() };
        assert(pool@ =~= Map::<usize, QNode<T>>::empty());
        pool
    }

    /// Returns the number of live cells.
    pub fn live_count(&self) -> (n: usize)
        requires
            self.wf(),
        ensures
            n == self.live(),
    {
        self.slots.len() - self.vacant.len()
    }

    /// Stores `node` in a slot that was vacant and returns the slot's index.
    pub fn place(&mut self, node: QNode<T>) -> (at: usize)
        requires
            old(self).wf(),
        ensures
            final(self).wf(),
            !old(self)@.dom().contains(at),
            final(self)@ == old(self)@.insert(at, node),
    {
        match self.vacant.pop() {
            Some(at) => {
                self.slots.set(at, Some(node));
                assert(self@ =~= old(self)@.insert(at, node));
                assert forall|i: int|
                    0 <= i < self.slots@.len() && (#[trigger] self.slots@[i]) is None implies exists|
                    k: int,
                |
                    0 <= k < self.vacant@.len() && self.vacant@[k] == i by {
                    assert(old(self).slots@[i] is None);
                    let k = choose|k: int|
                        0 <= k < old(self).vacant@.len() && old(self).vacant@[k] == i;
                    assert(self.vacant@[k] == i);
                }
                at
            },
            None => {
                self.slots.push(Some(node));
                let at: usize = self.slots.len() - 1;
                assert(self@ =~= old(self)@.insert(at, node));
                assert forall|i: int|
                    0 <= i < self.slots@.len() implies !((#[trigger] self.slots@[i]) is None) by {
                    if i < at {
                        assert(old(self).slots@[i] is Some);
                    }
                }
                at
            },
        }
    }

    /// Empties slot `at` and returns the cell it held.
    pub fn release(&mut self, at: usize) -> (node: QNode<T>)
        requires
            old(self).wf(),
            old(self)@.dom().contains(at),
        ensures
            final(self).wf(),
            node == old(self)@[at],
            final(self)@ == old(self)@.remove(at),
    {
        let mut taken: Option<QNode<T>> = None;
        self.slots.set_and_swap(at, &mut taken);
        self.vacant.push(at);
        assert(self@ =~= old(self)@.remove(at));
        assert forall|i: int|
            0 <= i < self.slots@.len() && (#[trigger] self.slots@[i]) is None implies exists|k: int|
            0 <= k < self.vacant@.len() && self.vacant@[k] == i by {
            if i == at {
                assert(self.vacant@[self.vacant@.len() - 1] == at);
            } else {
                assert(old(self).slots@[i] is None);
                let k = choose|k: int| 0 <= k < old(self).vacant@.len() && old(self).vacant@[k] == i;
                assert(self.vacant@[k] == i);
            }
        }
        taken.unwrap()
    }

    /// Borrows the cell in slot `at`.
    pub fn get(&self, at: usize) -> (node: &QNode<T>)
        requires
            self.wf(),
            self@.dom().contains(at),
        ensures
            *node == self@[at],
    {
        self.slots[at].as_ref().unwrap()
    }

    /// Rewrites the last cell in slot `at` into a cell followed by `next`.
    pub fn link(&mut self, at: usize, next: usize)
        requires
            old(self).wf(),
            old(self)@.dom().contains(at),
            old(self)@[at] is Tail,
        ensures
            final(self).wf(),
            final(self)@ == old(self)@.insert(
                at,
                QNode::Body { value: old(self)@[at].spec_value(), next },
            ),
    {
        let mut taken: Option<QNode<T>> = None;
        self.slots.set_and_swap(at, &mut taken);
        let (value, _) = taken.unwrap().into_parts();
        self.slots.set(at, Some(QNode::Body { value, next }));
        assert(self@ =~= old(self)@.insert(
            at,
            QNode::Body { value: old(self)@[at].spec_value(), next },
        ));
    }
}

} // verus!
