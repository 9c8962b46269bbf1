//! The queue: a cached front value, a chain of pool cells behind it, and the
//! slot of the last cell.

use vstd::prelude::*;
use crate::chain::{
    chain_values, chained, hop, lemma_chain_append, lemma_chain_behead, lemma_chain_of_one,
};
use crate::model::{cells_for, cells_released, cells_taken, clone_of, spec_front, spec_rest};
use crate::node::QNode;
use crate::pool::NodePool;

verus! {

/// The shape of the queue.
#[derive(Debug)]
enum QueuePtr<T> where T: Clone + std::fmt::Debug {
    /// No element.
    Empty,
    /// One element, kept here; the pool holds no cell.
    Unit { value: T },
    /// Two or more elements: the front value, the slot of the cell that
    /// follows the front, and the slot of the last cell.
    Multi { head_value: T, head_next: usize, tail: usize },
}

/// A first-in-first-out queue. Its view is the sequence of its elements,
/// front first.
#[derive(Debug)]
pub struct Queue<T> where T: Clone + std::fmt::Debug {
    length: usize,
    ptr: QueuePtr<T>,
    pool: NodePool<T>,
}

impl<T: Clone + std::fmt::Debug> Queue<T> {
    /// The length tells the shape, and the pool holds exactly the cells of
    /// the chain behind the front.
    #[verifier::type_invariant]
    spec fn inv(&self) -> bool {
        &&& self.pool.wf()
        &&& self.pool.live() == cells_for(self.length as nat)
        &&& match self.ptr {
            QueuePtr::Empty => self.length == 0,
            QueuePtr::Unit { .. } => self.length == 1,
            QueuePtr::Multi { head_next, tail, .. } => {
                &&& self.length >= 2
                &&& chained(self.pool@, head_next, tail, (self.length - 1) as nat)
            },
        }
    }

    /// The elements of the queue, front first.
    pub closed spec fn view(&self) -> Seq<T> {
        match self.ptr {
            QueuePtr::Empty => Seq::empty(),
            QueuePtr::Unit { value } => seq![value],
            QueuePtr::Multi { head_value, head_next, .. } => seq![head_value] + chain_values(
                self.pool@,
                head_next,
                (self.length - 1) as nat,
            ),
        }
    }

    /// The number of cells that the queue keeps in its pool.
    pub closed spec fn spec_nodes(&self) -> nat {
        self.pool.live()
    }

    /// Returns the number of elements.
    pub fn len(&self) -> (n: usize)
        ensures
            n == self@.len(),
    {
        proof {
            use_type_invariant(self);
        }
        self.length
    }

    /// Returns the number of cells that the queue keeps in its pool: one for
    /// each element behind the front.
    pub fn nodes(&self) -> (n: usize)
        ensures
            n == self.spec_nodes(),
            n == cells_for(self@.len()),
    {
        proof {
            use_type_invariant(self);
        }
        self.pool.live_count()
    }

    /// Creates an empty queue.
    pub fn new() -> (queue: Self)
        ensures
            queue@ == Seq::<T>::empty(),
            queue.spec_nodes() == 0,
    {
        Queue { length: 0, ptr: QueuePtr::Empty, pool: NodePool::new() }
    }

    /// Appends `value_in` as the new last element.
    ///
    /// The first element is kept in the queue itself; every later one gets a
    /// cell of its own in the pool.
    pub fn enqueue(&mut self, value_in: T)
        requires
            old(self)@.len() < usize::MAX,
        ensures
            final(self)@ == old(self)@.push(value_in),
            final(self).spec_nodes() == cells_for(final(self)@.len()),
            final(self).spec_nodes() == old(self).spec_nodes() + cells_taken(old(self)@.len()),
    {
        proof {
            use_type_invariant(&*self);
        }
        let mut taken = Queue::new();
        core::mem::swap(self, &mut taken);
        let Queue { length, ptr, mut pool } = taken;
        let ghost before = pool@;
        proof {
            pool.lemma_finite();
        }
        match ptr {
            QueuePtr::Empty => {
                *self = Queue { length: 1, ptr: QueuePtr::Unit { value: value_in }, pool };
                assert(self@ =~= old(self)@.push(value_in));
            },
            QueuePtr::Unit { value } => {
                proof {
                    before.dom().lemma_len0_is_empty();
                }
                let tail = pool.place(QNode::Tail { value: value_in });
                assert(hop(pool@, tail, 0) == tail);
                *self = Queue {
                    length: 2,
                    ptr: QueuePtr::Multi { head_value: value, head_next: tail, tail },
                    pool,
                };
                assert(self@ =~= old(self)@.push(value_in));
            },
            QueuePtr::Multi { head_value, head_next, tail } => {
                let new_tail = pool.place(QNode::Tail { value: value_in });
                let ghost placed = pool@;
                pool.link(tail, new_tail);
                proof {
                    assert(pool@.dom() =~= placed.dom());
                    lemma_chain_append(
                        before,
                        pool@,
                        head_next,
                        tail,
                        new_tail,
                        (length - 1) as nat,
                        value_in,
                    );
                }
                *self = Queue {
                    length: length + 1,
                    ptr: QueuePtr::Multi { head_value, head_next, tail: new_tail },
                    pool,
                };
                assert(self@ =~= old(self)@.push(value_in));
            },
        }
    }

    /// Removes and returns the front element, or returns `None` and changes
    /// nothing if the queue is empty.
    ///
    /// Where a cell follows the front, that cell is released and its value
    /// becomes the new front.
    pub fn dequeue(&mut self) -> (front: Option<T>)
        ensures
            front == spec_front(old(self)@),
            final(self)@ == spec_rest(old(self)@),
            final(self).spec_nodes() == cells_for(final(self)@.len()),
            final(self).spec_nodes() == old(self).spec_nodes() - cells_released(old(self)@.len()),
    {
        proof {
            use_type_invariant(&*self);
        }
        let mut taken = Queue::new();
        core::mem::swap(self, &mut taken);
        let Queue { length, ptr, mut pool } = taken;
        let ghost before = pool@;
        proof {
            pool.lemma_finite();
        }
        match ptr {
            QueuePtr::Empty => {
                *self = Queue { length, ptr: QueuePtr::Empty, pool };
                None
            },
            QueuePtr::Unit { value } => {
                *self = Queue { length: 0, ptr: QueuePtr::Empty, pool };
                assert(self@ =~= spec_rest(old(self)@));
                Some(value)
            },
            QueuePtr::Multi { head_value, head_next, tail } => {
                proof {
                    lemma_chain_of_one(before, head_next, tail, (length - 1) as nat);
                }
                match pool.release(head_next) {
                    QNode::Tail { value } => {
                        *self = Queue { length: 1, ptr: QueuePtr::Unit { value }, pool };
                    },
                    QNode::Body { value, next } => {
                        proof {
                            lemma_chain_behead(before, head_next, tail, (length - 1) as nat);
                        }
                        *self = Queue {
                            length: length - 1,
                            ptr: QueuePtr::Multi { head_value: value, head_next: next, tail },
                            pool,
                        };
                    },
                }
                assert(self@ =~= spec_rest(old(self)@));
                Some(head_value)
            },
        }
    }

    /// Returns a clone of the front element, or `None` if the queue is empty.
    pub fn peek(&self) -> (front: Option<T>)
        ensures
            clone_of(spec_front(self@), front),
    {
        proof {
            use_type_invariant(self);
        }
        match &self.ptr {
            QueuePtr::Empty => None,
            QueuePtr::Unit { value } => Some(value.clone()),
            QueuePtr::Multi { head_value, .. } => Some(head_value.clone()),
        }
    }
}

} // verus!
