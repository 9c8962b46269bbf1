//! One cell of the chain: a value and, unless the cell is the last one, the
//! pool index of its successor.

use vstd::prelude::*;

verus! {

/// A cell of the chain.
///
/// `Tail` is the last cell and has no successor; `Body` names the pool slot
/// of the cell that follows it.
#[derive(Debug)]
pub enum QNode<T> where T: Clone + std::fmt::Debug {
    Tail { value: T },
    Body { value: T, next: usize },
}

impl<T: Clone + std::fmt::Debug> Clone for QNode<T> {
    /// Clones the value and keeps the link.
    fn clone(&self) -> (copy: Self)
        ensures
            cloned(self.spec_value(), copy.spec_value()),
            copy.spec_next() == self.spec_next(),
    {
        match self {
            QNode::Tail { value } => QNode::Tail { value: value.clone() },
            QNode::Body { value, next } => QNode::Body { value: value.clone(), next: *next },
        }
    }
}

impl<T: Clone + std::fmt::Debug> QNode<T> {
    /// The value stored in the cell.
    pub open spec fn spec_value(self) -> T {
        match self {
            QNode::Tail { value } => value,
            QNode::Body { value, .. } => value,
        }
    }

    /// The successor's slot, or `None` for the last cell.
    pub open spec fn spec_next(self) -> Option<usize> {
        match self {
            QNode::Tail { .. } => None,
            QNode::Body { next, .. } => Some(next),
        }
    }

    /// Returns a clone of the stored value.
    pub fn value(&self) -> (v: T)
        ensures
            cloned(self.spec_value(), v),
    {
        match self {
            QNode::Tail { value } => value.clone(),
            QNode::Body { value, .. } => value.clone(),
        }
    }

    /// Returns the successor's slot if the cell has one.
    pub fn next(&self) -> (n: Option<usize>)
        ensures
            n == self.spec_next(),
    {
        match self {
            QNode::Tail { .. } => None,
            QNode::Body { next, .. } => Some(*next),
        }
    }

    /// Takes the cell apart into its value and its successor's slot.
    pub fn into_parts(self) -> (parts: (T, Option<usize>))
        ensures
            parts.0 == self.spec_value(),
            parts.1 == self.spec_next(),
    {
        match self {
            QNode::Tail { value } => (value, None),
            QNode::Body { value, next } => (value, Some(next)),
        }
    }
}

} // verus!
