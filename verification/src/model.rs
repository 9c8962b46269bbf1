//! The queue as a sequence: what its operations do to the sequence of its
//! elements, front first.

use vstd::prelude::*;

verus! {

/// The front of `s`, if it has one.
pub open spec fn spec_front<T>(s: Seq<T>) -> Option<T> {
    if s.len() == 0 {
        None
    } else {
        Some(s[0])
    }
}

/// What is left of `s` once its front is gone; `s` itself where it is empty.
pub open spec fn spec_rest<T>(s: Seq<T>) -> Seq<T> {
    if s.len() == 0 {
        s
    } else {
        s.skip(1)
    }
}

/// `copy` may come from cloning `source`: nothing from nothing, and from a
/// value a clone of it.
pub open spec fn clone_of<T: Clone>(source: Option<T>, copy: Option<T>) -> bool {
    match (source, copy) {
        (None, None) => true,
        (Some(a), Some(b)) => cloned(a, b),
        _ => false,
    }
}

/// The number of pool cells behind a queue of `len` elements: the front is
/// kept in the queue itself, every element after it in a cell.
pub open spec fn cells_for(len: nat) -> nat {
    if len <= 1 {
        0
    } else {
        (len - 1) as nat
    }
}

/// The number of cells that an enqueue takes from the pool on a queue of
/// `len` elements: none for the first element, one for every other.
pub open spec fn cells_taken(len: nat) -> nat {
    if len == 0 {
        0
    } else {
        1
    }
}

/// The number of cells that a dequeue gives back to the pool on a queue of
/// `len` elements: one where an element stands behind the front.
pub open spec fn cells_released(len: nat) -> nat {
    if len >= 2 {
        1
    } else {
        0
    }
}

/// The elements that come out when the front is taken from `s` again and
/// again until none is left, in the order in which they come.
pub open spec fn drained<T>(s: Seq<T>) -> Seq<T>
    decreases s.len(),
{
    match spec_front(s) {
        None => Seq::empty(),
        Some(v) => seq![v] + drained(spec_rest(s)),
    }
}

/// `s` after each of `values` was appended to it in turn.
pub open spec fn enqueued_all<T>(s: Seq<T>, values: Seq<T>) -> Seq<T>
    decreases values.len(),
{
    if values.len() == 0 {
        s
    } else {
        enqueued_all(s.push(values[0]), values.skip(1))
    }
}

/// One operation that changes a queue.
pub enum Step<T> {
    Enqueue(T),
    Dequeue,
}

/// `s` after one step.
pub open spec fn stepped<T>(s: Seq<T>, step: Step<T>) -> Seq<T> {
    match step {
        Step::Enqueue(v) => s.push(v),
        Step::Dequeue => spec_rest(s),
    }
}

/// `s` after `steps`, taken in order.
pub open spec fn run<T>(s: Seq<T>, steps: Seq<Step<T>>) -> Seq<T>
    decreases steps.len(),
{
    if steps.len() == 0 {
        s
    } else {
        stepped(run(s, steps.drop_last()), steps.last())
    }
}

/// The cells taken less the cells released by one step on a queue of `len`
/// elements.
pub open spec fn step_cells<T>(len: nat, step: Step<T>) -> int {
    match step {
        Step::Enqueue(_) => cells_taken(len) as int,
        Step::Dequeue => -(cells_released(len) as int),
    }
}

/// The cells taken less the cells released over `steps`, begun on `s`.
pub open spec fn run_cells<T>(s: Seq<T>, steps: Seq<Step<T>>) -> int
    decreases steps.len(),
{
    if steps.len() == 0 {
        0
    } else {
        run_cells(s, steps.drop_last()) + step_cells(
            run(s, steps.drop_last()).len(),
            steps.last(),
        )
    }
}

/// The cells released by draining a queue of `len` elements.
pub open spec fn drain_cells(len: nat) -> nat
    decreases len,
{
    if len == 0 {
        0
    } else {
        cells_released(len) + drain_cells((len - 1) as nat)
    }
}

} // verus!
