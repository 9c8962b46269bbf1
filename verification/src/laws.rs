//! What holds of every queue, stated over the sequence of its elements.

use vstd::prelude::*;
use crate::model::{
    cells_for, clone_of, drain_cells, drained, enqueued_all, run, run_cells, spec_front,
    spec_rest, Step,
};

verus! {

/// Draining a queue gives back its elements, each once and in order; so
/// the length of a queue is the number of elements that draining it yields.
pub proof fn lemma_drain_yields_all<T>(s: Seq<T>)
    ensures
        drained(s) == s,
        drained(s).len() == s.len(),
    decreases s.len(),
{
    if s.len() > 0 {
        lemma_drain_yields_all(spec_rest(s));
        assert(seq![s[0]] + s.skip(1) =~= s);
    } else {
        assert(s =~= Seq::<T>::empty());
    }
}

/// Appending values one by one appends them all, in the order given.
pub proof fn lemma_enqueued_all_appends<T>(s: Seq<T>, values: Seq<T>)
    ensures
        enqueued_all(s, values) == s + values,
    decreases values.len(),
{
    if values.len() > 0 {
        lemma_enqueued_all_appends(s.push(values[0]), values.skip(1));
        assert(s.push(values[0]) + values.skip(1) =~= s + values);
    } else {
        assert(s + values =~= s);
    }
}

/// First in, first out: values enqueued into an empty queue with no dequeue
/// in between come out of a drain exactly as they went in.
pub proof fn lemma_fifo<T>(values: Seq<T>)
    ensures
        drained(enqueued_all(Seq::<T>::empty(), values)) == values,
{
    lemma_enqueued_all_appends(Seq::<T>::empty(), values);
    assert(Seq::<T>::empty() + values =~= values);
    lemma_drain_yields_all(values);
}

/// Peek and dequeue agree: on a queue that holds `s`, what a peek returns is
/// a clone of what the dequeue after it returns, both are `None` exactly when
/// the queue is empty, and the two are equal wherever a clone of a `T` is
/// always equal to the value that was cloned.
pub proof fn lemma_peek_agrees_with_dequeue<T: Clone>(
    s: Seq<T>,
    peeked: Option<T>,
    dequeued: Option<T>,
)
    requires
        clone_of(spec_front(s), peeked),
        dequeued == spec_front(s),
    ensures
        clone_of(dequeued, peeked),
        peeked is None <==> s.len() == 0,
        dequeued is None <==> s.len() == 0,
        (forall|a: T, b: T| cloned(a, b) ==> a == b) ==> peeked == dequeued,
{
}

/// However a queue got to hold `s`, the steps that follow change the
/// number of its cells by what they take less what they release.
pub proof fn lemma_cells_follow_run<T>(s: Seq<T>, steps: Seq<Step<T>>)
    ensures
        cells_for(run(s, steps).len()) == cells_for(s.len()) + run_cells(s, steps),
    decreases steps.len(),
{
    if steps.len() > 0 {
        lemma_cells_follow_run(s, steps.drop_last());
    }
}

/// Draining releases every cell that a queue holds.
pub proof fn lemma_drain_releases_all(len: nat)
    ensures
        drain_cells(len) == cells_for(len),
    decreases len,
{
    if len > 0 {
        lemma_drain_releases_all((len - 1) as nat);
    }
}

/// No cell is lost and none is released twice: over any steps on a queue that
/// began empty, followed by a drain, as many cells are released as were
/// taken.
pub proof fn lemma_cells_balance<T>(steps: Seq<Step<T>>)
    ensures
        run_cells(Seq::<T>::empty(), steps) - drain_cells(
            run(Seq::<T>::empty(), steps).len(),
        ) == 0,
{
    lemma_cells_follow_run(Seq::<T>::empty(), steps);
    lemma_drain_releases_all(run(Seq::<T>::empty(), steps).len());
}

/// After any steps the length of the queue is the number of elements that a
/// drain yields.
pub proof fn lemma_length_counts_drain<T>(s: Seq<T>, steps: Seq<Step<T>>)
    ensures
        drained(run(s, steps)).len() == run(s, steps).len(),
{
    lemma_drain_yields_all(run(s, steps));
}

} // verus!
