//! Chains of cells inside a pool: what it means to walk one, and how a walk
//! changes when a cell is appended at its end or released at its start.

use vstd::prelude::*;
use crate::node::QNode;

verus! {

/// The slot that follows `at` in `cells`; `at` itself where nothing follows.
pub open spec fn next_of<T: Clone + std::fmt::Debug>(
    cells: Map<usize, QNode<T>>,
    at: usize,
) -> usize {
    if cells.dom().contains(at) {
        match cells[at] {
            QNode::Body { next, .. } => next,
            QNode::Tail { .. } => at,
        }
    } else {
        at
    }
}

/// The slot reached from `start` after following `k` links.
pub open spec fn hop<T: Clone + std::fmt::Debug>(
    cells: Map<usize, QNode<T>>,
    start: usize,
    k: nat,
) -> usize
    decreases k,
{
    if k == 0 {
        start
    } else {
        next_of(cells, hop(cells, start, (k - 1) as nat))
    }
}

/// `cells` holds a chain of exactly `n` distinct cells that begins in slot
/// `start` and ends with the one cell without a successor, in slot `tail`.
pub open spec fn chained<T: Clone + std::fmt::Debug>(
    cells: Map<usize, QNode<T>>,
    start: usize,
    tail: usize,
    n: nat,
) -> bool {
    &&& n >= 1
    &&& forall|k: nat| k < n ==> cells.dom().contains(#[trigger] hop(cells, start, k))
    &&& forall|k: nat| k + 1 < n ==> cells[#[trigger] hop(cells, start, k)] is Body
    &&& hop(cells, start, (n - 1) as nat) == tail
    &&& cells[tail] is Tail
    &&& forall|j: nat, k: nat|
        j < k < n ==> #[trigger] hop(cells, start, j) != #[trigger] hop(cells, start, k)
}

/// The values of the `n` cells met on the way from `start`, in order.
pub open spec fn chain_values<T: Clone + std::fmt::Debug>(
    cells: Map<usize, QNode<T>>,
    start: usize,
    n: nat,
) -> Seq<T> {
    Seq::new(n, |k: int| cells[hop(cells, start, k as nat)].spec_value())
}

/// Two pools that agree on the links of the first `k` cells of a walk lead
/// that walk to the same slot.
pub proof fn lemma_hop_agree<T: Clone + std::fmt::Debug>(
    a: Map<usize, QNode<T>>,
    b: Map<usize, QNode<T>>,
    start: usize,
    k: nat,
)
    requires
        forall|j: nat|
            j < k ==> next_of(a, #[trigger] hop(a, start, j)) == next_of(b, hop(a, start, j)),
    ensures
        hop(a, start, k) == hop(b, start, k),
    decreases k,
{
    if k > 0 {
        lemma_hop_agree(a, b, start, (k - 1) as nat);
    }
}

/// Following one link and then `k` more is following `k + 1` links.
pub proof fn lemma_hop_shift<T: Clone + std::fmt::Debug>(
    cells: Map<usize, QNode<T>>,
    start: usize,
    k: nat,
)
    ensures
        hop(cells, next_of(cells, start), k) == hop(cells, start, k + 1),
    decreases k,
{
    if k == 0 {
        assert(hop(cells, start, 0) == start);
    } else {
        lemma_hop_shift(cells, start, (k - 1) as nat);
        assert(hop(cells, start, k) == next_of(cells, hop(cells, start, (k - 1) as nat)));
    }
}

/// A chain is one cell long exactly when its first cell has no successor.
pub proof fn lemma_chain_of_one<T: Clone + std::fmt::Debug>(
    cells: Map<usize, QNode<T>>,
    start: usize,
    tail: usize,
    n: nat,
)
    requires
        chained(cells, start, tail, n),
    ensures
        cells.dom().contains(start),
        n == 1 <==> cells[start] is Tail,
        n == 1 ==> start == tail,
{
    assert(hop(cells, start, 0) == start);
}

/// Appending: a fresh last cell in a slot that was vacant, and the old last
/// cell rewritten to point at it, make a chain one longer whose values are the
/// old ones followed by the new value.
pub proof fn lemma_chain_append<T: Clone + std::fmt::Debug>(
    before: Map<usize, QNode<T>>,
    after: Map<usize, QNode<T>>,
    start: usize,
    tail: usize,
    new_tail: usize,
    n: nat,
    value: T,
)
    requires
        chained(before, start, tail, n),
        !before.dom().contains(new_tail),
        after == before.insert(new_tail, QNode::Tail { value }).insert(
            tail,
            QNode::Body { value: before[tail].spec_value(), next: new_tail },
        ),
    ensures
        chained(after, start, new_tail, n + 1),
        chain_values(after, start, n + 1) == chain_values(before, start, n).push(value),
{
    assert forall|k: nat| k < n implies hop(after, start, k) == hop(before, start, k) by {
        assert forall|j: nat| j < k implies next_of(before, #[trigger] hop(before, start, j))
            == next_of(after, hop(before, start, j)) by {
            assert(hop(before, start, j) != hop(before, start, (n - 1) as nat));
        }
        lemma_hop_agree(before, after, start, k);
    }
    assert(hop(after, start, (n - 1) as nat) == tail);
    assert(hop(after, start, n) == new_tail);
    assert(chain_values(after, start, n + 1) =~= chain_values(before, start, n).push(value));
}

/// Releasing the first cell of a chain of two or more leaves the chain that
/// begins at its successor, with the same values but the first.
pub proof fn lemma_chain_behead<T: Clone + std::fmt::Debug>(
    before: Map<usize, QNode<T>>,
    start: usize,
    tail: usize,
    n: nat,
)
    requires
        chained(before, start, tail, n),
        n >= 2,
    ensures
        chained(before.remove(start), next_of(before, start), tail, (n - 1) as nat),
        chain_values(before.remove(start), next_of(before, start), (n - 1) as nat) == chain_values(
            before,
            start,
            n,
        ).skip(1),
{
    let after = before.remove(start);
    let next = next_of(before, start);
    let m = (n - 1) as nat;
    assert(hop(before, start, 0) == start);
    assert forall|k: nat| k < m implies hop(after, next, k) == hop(before, start, k + 1) by {
        assert forall|j: nat| j < k implies next_of(before, #[trigger] hop(before, next, j))
            == next_of(after, hop(before, next, j)) by {
            lemma_hop_shift(before, start, j);
            assert(hop(before, start, 0) != hop(before, start, j + 1));
        }
        lemma_hop_agree(before, after, next, k);
        lemma_hop_shift(before, start, k);
    }
    assert forall|j: nat, k: nat| j < k < m implies hop(after, next, j) != hop(after, next, k) by {
        assert(hop(before, start, j + 1) != hop(before, start, k + 1));
    }
    assert forall|k: nat| k < m implies after.dom().contains(#[trigger] hop(after, next, k)) by {
        assert(hop(before, start, 0) != hop(before, start, k + 1));
        assert(before.dom().contains(hop(before, start, k + 1)));
    }
    assert forall|k: nat| k + 1 < m implies after[#[trigger] hop(after, next, k)] is Body by {
        assert(hop(before, start, 0) != hop(before, start, k + 1));
        assert(before[hop(before, start, k + 1)] is Body);
    }
    assert(hop(after, next, (m - 1) as nat) == tail);
    assert(hop(before, start, 0) != hop(before, start, m));
    assert(chain_values(after, next, m) =~= chain_values(before, start, n).skip(1));
}

} // verus!
