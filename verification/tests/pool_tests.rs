use chain_queue::node::QNode;
use chain_queue::pool::NodePool;

#[test]
fn new_pool_holds_nothing() {
    let pool: NodePool<u32> = NodePool::new();
    assert_eq!(pool.live_count(), 0);
}

#[test]
fn place_gives_distinct_slots() {
    let mut pool: NodePool<u32> = NodePool::new();
    let a = pool.place(QNode::Tail { value: 1 });
    let b = pool.place(QNode::Tail { value: 2 });
    let c = pool.place(QNode::Tail { value: 3 });
    assert_ne!(a, b);
    assert_ne!(b, c);
    assert_ne!(a, c);
    assert_eq!(pool.live_count(), 3);
    assert_eq!(pool.get(a).value(), 1);
    assert_eq!(pool.get(b).value(), 2);
    assert_eq!(pool.get(c).value(), 3);
}

#[test]
fn release_returns_the_cell() {
    let mut pool: NodePool<u32> = NodePool::new();
    let a = pool.place(QNode::Body { value: 10, next: 4 });
    let b = pool.place(QNode::Tail { value: 20 });
    let out = pool.release(a);
    assert_eq!(out.into_parts(), (10, Some(4)));
    assert_eq!(pool.live_count(), 1);
    assert_eq!(pool.get(b).value(), 20);
    assert_eq!(pool.get(b).next(), None);
}

#[test]
fn a_released_slot_is_handed_out_again() {
    let mut pool: NodePool<u32> = NodePool::new();
    let a = pool.place(QNode::Tail { value: 1 });
    let b = pool.place(QNode::Tail { value: 2 });
    pool.release(a);
    let c = pool.place(QNode::Tail { value: 3 });
    assert_eq!(c, a);
    assert_ne!(c, b);
    assert_eq!(pool.live_count(), 2);
    assert_eq!(pool.get(c).value(), 3);
    assert_eq!(pool.get(b).value(), 2);
}

#[test]
fn link_rewrites_a_tail_in_place() {
    let mut pool: NodePool<u32> = NodePool::new();
    let a = pool.place(QNode::Tail { value: 7 });
    let b = pool.place(QNode::Tail { value: 8 });
    pool.link(a, b);
    assert_eq!(pool.get(a).value(), 7);
    assert_eq!(pool.get(a).next(), Some(b));
    assert_eq!(pool.get(b).value(), 8);
    assert_eq!(pool.get(b).next(), None);
    assert_eq!(pool.live_count(), 2);
}
