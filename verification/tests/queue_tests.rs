use chain_queue::queue::Queue;
use std::cell::Cell;
use std::rc::Rc;

/// An element that counts how many of its kind are alive.
#[derive(Debug)]
struct Counted {
    id: u32,
    alive: Rc<Cell<i64>>,
}

impl Counted {
    fn new(id: u32, alive: &Rc<Cell<i64>>) -> Self {
        alive.set(alive.get() + 1);
        Counted { id, alive: Rc::clone(alive) }
    }
}

impl Clone for Counted {
    fn clone(&self) -> Self {
        Counted::new(self.id, &self.alive)
    }
}

impl Drop for Counted {
    fn drop(&mut self) {
        self.alive.set(self.alive.get() - 1);
    }
}

fn drain(queue: &mut Queue<u32>) -> Vec<u32> {
    let mut out = Vec::new();
    while let Some(v) = queue.dequeue() {
        out.push(v);
    }
    out
}

#[test]
fn fresh_queue_is_empty() {
    let mut q: Queue<u32> = Queue::new();
    assert_eq!(q.len(), 0);
    assert_eq!(q.peek(), None);
    assert_eq!(q.dequeue(), None);
    assert_eq!(q.len(), 0);
    assert_eq!(q.nodes(), 0);
}

#[test]
fn dequeue_on_empty_changes_nothing() {
    let mut q: Queue<u32> = Queue::new();
    for _ in 0..5 {
        assert_eq!(q.dequeue(), None);
    }
    assert_eq!(q.len(), 0);
    q.enqueue(3);
    assert_eq!(q.len(), 1);
    assert_eq!(q.dequeue(), Some(3));
}

#[test]
fn interleaving_scenario() {
    let mut q: Queue<u32> = Queue::new();
    for v in [8, 16, 32, 64, 128, 256] {
        q.enqueue(v);
    }
    assert_eq!(q.len(), 6);
    assert_eq!(q.peek(), Some(8));

    assert_eq!(q.dequeue(), Some(8));
    assert_eq!(q.peek(), Some(16));
    assert_eq!(q.len(), 5);

    assert_eq!(q.dequeue(), Some(16));
    assert_eq!(q.len(), 4);

    assert_eq!(q.dequeue(), Some(32));
    assert_eq!(q.dequeue(), Some(64));
    assert_eq!(q.dequeue(), Some(128));
    assert_eq!(q.dequeue(), Some(256));
    assert_eq!(q.len(), 0);
    assert_eq!(q.dequeue(), None);
    assert_eq!(q.peek(), None);
}

#[test]
fn single_element_transition() {
    let mut q: Queue<u32> = Queue::new();
    q.enqueue(77);
    assert_eq!(q.len(), 1);
    assert_eq!(q.peek(), Some(77));
    assert_eq!(q.nodes(), 0);
    assert_eq!(q.dequeue(), Some(77));
    assert_eq!(q.len(), 0);

    assert_eq!(q.peek(), None);
    assert_eq!(q.dequeue(), None);
    assert_eq!(q.len(), 0);
    q.enqueue(5);
    q.enqueue(6);
    assert_eq!(q.len(), 2);
    assert_eq!(drain(&mut q), vec![5, 6]);
}

#[test]
fn second_element_survives_two_to_one() {
    let mut q: Queue<u32> = Queue::new();
    q.enqueue(1);
    q.enqueue(2);
    assert_eq!(q.len(), 2);
    assert_eq!(q.dequeue(), Some(1));
    assert_eq!(q.len(), 1);
    assert_eq!(q.peek(), Some(2));
    assert_eq!(q.dequeue(), Some(2));
    assert_eq!(q.peek(), None);
    assert_eq!(q.len(), 0);
}

#[test]
fn drain_yields_enqueued_values_in_order() {
    let values: Vec<u32> = (0..200).map(|i| i * 7 + 3).collect();
    let mut q: Queue<u32> = Queue::new();
    for v in &values {
        q.enqueue(*v);
    }
    assert_eq!(q.len(), values.len());
    assert_eq!(drain(&mut q), values);
    assert_eq!(q.len(), 0);
}

#[test]
fn len_counts_what_a_drain_yields() {
    let mut q: Queue<u32> = Queue::new();
    for v in 0..10 {
        q.enqueue(v);
    }
    q.dequeue();
    q.dequeue();
    q.enqueue(10);
    q.dequeue();
    q.enqueue(11);
    q.enqueue(12);
    let n = q.len();
    assert_eq!(n, 10);
    let out = drain(&mut q);
    assert_eq!(out.len(), n);
    assert_eq!(out, vec![3, 4, 5, 6, 7, 8, 9, 10, 11, 12]);
}

#[test]
fn peek_agrees_with_dequeue_and_keeps_len() {
    let mut q: Queue<u32> = Queue::new();
    for v in [4, 9, 2, 7] {
        q.enqueue(v);
    }
    while q.len() > 0 {
        let n = q.len();
        let peeked = q.peek();
        assert_eq!(q.len(), n);
        assert_eq!(q.peek(), peeked);
        let taken = q.dequeue();
        assert!(taken.is_some());
        assert_eq!(peeked, taken);
        assert_eq!(q.len(), n - 1);
    }
    assert_eq!(q.peek(), q.dequeue());
}

#[test]
fn peek_clones_the_front() {
    let mut q: Queue<String> = Queue::new();
    q.enqueue(String::from("first"));
    q.enqueue(String::from("second"));
    let mut seen = q.peek().unwrap();
    seen.push_str(" changed");
    assert_eq!(q.peek(), Some(String::from("first")));
    assert_eq!(q.dequeue(), Some(String::from("first")));
    assert_eq!(q.dequeue(), Some(String::from("second")));
    assert_eq!(q.dequeue(), None);
}

#[test]
fn nodes_follow_the_length() {
    let mut q: Queue<u32> = Queue::new();
    assert_eq!(q.nodes(), 0);
    q.enqueue(1);
    assert_eq!(q.nodes(), 0);
    q.enqueue(2);
    assert_eq!(q.nodes(), 1);
    q.enqueue(3);
    assert_eq!(q.nodes(), 2);
    q.enqueue(4);
    assert_eq!(q.nodes(), 3);
    assert_eq!(q.dequeue(), Some(1));
    assert_eq!(q.nodes(), 2);
    assert_eq!(q.dequeue(), Some(2));
    assert_eq!(q.nodes(), 1);
    assert_eq!(q.dequeue(), Some(3));
    assert_eq!(q.nodes(), 0);
    assert_eq!(q.len(), 1);
    assert_eq!(q.dequeue(), Some(4));
    assert_eq!(q.nodes(), 0);
    assert_eq!(q.dequeue(), None);
    assert_eq!(q.nodes(), 0);
}

#[test]
fn released_slots_are_used_again() {
    let mut q: Queue<u32> = Queue::new();
    let mut next_in: u32 = 0;
    let mut next_out: u32 = 0;
    for _ in 0..4 {
        q.enqueue(next_in);
        next_in += 1;
    }
    for round in 0..1000 {
        q.enqueue(next_in);
        next_in += 1;
        if round % 3 == 0 {
            q.enqueue(next_in);
            next_in += 1;
        }
        assert_eq!(q.peek(), Some(next_out));
        assert_eq!(q.dequeue(), Some(next_out));
        next_out += 1;
        if round % 3 == 1 && q.len() > 2 {
            assert_eq!(q.dequeue(), Some(next_out));
            next_out += 1;
        }
        assert_eq!(q.len(), (next_in - next_out) as usize);
        assert_eq!(q.nodes(), q.len().saturating_sub(1));
    }
    let rest = drain(&mut q);
    let expected: Vec<u32> = (next_out..next_in).collect();
    assert_eq!(rest, expected);
}

#[test]
fn cycles_through_all_shapes_repeatedly() {
    let mut q: Queue<u32> = Queue::new();
    for round in 0..50 {
        assert_eq!(q.len(), 0);
        q.enqueue(round);
        assert_eq!(q.len(), 1);
        q.enqueue(round + 1);
        q.enqueue(round + 2);
        assert_eq!(q.len(), 3);
        assert_eq!(q.dequeue(), Some(round));
        assert_eq!(q.dequeue(), Some(round + 1));
        assert_eq!(q.len(), 1);
        assert_eq!(q.peek(), Some(round + 2));
        assert_eq!(q.dequeue(), Some(round + 2));
        assert_eq!(q.dequeue(), None);
    }
}

#[test]
fn no_element_outlives_a_discarded_queue() {
    let alive = Rc::new(Cell::new(0i64));
    {
        let mut q: Queue<Counted> = Queue::new();
        for id in 0..20 {
            q.enqueue(Counted::new(id, &alive));
        }
        assert_eq!(alive.get(), 20);
        for id in 0..7 {
            let out = q.dequeue().unwrap();
            assert_eq!(out.id, id);
        }
        assert_eq!(alive.get(), 13);
        let front = q.peek().unwrap();
        assert_eq!(front.id, 7);
        assert_eq!(alive.get(), 14);
        drop(front);
        assert_eq!(alive.get(), 13);
        assert_eq!(q.len(), 13);
        assert_eq!(q.nodes(), 12);
    }
    assert_eq!(alive.get(), 0);
}

#[test]
fn no_element_is_lost_or_dropped_twice_when_drained() {
    let alive = Rc::new(Cell::new(0i64));
    let mut q: Queue<Counted> = Queue::new();
    for id in 0..5 {
        q.enqueue(Counted::new(id, &alive));
    }
    let mut id = 0;
    while let Some(out) = q.dequeue() {
        assert_eq!(out.id, id);
        id += 1;
        assert_eq!(alive.get(), 5 - i64::from(id) + 1);
        drop(out);
        assert_eq!(alive.get(), 5 - i64::from(id));
    }
    assert_eq!(id, 5);
    assert_eq!(alive.get(), 0);
    assert_eq!(q.nodes(), 0);
    drop(q);
    assert_eq!(alive.get(), 0);
}

#[test]
fn debug_form_shows_length_and_contents() {
    let mut q: Queue<u32> = Queue::new();
    q.enqueue(8);
    q.enqueue(16);
    q.enqueue(32);
    let text = format!("{:?}", q);
    assert!(text.contains("length: 3"));
    assert!(text.contains("8"));
    assert!(text.contains("16"));
    assert!(text.contains("32"));
}
