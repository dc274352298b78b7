use shm_kv::ops::Operation;
use shm_kv::ring::{RingQueue, QUEUE_LEN};

// Transport FIFO: the dequeue sequence equals the enqueue sequence exactly.
fn check_fifo_roundtrip(n: usize) {
    let mut q = RingQueue::new(n);
    for i in 0..n {
        assert!(q.try_enqueue(Operation::Insert(i, i * i)));
    }
    for i in 0..n {
        assert_eq!(q.try_dequeue(), Some(Operation::Insert(i, i * i)));
    }
    assert_eq!(q.try_dequeue(), None);
}

#[test]
fn fifo_one() {
    check_fifo_roundtrip(1);
}

#[test]
fn fifo_sixteen() {
    check_fifo_roundtrip(16);
}

#[test]
fn fifo_two_hundred_fifty_six() {
    check_fifo_roundtrip(256);
}

#[test]
fn fifo_four_thousand_ninety_six() {
    check_fifo_roundtrip(4096);
}

#[test]
fn fifo_interleaved() {
    // FIFO also holds when enqueues and dequeues interleave in a small ring.
    let mut q = RingQueue::new(3);
    assert!(q.try_enqueue(Operation::Read(10)));
    assert!(q.try_enqueue(Operation::Read(11)));
    assert_eq!(q.try_dequeue(), Some(Operation::Read(10)));
    assert!(q.try_enqueue(Operation::Read(12)));
    assert!(q.try_enqueue(Operation::Read(13)));
    assert_eq!(q.try_dequeue(), Some(Operation::Read(11)));
    assert_eq!(q.try_dequeue(), Some(Operation::Read(12)));
    assert_eq!(q.try_dequeue(), Some(Operation::Read(13)));
    assert_eq!(q.try_dequeue(), None);
}

#[test]
fn capacity_blocks_producer() {
    // With capacity Q, the (Q+1)-th enqueue is refused — the producer would
    // block — and one dequeue makes the next enqueue succeed.
    let q_len: usize = 4;
    let mut q = RingQueue::new(q_len);
    for i in 0..q_len {
        assert!(q.try_enqueue(Operation::Insert(i, i)));
    }
    assert!(!q.try_enqueue(Operation::Insert(99, 99)));
    assert_eq!(q.len(), q_len);
    assert_eq!(q.try_dequeue(), Some(Operation::Insert(0, 0)));
    assert!(q.try_enqueue(Operation::Insert(99, 99)));
    assert_eq!(q.len(), q_len);
}

#[test]
fn conventional_queue_len_saturates() {
    // 2000 enqueues on the conventional ring: the producer is refused from
    // the 1025th on until a consumer drains; afterwards everything passes
    // through in order.
    let mut q = RingQueue::new(QUEUE_LEN);
    let mut accepted: usize = 0;
    for i in 0..2000 {
        if q.try_enqueue(Operation::Insert(i, i)) {
            accepted += 1;
        }
    }
    assert_eq!(accepted, QUEUE_LEN);
    for i in 0..QUEUE_LEN {
        assert_eq!(q.try_dequeue(), Some(Operation::Insert(i, i)));
    }
    assert_eq!(q.try_dequeue(), None);
}

#[test]
fn empty_ring_refuses_consumer() {
    let mut q = RingQueue::new(8);
    assert_eq!(q.try_dequeue(), None);
    assert_eq!(q.len(), 0);
}

#[test]
fn dequeue_never_yields_sentinel() {
    let mut q = RingQueue::new(5);
    assert!(q.try_enqueue(Operation::Fail));
    assert!(q.try_enqueue(Operation::Quit));
    while let Some(op) = q.try_dequeue() {
        assert_ne!(op, Operation::Empty);
    }
}
