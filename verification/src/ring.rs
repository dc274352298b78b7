use vstd::prelude::*;
use vstd::pervasive::VecAdditionalExecFns;
use crate::ops::Operation;

verus! {

/// The conventional compile-time length of a transport ring.
pub const QUEUE_LEN: usize = 1024;

/// `i` brought back into `[0, q)` for `i` in `[0, 2q)`: the wrap-around of a
/// slot position advanced past the end of the ring.
pub open spec fn wrap_index(i: int, q: int) -> int
    recommends
        0 < q,
        0 <= i < 2 * q,
{
    if i < q {
        i
    } else {
        i - q
    }
}

/// Whether a ring with the given pending operations and capacity accepts one
/// more enqueue; a producer blocks exactly when it does not.
pub open spec fn can_enqueue(pending: Seq<Operation>, capacity: nat) -> bool {
    pending.len() < capacity
}

/// The bounded ring-buffer transport: a fixed array of `Operation` slots,
/// `tail` the next slot to dequeue and `free` the next slot to enqueue. A
/// slot holding the `Empty` sentinel is free; the occupied slots are the
/// window of `count` slots starting at `tail`, wrapping around.
///
/// This is the state that lives in shared memory; the process-shared mutex
/// and the two condition variables that guard it belong to the caller, who
/// holds the mutex across each call and turns a refused `try_enqueue` or
/// `try_dequeue` into a wait on `not_full` or `not_empty`.
pub struct RingQueue {
    slots: Vec<Operation>,
    tail: usize,
    free: usize,
    count: usize,
}

impl View for RingQueue {
    type V = Seq<Operation>;

    /// The pending operations, oldest first.
    closed spec fn view(&self) -> Seq<Operation> {
        Seq::new(self.count as nat, |j: int| self.slot_at(j))
    }
}

impl RingQueue {
    /// The slot `j` places after `tail`, wrapping around.
    closed spec fn slot_at(&self, j: int) -> Operation {
        self.slots@[wrap_index(self.tail + j, self.slots@.len() as int)]
    }

    /// The fixed number of slots, chosen at construction.
    pub closed spec fn capacity(&self) -> nat {
        self.slots@.len()
    }

    /// The ring's invariant: indices in range, `free` one past the window of
    /// `count` occupied slots starting at `tail`, exactly the occupied slots
    /// holding something other than the `Empty` sentinel.
    pub closed spec fn wf(&self) -> bool {
        &&& self.slots@.len() > 0
        &&& self.tail < self.slots@.len()
        &&& self.free < self.slots@.len()
        &&& self.count <= self.slots@.len()
        &&& self.free as int == wrap_index(self.tail + self.count, self.slots@.len() as int)
        &&& forall|j: int| 0 <= j < self.count ==> #[trigger] self.slot_at(j) != Operation::Empty
        &&& forall|j: int|
            self.count <= j < self.slots@.len() ==> #[trigger] self.slot_at(j) == Operation::Empty
    }

    /// Create an empty ring of the given capacity, every slot free.
    pub fn new(capacity: usize) -> (q: Self)
        requires
            capacity >= 1,
        ensures
            q.wf(),
            q.capacity() == capacity,
            q@ == Seq::<Operation>::empty(),
    {
        let mut slots: Vec<Operation> = Vec::new();
        let mut n: usize = 0;
        while n < capacity
            invariant
                n <= capacity,
                slots@.len() == n,
                forall|i: int| 0 <= i < n ==> slots@[i] == Operation::Empty,
            decreases capacity - n,
        {
            slots.push(Operation::Empty);
            n = n + 1;
        }
        let q = RingQueue { slots, tail: 0, free: 0, count: 0 };
        assert(q@ =~= Seq::<Operation>::empty());
        q
    }

    /// The number of pending operations.
    pub fn len(&self) -> (n: usize)
        requires
            self.wf(),
        ensures
            n == self@.len(),
    {
        self.count
    }

    /// One enqueue attempt under the transport mutex. The operation is
    /// appended when a slot is free; a full ring refuses it unchanged, and
    /// the caller waits on `not_full` and retries. Producers never submit
    /// the `Empty` sentinel.
    pub fn try_enqueue(&mut self, op: Operation) -> (accepted: bool)
        requires
            old(self).wf(),
            op != Operation::Empty,
        ensures
            final(self).wf(),
            final(self).capacity() == old(self).capacity(),
            accepted == can_enqueue(old(self)@, old(self).capacity()),
            accepted ==> final(self)@ == old(self)@.push(op),
            !accepted ==> final(self)@ == old(self)@,
    {
        let q = self.slots.len();
        if self.count == q {
            return false;
        }
        let ghost pre = *self;
        self.slots.set(self.free, op);
        self.free = if self.free + 1 == q {
            0
        } else {
            self.free + 1
        };
        self.count = self.count + 1;
        proof {
            let qi = q as int;
            assert forall|j: int| 0 <= j < self.count implies #[trigger] self.slot_at(j)
                != Operation::Empty by {
                if j < pre.count {
                    assert(wrap_index(pre.tail + j, qi) != pre.free as int);
                    assert(self.slot_at(j) == pre.slot_at(j));
                    assert(pre.slot_at(j) != Operation::Empty);
                } else {
                    assert(self.slot_at(j) == op);
                }
            }
            assert forall|j: int| self.count <= j < qi implies #[trigger] self.slot_at(j)
                == Operation::Empty by {
                assert(wrap_index(pre.tail + j, qi) != pre.free as int);
                assert(self.slot_at(j) == pre.slot_at(j));
                assert(pre.slot_at(j) == Operation::Empty);
            }
            assert(final(self)@ =~= old(self)@.push(op)) by {
                assert forall|j: int| 0 <= j < self.count implies self@[j] == old(self)@.push(op)[j]
                by {
                    if j < pre.count {
                        assert(wrap_index(pre.tail + j, qi) != pre.free as int);
                        assert(self.slot_at(j) == pre.slot_at(j));
                    } else {
                        assert(self.slot_at(j) == op);
                    }
                }
            }
        }
        true
    }

    /// One dequeue attempt under the transport mutex. The oldest operation
    /// is copied out and its slot wiped back to `Empty`; an empty ring
    /// returns `None` unchanged, and the caller waits on `not_empty` and
    /// retries. What comes out is never the sentinel.
    pub fn try_dequeue(&mut self) -> (r: Option<Operation>)
        requires
            old(self).wf(),
        ensures
            final(self).wf(),
            final(self).capacity() == old(self).capacity(),
            old(self)@.len() == 0 ==> r is None && final(self)@ == old(self)@,
            old(self)@.len() > 0 ==> r == Some(old(self)@[0]) && final(self)@
                == old(self)@.drop_first(),
            r matches Some(op) ==> op != Operation::Empty,
    {
        let q = self.slots.len();
        if self.count == 0 {
            return None;
        }
        let ghost pre = *self;
        let op = self.slots[self.tail];
        proof {
            assert(op == pre.slot_at(0));
            assert(op == pre@[0]);
            assert(op != Operation::Empty);
        }
        self.slots.set(self.tail, Operation::Empty);
        self.tail = if self.tail + 1 == q {
            0
        } else {
            self.tail + 1
        };
        self.count = self.count - 1;
        proof {
            let qi = q as int;
            assert(self.free as int == wrap_index(self.tail + self.count, qi));
            assert forall|j: int| 0 <= j < self.count implies #[trigger] self.slot_at(j)
                != Operation::Empty by {
                assert(wrap_index(self.tail + j, qi) == wrap_index(pre.tail + (j + 1), qi));
                assert(wrap_index(pre.tail + (j + 1), qi) != pre.tail as int);
                assert(self.slot_at(j) == pre.slot_at(j + 1));
                assert(pre.slot_at(j + 1) != Operation::Empty);
            }
            assert forall|j: int| self.count <= j < qi implies #[trigger] self.slot_at(j)
                == Operation::Empty by {
                if j < qi - 1 {
                    assert(wrap_index(self.tail + j, qi) == wrap_index(pre.tail + (j + 1), qi));
                    if wrap_index(pre.tail + (j + 1), qi) == pre.tail as int {
                        assert(self.slot_at(j) == Operation::Empty);
                    } else {
                        assert(self.slot_at(j) == pre.slot_at(j + 1));
                        assert(pre.slot_at(j + 1) == Operation::Empty);
                    }
                } else {
                    assert(wrap_index(self.tail + j, qi) == pre.tail as int);
                    assert(self.slot_at(j) == Operation::Empty);
                }
            }
            assert(final(self)@ =~= old(self)@.drop_first()) by {
                assert forall|j: int| 0 <= j < self.count implies self@[j]
                    == old(self)@.drop_first()[j] by {
                    assert(wrap_index(self.tail + j, qi) == wrap_index(pre.tail + (j + 1), qi));
                    assert(wrap_index(pre.tail + (j + 1), qi) != pre.tail as int);
                    assert(self.slot_at(j) == pre.slot_at(j + 1));
                }
            }
        }
        Some(op)
    }
}

/// What well-formedness guarantees about the pending operations: occupancy
/// never exceeds the capacity, and no pending operation is the `Empty`
/// sentinel — a producer never submits it, so a slot holding it is free.
pub proof fn lemma_ring_occupancy(q: &RingQueue)
    requires
        q.wf(),
    ensures
        q@.len() <= q.capacity(),
        forall|j: int| 0 <= j < q@.len() ==> q@[j] != Operation::Empty,
{
    assert forall|j: int| 0 <= j < q@.len() implies q@[j] != Operation::Empty by {
        assert(q@[j] == q.slot_at(j));
    }
}

/// The pending operations after a run of enqueues, each appending to the
/// ring as `try_enqueue` ensures.
pub open spec fn after_enqueues(pending: Seq<Operation>, ops: Seq<Operation>) -> Seq<Operation>
    decreases ops.len(),
{
    if ops.len() == 0 {
        pending
    } else {
        after_enqueues(pending.push(ops[0]), ops.drop_first())
    }
}

/// The operations a consumer sees draining the ring, each taken from the
/// front as `try_dequeue` ensures.
pub open spec fn drained(pending: Seq<Operation>) -> Seq<Operation>
    decreases pending.len(),
{
    if pending.len() == 0 {
        Seq::<Operation>::empty()
    } else {
        seq![pending[0]] + drained(pending.drop_first())
    }
}

proof fn lemma_after_enqueues_appends(pending: Seq<Operation>, ops: Seq<Operation>)
    ensures
        after_enqueues(pending, ops) == pending + ops,
    decreases ops.len(),
{
    if ops.len() == 0 {
        assert(pending + ops =~= pending);
    } else {
        lemma_after_enqueues_appends(pending.push(ops[0]), ops.drop_first());
        assert(pending.push(ops[0]) + ops.drop_first() =~= pending + ops);
    }
}

proof fn lemma_drained_identity(pending: Seq<Operation>)
    ensures
        drained(pending) == pending,
    decreases pending.len(),
{
    if pending.len() > 0 {
        lemma_drained_identity(pending.drop_first());
        assert(seq![pending[0]] + pending.drop_first() =~= pending);
    }
}

/// Transport FIFO law: for a single producer and a single consumer on one
/// ring, the dequeue sequence equals the enqueue sequence exactly — any run
/// of enqueues on an empty ring drains in the order it went in.
pub proof fn lemma_transport_fifo(ops: Seq<Operation>)
    ensures
        drained(after_enqueues(Seq::<Operation>::empty(), ops)) == ops,
{
    lemma_after_enqueues_appends(Seq::<Operation>::empty(), ops);
    assert(Seq::<Operation>::empty() + ops =~= ops);
    lemma_drained_identity(ops);
}

/// Transport capacity law: a ring holding as many operations as its capacity
/// refuses the next enqueue — the producer blocks — and one dequeue makes
/// the very next enqueue acceptable again.
pub proof fn lemma_transport_capacity(pending: Seq<Operation>, capacity: nat)
    requires
        capacity > 0,
        pending.len() == capacity,
    ensures
        !can_enqueue(pending, capacity),
        can_enqueue(pending.drop_first(), capacity),
{
}

} // verus!
