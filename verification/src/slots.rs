use vstd::prelude::*;
use vstd::pervasive::VecAdditionalExecFns;
use crate::ops::Operation;
use crate::table::{Bucket, HashTable, table_after_dispatch, table_lookup};

verus! {

/// The fixed number of message slots: one per client thread and per server
/// worker, paired by index.
pub const THREAD_NUM: usize = 8;

/// The successor of a sequence number, wrapping at the machine-word bound as
/// an atomic fetch-add does.
pub open spec fn seq_advance(s: usize) -> usize {
    if s == usize::MAX {
        0
    } else {
        (s + 1) as usize
    }
}

/// One message slot of the slot-array transport: the payload, the sequence
/// number the producer stamped, and the two ownership flags.
///
/// This is the state that lives in shared memory; the slot's process-shared
/// mutex belongs to the caller, who holds it across each call and spins when
/// a call reports nothing to do.
#[derive(Debug, Clone, Copy, PartialEq, Eq, Structural)]
pub struct OperationSlot {
    /// The request or response currently held; `Empty` when idle.
    pub op: Operation,
    /// The sequence number the producer chose for the pending request.
    pub seq_no: usize,
    /// Set only by the producer: a request waits in the slot.
    pub has_work: bool,
    /// Set only by the consumer: a response waits in the slot.
    pub has_result: bool,
}

/// The slot invariant: of (has_work, has_result) the combination
/// (true, true) never holds — a slot is idle, pending, or completed.
pub open spec fn slot_wf(s: OperationSlot) -> bool {
    !(s.has_work && s.has_result)
}

/// A slot owned by nobody: free for the next `put_work`.
pub open spec fn slot_idle(s: OperationSlot) -> bool {
    !s.has_work && !s.has_result
}

/// The slot as `put_work` leaves it when it claims an idle slot.
pub open spec fn slot_after_put(s: OperationSlot, op: Operation, seq_no: usize) -> OperationSlot {
    OperationSlot { op, seq_no, has_work: true, has_result: false }
}

/// The slot as `pick_up_result` leaves it when it takes a completed result.
pub open spec fn slot_after_pick_up(s: OperationSlot) -> OperationSlot {
    OperationSlot { op: Operation::Empty, seq_no: s.seq_no, has_work: s.has_work, has_result: false }
}

/// Whether a server worker observing sequence counter `ctr` may dispatch the
/// slot: pending work whose stamp matches the counter.
pub open spec fn slot_eligible(s: OperationSlot, ctr: usize) -> bool {
    s.has_work && !s.has_result && s.seq_no == ctr
}

/// The payload left in the slot after its operation is performed against a
/// table with contents `t`: a `Read` turns into its response, `Quit` stays
/// (the server is exiting), everything else is consumed to `Empty`.
pub open spec fn slot_op_after_dispatch(op: Operation, t: Seq<Bucket>) -> Operation {
    match op {
        Operation::Read(k) => match table_lookup(t, k) {
            Some(v) => Operation::Value(v),
            None => Operation::Fail,
        },
        Operation::Quit => Operation::Quit,
        _ => Operation::Empty,
    }
}

/// The server's sequence counter after one operation: it advances on every
/// hash-table access — insert, delete, read, and a print of an existing
/// bucket — and stays put otherwise.
pub open spec fn seq_after_dispatch(s: usize, op: Operation, t: Seq<Bucket>) -> usize {
    match op {
        Operation::Insert(_, _) => seq_advance(s),
        Operation::Delete(_) => seq_advance(s),
        Operation::Read(_) => seq_advance(s),
        Operation::Print(i) => if i < t.len() {
            seq_advance(s)
        } else {
            s
        },
        _ => s,
    }
}

/// The whole slot (other than `Quit`, which `get_work` leaves untouched)
/// after a worker dispatches it: the work flag is cleared, and exactly a
/// `Read` leaves a result behind.
pub open spec fn slot_after_dispatch(s: OperationSlot, t: Seq<Bucket>) -> OperationSlot {
    OperationSlot {
        op: slot_op_after_dispatch(s.op, t),
        seq_no: s.seq_no,
        has_work: false,
        has_result: s.op is Read,
    }
}

/// What a server worker tells its caller after one dispatch attempt.
#[derive(Debug)]
pub enum ServerAction {
    /// The slot held no eligible work; spin and try again.
    Idle,
    /// A fire-and-forget request was performed; no reply is owed.
    Done,
    /// A `Read` was answered into the slot for the client to pick up.
    Replied,
    /// A `Print`: the bucket's pairs to emit, or `None` when the index is
    /// out of range.
    Output(Option<Vec<(usize, usize)>>),
    /// A `Quit`: the server process must exit.
    Quit,
}

/// What the action of a dispatch of `op` against table contents `t` must be.
pub open spec fn action_matches(a: ServerAction, op: Operation, t: Seq<Bucket>) -> bool {
    match op {
        Operation::Read(_) => a == ServerAction::Replied,
        Operation::Print(i) => match a {
            ServerAction::Output(e) => match e {
                Some(v) => i < t.len() && v@ == t[i as int],
                None => i >= t.len(),
            },
            _ => false,
        },
        Operation::Quit => a == ServerAction::Quit,
        _ => a == ServerAction::Done,
    }
}

/// Advance the server's sequence counter by one table access.
fn bump_seq(seq_ctr: &mut usize)
    ensures
        *final(seq_ctr) == seq_advance(*old(seq_ctr)),
{
    *seq_ctr = if *seq_ctr == usize::MAX {
        0
    } else {
        *seq_ctr + 1
    };
}

impl OperationSlot {
    /// One producer attempt on this slot, under its mutex: an idle slot
    /// takes the operation and the caller's sequence number; a busy slot
    /// refuses unchanged, and the caller spins. Producers never submit the
    /// `Empty` sentinel.
    pub fn try_put(&mut self, op: Operation, seq_no: usize) -> (accepted: bool)
        requires
            slot_wf(*old(self)),
            op != Operation::Empty,
        ensures
            slot_wf(*final(self)),
            accepted == slot_idle(*old(self)),
            accepted ==> *final(self) == slot_after_put(*old(self), op, seq_no),
            !accepted ==> *final(self) == *old(self),
    {
        if !self.has_work && !self.has_result {
            self.op = op;
            self.seq_no = seq_no;
            self.has_work = true;
            true
        } else {
            false
        }
    }

    /// One consumer attempt on this slot, under its mutex: a completed slot
    /// yields its payload and returns to idle; otherwise nothing changes and
    /// the caller spins.
    pub fn try_take_result(&mut self) -> (r: Option<Operation>)
        requires
            slot_wf(*old(self)),
        ensures
            slot_wf(*final(self)),
            old(self).has_result ==> r == Some(old(self).op) && *final(self) == slot_after_pick_up(
                *old(self),
            ),
            !old(self).has_result ==> r is None && *final(self) == *old(self),
    {
        if self.has_result {
            let op = self.op;
            self.op = Operation::Empty;
            self.has_result = false;
            Some(op)
        } else {
            None
        }
    }

    /// One worker attempt on this slot, under its mutex: work is performed
    /// only when the slot is pending and its stamp equals the observed
    /// sequence counter. A dispatched request clears the work flag; a `Quit`
    /// leaves the slot untouched and tells the caller to exit; anything else
    /// leaves every state unchanged.
    pub fn try_dispatch(&mut self, ht: &mut HashTable, seq_ctr: &mut usize) -> (a: ServerAction)
        requires
            slot_wf(*old(self)),
            old(ht).wf(),
        ensures
            slot_wf(*final(self)),
            final(ht).wf(),
            ({
                let s = *old(self);
                if slot_eligible(s, *old(seq_ctr)) {
                    if s.op is Quit {
                        &&& a == ServerAction::Quit
                        &&& *final(self) == s
                        &&& final(ht)@ == old(ht)@
                        &&& *final(seq_ctr) == *old(seq_ctr)
                    } else {
                        &&& final(ht)@ == table_after_dispatch(old(ht)@, s.op)
                        &&& *final(seq_ctr) == seq_after_dispatch(*old(seq_ctr), s.op, old(ht)@)
                        &&& *final(self) == slot_after_dispatch(s, old(ht)@)
                        &&& action_matches(a, s.op, old(ht)@)
                    }
                } else {
                    &&& a == ServerAction::Idle
                    &&& *final(self) == s
                    &&& final(ht)@ == old(ht)@
                    &&& *final(seq_ctr) == *old(seq_ctr)
                }
            }),
    {
        if self.has_work && !self.has_result && self.seq_no == *seq_ctr {
            let a = self.perform_work(ht, seq_ctr);
            match &a {
                ServerAction::Quit => {}
                _ => {
                    self.has_work = false;
                }
            }
            a
        } else {
            ServerAction::Idle
        }
    }

    /// Perform the operation held in the slot against the table, as a worker
    /// does once the slot is eligible: requests mutate or query the table,
    /// a `Read` writes its response back into the slot, and the sequence
    /// counter advances on each table access. `Quit` changes nothing: the
    /// caller exits instead.
    pub fn perform_work(&mut self, ht: &mut HashTable, seq_ctr: &mut usize) -> (a: ServerAction)
        requires
            old(ht).wf(),
        ensures
            final(ht).wf(),
            final(ht)@ == table_after_dispatch(old(ht)@, old(self).op),
            *final(seq_ctr) == seq_after_dispatch(*old(seq_ctr), old(self).op, old(ht)@),
            final(self).op == slot_op_after_dispatch(old(self).op, old(ht)@),
            final(self).seq_no == old(self).seq_no,
            final(self).has_work == old(self).has_work,
            final(self).has_result == (old(self).has_result || old(self).op is Read),
            action_matches(a, old(self).op, old(ht)@),
    {
        match self.op {
            Operation::Insert(k, v) => {
                ht.insert(k, v);
                bump_seq(seq_ctr);
                self.op = Operation::Empty;
                ServerAction::Done
            }
            Operation::Delete(k) => {
                ht.delete(k);
                bump_seq(seq_ctr);
                self.op = Operation::Empty;
                ServerAction::Done
            }
            Operation::Read(k) => {
                match ht.read(k) {
                    Some(v) => {
                        self.op = Operation::Value(v);
                    }
                    None => {
                        self.op = Operation::Fail;
                    }
                }
                self.has_result = true;
                bump_seq(seq_ctr);
                ServerAction::Replied
            }
            Operation::Print(i) => {
                let entries = ht.bucket_entries(i);
                match &entries {
                    Some(_) => {
                        bump_seq(seq_ctr);
                    }
                    None => {}
                }
                self.op = Operation::Empty;
                ServerAction::Output(entries)
            }
            Operation::Quit => ServerAction::Quit,
            _ => {
                self.op = Operation::Empty;
                ServerAction::Done
            }
        }
    }
}

/// The slot-array transport: one message slot per client/worker pair, bound
/// by index. Each side touches only its own slot, so distinct indices never
/// contend.
pub struct MessageField {
    slots: Vec<OperationSlot>,
}

impl View for MessageField {
    type V = Seq<OperationSlot>;

    closed spec fn view(&self) -> Seq<OperationSlot> {
        self.slots@
    }
}

impl MessageField {
    /// Exactly `THREAD_NUM` slots, each respecting the flag invariant.
    pub open spec fn wf(&self) -> bool {
        &&& self@.len() == THREAD_NUM
        &&& forall|i: int| 0 <= i < self@.len() ==> slot_wf(#[trigger] self@[i])
    }

    /// The field as the server initializes it: every slot idle and empty,
    /// sequence numbers zeroed.
    pub fn new() -> (f: Self)
        ensures
            f.wf(),
            forall|i: int|
                0 <= i < THREAD_NUM ==> #[trigger] f@[i] == (OperationSlot {
                    op: Operation::Empty,
                    seq_no: 0,
                    has_work: false,
                    has_result: false,
                }),
    {
        let mut slots: Vec<OperationSlot> = Vec::new();
        let mut n: usize = 0;
        while n < THREAD_NUM
            invariant
                n <= THREAD_NUM,
                slots@.len() == n,
                forall|i: int|
                    0 <= i < n ==> #[trigger] slots@[i] == (OperationSlot {
                        op: Operation::Empty,
                        seq_no: 0,
                        has_work: false,
                        has_result: false,
                    }),
            decreases THREAD_NUM - n,
        {
            slots.push(OperationSlot {
                op: Operation::Empty,
                seq_no: 0,
                has_work: false,
                has_result: false,
            });
            n = n + 1;
        }
        MessageField { slots }
    }

    /// One client attempt to hand a request to the worker of the same id,
    /// under the slot's mutex: an idle slot takes the operation and the
    /// caller's sequence number; a busy slot refuses, and the caller spins.
    /// Producers never submit the `Empty` sentinel.
    pub fn put_work(&mut self, op: Operation, seq_no: usize, id: usize) -> (accepted: bool)
        requires
            old(self).wf(),
            id < THREAD_NUM,
            op != Operation::Empty,
        ensures
            final(self).wf(),
            accepted == slot_idle(old(self)@[id as int]),
            accepted ==> final(self)@ == old(self)@.update(
                id as int,
                slot_after_put(old(self)@[id as int], op, seq_no),
            ),
            !accepted ==> final(self)@ == old(self)@,
    {
        let slot = &mut self.slots[id];
        let accepted = slot.try_put(op, seq_no);
        proof {
            if !accepted {
                assert(final(self)@ =~= old(self)@);
            }
        }
        accepted
    }

    /// One client attempt to collect the response from its slot, under the
    /// slot's mutex: a completed slot yields its payload and returns to
    /// idle; otherwise nothing changes and the caller spins.
    pub fn pick_up_result(&mut self, id: usize) -> (r: Option<Operation>)
        requires
            old(self).wf(),
            id < THREAD_NUM,
        ensures
            final(self).wf(),
            ({
                let s = old(self)@[id as int];
                if s.has_result {
                    r == Some(s.op) && final(self)@ == old(self)@.update(
                        id as int,
                        slot_after_pick_up(s),
                    )
                } else {
                    r is None && final(self)@ == old(self)@
                }
            }),
    {
        let slot = &mut self.slots[id];
        let r = slot.try_take_result();
        proof {
            if !old(self)@[id as int].has_result {
                assert(final(self)@ =~= old(self)@);
            }
        }
        r
    }

    /// One server attempt to dispatch the slot of the worker's own id, under
    /// the slot's mutex: work is performed only when the slot is pending and
    /// its stamp equals the observed sequence counter. A dispatched request
    /// clears the work flag; a `Quit` leaves the slot untouched and tells
    /// the caller to exit; anything else leaves every state unchanged.
    pub fn get_work(&mut self, ht: &mut HashTable, seq_ctr: &mut usize, id: usize) -> (a:
        ServerAction)
        requires
            old(self).wf(),
            old(ht).wf(),
            id < THREAD_NUM,
        ensures
            final(self).wf(),
            final(ht).wf(),
            ({
                let s = old(self)@[id as int];
                if slot_eligible(s, *old(seq_ctr)) {
                    if s.op is Quit {
                        &&& a == ServerAction::Quit
                        &&& final(self)@ == old(self)@
                        &&& final(ht)@ == old(ht)@
                        &&& *final(seq_ctr) == *old(seq_ctr)
                    } else {
                        &&& final(ht)@ == table_after_dispatch(old(ht)@, s.op)
                        &&& *final(seq_ctr) == seq_after_dispatch(*old(seq_ctr), s.op, old(ht)@)
                        &&& final(self)@ == old(self)@.update(
                            id as int,
                            slot_after_dispatch(s, old(ht)@),
                        )
                        &&& action_matches(a, s.op, old(ht)@)
                    }
                } else {
                    &&& a == ServerAction::Idle
                    &&& final(self)@ == old(self)@
                    &&& final(ht)@ == old(ht)@
                    &&& *final(seq_ctr) == *old(seq_ctr)
                }
            }),
    {
        let slot = &mut self.slots[id];
        let a = slot.try_dispatch(ht, seq_ctr);
        proof {
            let s = old(self)@[id as int];
            if !slot_eligible(s, *old(seq_ctr)) || s.op is Quit {
                assert(final(self)@ =~= old(self)@);
            }
        }
        a
    }
}

/// Slot exclusivity law: an idle slot accepts exactly one `put_work` — the
/// claimed slot refuses any further put, so of two producers racing on one
/// slot at most one's work is ever pending — and it becomes free again only
/// once the work is consumed: immediately for a fire-and-forget dispatch,
/// and only after the response is picked up for a `Read`.
pub proof fn lemma_slot_exclusivity(s: OperationSlot, op: Operation, seq_no: usize, t: Seq<Bucket>)
    requires
        slot_idle(s),
    ensures
        !slot_idle(slot_after_put(s, op, seq_no)),
        !(op is Read) && !(op is Quit) ==> slot_idle(
            slot_after_dispatch(slot_after_put(s, op, seq_no), t),
        ),
        op is Read ==> {
            let served = slot_after_dispatch(slot_after_put(s, op, seq_no), t);
            !slot_idle(served) && slot_idle(slot_after_pick_up(served))
        },
{
}

} // verus!
