use vstd::prelude::*;
use crate::ops::Operation;
use crate::table::{Bucket, HashTable, table_after_dispatch, table_lookup};

verus! {

/// The most workers a `ThreadStart` request may ask the pool to grow to.
pub const MAX_WORKERS: usize = 16;

/// What one ring worker does after dispatching one request, and how the
/// worker's state machine moves: it keeps running on everything but
/// `ThreadStop`, which retires just this worker, and `Quit`, which ends the
/// whole server process.
#[derive(Debug)]
pub enum WorkerVerdict {
    /// Keep running; nothing to send back.
    Continue,
    /// Send this response on the reply queue, then keep running.
    Reply(Operation),
    /// A `Print`: the bucket's pairs to emit, or `None` when the index is
    /// out of range; then keep running.
    Output(Option<Vec<(usize, usize)>>),
    /// This worker retires from the pool.
    Stop,
    /// The server process exits.
    Exit,
}

/// The recorded worker-pool size after one dispatch: only `ThreadStart`
/// changes it, clamped at `MAX_WORKERS`.
pub open spec fn pool_after_dispatch(p: usize, op: Operation) -> usize {
    match op {
        Operation::ThreadStart(n) => if n < MAX_WORKERS {
            n
        } else {
            MAX_WORKERS
        },
        _ => p,
    }
}

/// What the verdict of dispatching `op` against table contents `t` must be.
pub open spec fn verdict_matches(v: WorkerVerdict, op: Operation, t: Seq<Bucket>) -> bool {
    match op {
        Operation::Read(k) => v == WorkerVerdict::Reply(
            match table_lookup(t, k) {
                Some(x) => Operation::Value(x),
                None => Operation::Fail,
            },
        ),
        Operation::Print(i) => match v {
            WorkerVerdict::Output(e) => match e {
                Some(entries) => i < t.len() && entries@ == t[i as int],
                None => i >= t.len(),
            },
            _ => false,
        },
        Operation::Quit => v == WorkerVerdict::Exit,
        Operation::ThreadStop => v == WorkerVerdict::Stop,
        _ => v == WorkerVerdict::Continue,
    }
}

/// One dispatch step of a ring worker: the request just dequeued is applied
/// to the table, a `Read` yields the response to enqueue on the reply queue,
/// the admin requests reshape the pool or end the worker or the process, and
/// anything unexpected is ignored. The caller loops until the verdict is
/// `Stop` or `Exit`.
pub fn dispatch_ring(op: Operation, ht: &mut HashTable, pool_size: &mut usize) -> (v:
    WorkerVerdict)
    requires
        old(ht).wf(),
    ensures
        final(ht).wf(),
        final(ht)@ == table_after_dispatch(old(ht)@, op),
        *final(pool_size) == pool_after_dispatch(*old(pool_size), op),
        verdict_matches(v, op, old(ht)@),
{
    match op {
        Operation::Insert(k, value) => {
            ht.insert(k, value);
            WorkerVerdict::Continue
        }
        Operation::Delete(k) => {
            ht.delete(k);
            WorkerVerdict::Continue
        }
        Operation::Read(k) => match ht.read(k) {
            Some(x) => WorkerVerdict::Reply(Operation::Value(x)),
            None => WorkerVerdict::Reply(Operation::Fail),
        },
        Operation::Print(i) => WorkerVerdict::Output(ht.bucket_entries(i)),
        Operation::Quit => WorkerVerdict::Exit,
        Operation::ThreadStop => WorkerVerdict::Stop,
        Operation::ThreadStart(n) => {
            *pool_size = if n < MAX_WORKERS {
                n
            } else {
                MAX_WORKERS
            };
            WorkerVerdict::Continue
        }
        _ => WorkerVerdict::Continue,
    }
}

} // verus!
