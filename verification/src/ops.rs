use vstd::prelude::*;

verus! {

/// The tagged request/response value exchanged through the transport.
///
/// `Empty` is the reserved sentinel meaning "no message here": it marks a
/// free ring slot (or an idle message slot) and is never submitted as a
/// payload by a producer.
#[derive(Debug, Clone, Copy, PartialEq, Eq, Structural)]
pub enum Operation {
    /// Sentinel for a free slot; never a payload.
    Empty,
    /// Request: insert a (key, value) pair.
    Insert(usize, usize),
    /// Request: look the key up.
    Read(usize),
    /// Response: positive answer to `Read`, carrying the value.
    Value(usize),
    /// Response: negative answer to `Read`, the key is absent.
    Fail,
    /// Request: remove every pair with this key.
    Delete(usize),
    /// Request: emit the bucket at this index.
    Print(usize),
    /// Admin request: resize the worker pool to the given count.
    ThreadStart(usize),
    /// Admin request: retire one worker.
    ThreadStop,
    /// Admin request: terminate the server process.
    Quit,
}

/// How a response to a `Read` request relates to the value the client expects.
#[derive(Debug, Clone, Copy, PartialEq, Eq, Structural)]
pub enum ReadCheck {
    /// `Value` carrying exactly the expected value.
    Correct,
    /// `Value` carrying some other value.
    WrongValue,
    /// `Fail`: the key is absent.
    Missing,
    /// Anything that is not a response at all.
    Protocol,
}

pub open spec fn spec_check_read(resp: Operation, expected: usize) -> ReadCheck {
    match resp {
        Operation::Value(v) => if v == expected {
            ReadCheck::Correct
        } else {
            ReadCheck::WrongValue
        },
        Operation::Fail => ReadCheck::Missing,
        _ => ReadCheck::Protocol,
    }
}

/// Classify the response to a `Read` of a key whose value is expected to be
/// `expected`: the verdict the client draws after an insert of that pair.
pub fn check_read_response(resp: &Operation, expected: usize) -> (c: ReadCheck)
    ensures
        c == spec_check_read(*resp, expected),
{
    match *resp {
        Operation::Value(v) => if v == expected {
            ReadCheck::Correct
        } else {
            ReadCheck::WrongValue
        },
        Operation::Fail => ReadCheck::Missing,
        _ => ReadCheck::Protocol,
    }
}

pub open spec fn spec_check_deleted(resp: Operation, deleted: usize) -> ReadCheck {
    match resp {
        Operation::Value(v) => if v == deleted {
            ReadCheck::WrongValue
        } else {
            ReadCheck::Correct
        },
        Operation::Fail => ReadCheck::Correct,
        _ => ReadCheck::Protocol,
    }
}

/// Classify the response to a `Read` of a key that was just deleted with old
/// value `deleted`: seeing that value again means the delete was lost.
pub fn check_deleted_response(resp: &Operation, deleted: usize) -> (c: ReadCheck)
    ensures
        c == spec_check_deleted(*resp, deleted),
{
    match *resp {
        Operation::Value(v) => if v == deleted {
            ReadCheck::WrongValue
        } else {
            ReadCheck::Correct
        },
        Operation::Fail => ReadCheck::Correct,
        _ => ReadCheck::Protocol,
    }
}

} // verus!
