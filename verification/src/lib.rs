//! The core of a two-process key–value service that talks over a fixed
//! region of shared memory: the transport structures — a bounded ring-buffer
//! queue and a fixed per-thread slot array — their coordination protocols,
//! and the chained hash table the server runs the requests against. The
//! operating-system glue around them (the shared mapping, the process-shared
//! mutexes, the spinning and blocking) lives with the caller; every decision
//! those loops take is a function here, with its contract.

pub mod dispatch;
pub mod ops;
pub mod parse;
pub mod ring;
pub mod slots;
pub mod table;
