//! The scheduling core of a fixed-size worker pool.
//!
//! The pool is a deterministic state machine: a FIFO dispatch queue of
//! messages, a fixed set of workers that each poll the queue and react to what
//! they receive, and a submission and teardown protocol around them. A driver
//! that owns real threads steps the machine under a lock; every rule about who
//! gets which task, in what order, and when a worker stops is decided and
//! proved here.

pub mod laws;
pub mod message;
pub mod pool;
pub mod protocol;
pub mod queue;
pub mod tally;
pub mod worker;
