//! What travels through the dispatch queue.

use vstd::prelude::*;

verus! {

/// One item of the dispatch queue: a task to run, or the signal that tells
/// exactly one worker to stop. A message is consumed by the one worker that
/// receives it.
#[derive(Debug, PartialEq, Eq)]
pub enum Message<T> {
    /// A unit of work, handed over to whichever worker receives it.
    NewTask(T),
    /// The worker that receives this leaves its loop.
    Terminate,
}

} // verus!
