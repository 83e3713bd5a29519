//! Counting the workers that are in a given state.

use vstd::prelude::*;
use crate::worker::{Worker, WorkerState};

verus! {

/// How many of `workers` are in `state`.
pub open spec fn tally(workers: Seq<Worker>, state: WorkerState) -> nat
    decreases workers.len(),
{
    if workers.len() == 0 {
        0
    } else {
        tally(workers.drop_last(), state) + if workers.last().state == state {
            1nat
        } else {
            0nat
        }
    }
}

/// How many of `workers` will poll the queue again.
pub open spec fn live_count(workers: Seq<Worker>) -> nat {
    tally(workers, WorkerState::Idle) + tally(workers, WorkerState::Running)
}

/// Replacing one worker moves one unit from the count of its old state to the
/// count of its new state.
pub proof fn lemma_tally_update(workers: Seq<Worker>, i: int, w: Worker, state: WorkerState)
    requires
        0 <= i < workers.len(),
    ensures
        tally(workers.update(i, w), state) == tally(workers, state) - (if workers[i].state
            == state {
            1int
        } else {
            0int
        }) + (if w.state == state {
            1int
        } else {
            0int
        }),
    decreases workers.len(),
{
    let updated = workers.update(i, w);
    if i == workers.len() - 1 {
        assert(updated.drop_last() =~= workers.drop_last());
    } else {
        assert(updated.drop_last() =~= workers.drop_last().update(i, w));
        lemma_tally_update(workers.drop_last(), i, w, state);
    }
}

/// Every worker is in exactly one of the four states.
pub proof fn lemma_tally_partition(workers: Seq<Worker>)
    ensures
        tally(workers, WorkerState::Idle) + tally(workers, WorkerState::Running) + tally(
            workers,
            WorkerState::Exited,
        ) + tally(workers, WorkerState::Failed) == workers.len(),
    decreases workers.len(),
{
    if workers.len() > 0 {
        lemma_tally_partition(workers.drop_last());
    }
}

/// A worker in `state` is counted.
pub proof fn lemma_tally_counts(workers: Seq<Worker>, i: int, state: WorkerState)
    requires
        0 <= i < workers.len(),
        workers[i].state == state,
    ensures
        tally(workers, state) >= 1,
    decreases workers.len(),
{
    if i < workers.len() - 1 {
        lemma_tally_counts(workers.drop_last(), i, state);
    }
}

/// Where no worker is in `state`, the count is zero.
pub proof fn lemma_tally_none(workers: Seq<Worker>, state: WorkerState)
    requires
        forall|i: int| 0 <= i < workers.len() ==> (#[trigger] workers[i]).state != state,
    ensures
        tally(workers, state) == 0,
    decreases workers.len(),
{
    if workers.len() > 0 {
        lemma_tally_none(workers.drop_last(), state);
    }
}

/// Where the count equals the number of workers, every worker is in `state`.
pub proof fn lemma_tally_all(workers: Seq<Worker>, state: WorkerState)
    requires
        tally(workers, state) == workers.len(),
    ensures
        forall|i: int| 0 <= i < workers.len() ==> (#[trigger] workers[i]).state == state,
    decreases workers.len(),
{
    if workers.len() > 0 {
        lemma_tally_bound(workers.drop_last(), state);
        lemma_tally_all(workers.drop_last(), state);
        assert forall|i: int| 0 <= i < workers.len() implies (#[trigger] workers[i]).state
            == state by {
            if i < workers.len() - 1 {
                assert(workers.drop_last()[i] == workers[i]);
            }
        }
    }
}

/// No more workers are in `state` than there are workers.
pub proof fn lemma_tally_bound(workers: Seq<Worker>, state: WorkerState)
    ensures
        tally(workers, state) <= workers.len(),
    decreases workers.len(),
{
    if workers.len() > 0 {
        lemma_tally_bound(workers.drop_last(), state);
    }
}

/// A positive count has a witness.
pub proof fn lemma_tally_witness(workers: Seq<Worker>, state: WorkerState) -> (i: int)
    requires
        tally(workers, state) > 0,
    ensures
        0 <= i < workers.len(),
        workers[i].state == state,
    decreases workers.len(),
{
    if workers.last().state == state {
        workers.len() - 1
    } else {
        lemma_tally_witness(workers.drop_last(), state)
    }
}

} // verus!
