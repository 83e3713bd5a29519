//! What the protocol guarantees, stated over the state machine of
//! [`crate::protocol`] and proved from its invariant.

use vstd::prelude::*;
use crate::message::Message;
use crate::protocol::{
    lemma_fail_live, lemma_finish_live, lemma_init_inv, lemma_init_live, lemma_next_inv,
    lemma_receive_live, PoolView, Transition,
};
use crate::queue::Received;
use crate::tally::{
    lemma_tally_all, lemma_tally_none, lemma_tally_partition, lemma_tally_update,
    lemma_tally_witness, tally,
};
use crate::worker::{Worker, WorkerState};

verus! {

/// A pool built for `size` workers has exactly `size` workers, numbered from
/// zero, every one of them idle, unjoined and live; nothing is queued and
/// tasks are accepted.
pub proof fn law_fresh_pool<T>(size: nat)
    requires
        0 < size <= usize::MAX,
    ensures
        PoolView::<T>::init(size).inv(),
        PoolView::<T>::init(size).size() == size,
        PoolView::<T>::init(size).live() == size,
        PoolView::<T>::init(size).accepting(),
        PoolView::<T>::init(size).pending.len() == 0,
        forall|i: int|
            0 <= i < size ==> {
                &&& #[trigger] PoolView::<T>::init(size).is_idle(i)
                &&& PoolView::<T>::init(size).workers[i].id == i
                &&& !PoolView::<T>::init(size).workers[i].joined
            },
{
    lemma_init_inv::<T>(size);
    lemma_init_live::<T>(size);
}

/// The invariant holds after any sequence of steps that starts in a state
/// where it holds; in particular in every state that a fresh pool can reach.
pub proof fn law_invariant_holds_throughout<T>(s: PoolView<T>, steps: Seq<Transition<T>>)
    requires
        s.inv(),
        s.admits(steps),
    ensures
        s.run(steps).inv(),
    decreases steps.len(),
{
    if steps.len() > 0 {
        lemma_next_inv(s, steps[0]);
        law_invariant_holds_throughout(s.next(steps[0]), steps.skip(1));
    }
}

/// Every submitted task is in exactly one place. A task not yet dispatched
/// waits in the queue, at the place its submission order gives it, and no
/// worker holds it. A dispatched task has left the queue and either has run to
/// its end or is held by the one worker that received it, never both, and by
/// no other worker.
pub proof fn law_every_task_in_one_place<T>(s: PoolView<T>, k: int)
    requires
        s.inv(),
        0 <= k < s.submitted.len(),
    ensures
        k >= s.dispatched() ==> {
            &&& s.is_queued(k)
            &&& !s.is_completed(k)
            &&& forall|i: int| !s.is_held_by(k, i)
        },
        k < s.dispatched() ==> {
            &&& !s.is_queued(k)
            &&& s.is_completed(k) != s.is_held_by(k, s.owner[k] as int)
            &&& forall|i: int| i != s.owner[k] ==> !s.is_held_by(k, i)
        },
{
    if k >= s.dispatched() {
        assert(s.pending[k - s.owner.len()] == Message::NewTask(s.submitted[k]));
        assert forall|i: int| !s.is_held_by(k, i) by {
            if s.holds_task(i) {
                assert(s.workers[i].state is Running || s.workers[i].state is Failed);
            }
        }
    } else {
        let w: nat = s.owner[k];
        assert forall|i: int| i != s.owner[k] implies !s.is_held_by(k, i) by {
            if s.holds_task(i) {
                assert(s.workers[i].state is Running || s.workers[i].state is Failed);
            }
        }
        if s.holds_task(w as int) {
            assert(s.workers[w as int].state is Running || s.workers[w as int].state is Failed);
        }
    }
}

/// No step rewrites history: the tasks submitted and the tickets handed out
/// are only ever added to at the end, and a task that has run to its end
/// stays so. A ticket is therefore handed out once, to one worker.
pub proof fn law_history_only_grows<T>(s: PoolView<T>, step: Transition<T>)
    requires
        s.inv(),
        s.enabled(step),
    ensures
        s.submitted.is_prefix_of(s.next(step).submitted),
        s.owner.is_prefix_of(s.next(step).owner),
        s.completed.subset_of(s.next(step).completed),
{
}

/// Delivery is first in, first out. The queue holds the tasks not yet
/// dispatched in the order of their submission; a worker that polls a queue
/// with a task in it is handed the oldest of them, and the rest stay queued
/// in their order. So of two queued tasks the one submitted first is
/// dispatched first.
pub proof fn law_delivery_is_fifo<T>(s: PoolView<T>, i: int)
    requires
        s.inv(),
        s.is_idle(i),
        s.backlog() > 0,
    ensures
        s.poll() == Received::Message(Message::NewTask(s.submitted[s.dispatched() as int])),
        s.receive(i).dispatched() == s.dispatched() + 1,
        s.receive(i).is_held_by(s.dispatched() as int, i),
        s.receive(i).workers[i].state is Running,
        forall|k: int| s.dispatched() < k < s.submitted.len() ==> s.receive(i).is_queued(k),
{
    assert(s.pending[0] == Message::NewTask(s.submitted[s.owner.len() as int]));
    lemma_next_inv(s, Transition::Receive(i));
    let t = s.receive(i);
    assert forall|k: int| s.dispatched() < k < s.submitted.len() implies t.is_queued(k) by {
        assert(t.pending[k - t.owner.len()] == Message::NewTask(t.submitted[t.owner.len() + (k
            - t.owner.len())]));
    }
}

/// While a task waits in the queue and a worker is live, some worker can take
/// a step that brings the task closer to running: a running worker can end
/// its task, and an idle worker can take the oldest queued task.
pub proof fn law_queued_task_moves_on<T>(s: PoolView<T>) -> (i: int)
    requires
        s.inv(),
        s.backlog() > 0,
        s.live() > 0,
    ensures
        s.is_running(i) || (s.is_idle(i) && s.receive(i).dispatched() == s.dispatched() + 1),
{
    if tally(s.workers, WorkerState::Idle) > 0 {
        let i: int = lemma_tally_witness(s.workers, WorkerState::Idle);
        law_delivery_is_fifo(s, i);
        i
    } else {
        lemma_tally_witness(s.workers, WorkerState::Running)
    }
}

/// Every queued task can be brought to run while a worker is live. The
/// workers have a run of steps, each getting something done and none of them
/// a failure, that ends with the task dispatched and running on the one
/// worker that received it; every task submitted before it is dispatched on
/// the way, and nothing is submitted or lost.
pub proof fn law_queued_task_can_run<T>(s: PoolView<T>, k: int) -> (steps: Seq<Transition<T>>)
    requires
        s.inv(),
        s.is_queued(k),
        s.live() > 0,
    ensures
        s.admits(steps),
        s.all_progress(steps),
        s.run(steps).inv(),
        s.run(steps).submitted == s.submitted,
        s.run(steps).dispatched() == k + 1,
        s.run(steps).is_running(s.run(steps).owner[k] as int),
        s.run(steps).is_held_by(k, s.run(steps).owner[k] as int),
    decreases s.work_left(),
{
    let i: int = law_queued_task_moves_on(s);
    let step = if s.is_running(i) {
        Transition::Finish(i)
    } else {
        Transition::Receive(i)
    };
    let t = s.next(step);
    lemma_next_inv(s, step);
    law_worker_steps_run_out(s, step);
    if s.is_running(i) {
        lemma_finish_live(s, i);
    } else {
        law_delivery_is_fifo(s, i);
        lemma_receive_live(s, i);
    }
    if t.dispatched() == k + 1 {
        let steps = seq![step];
        assert(steps[0] == step);
        assert(steps.skip(1) =~= Seq::<Transition<T>>::empty());
        assert(t.admits(Seq::empty()));
        assert(t.all_progress(Seq::empty()));
        assert(t.run(Seq::empty()) == t);
        steps
    } else {
        let rest = law_queued_task_can_run(t, k);
        let steps = seq![step] + rest;
        assert(steps[0] == step);
        assert(steps.skip(1) =~= rest);
        steps
    }
}

/// Two idle workers and two queued tasks give two tasks running at the same
/// time: the second worker is handed the second task while the first worker
/// is still running the first.
pub proof fn law_two_tasks_run_at_once<T>(s: PoolView<T>, i: int, j: int)
    requires
        s.inv(),
        s.is_idle(i),
        s.is_idle(j),
        i != j,
        s.backlog() >= 2,
    ensures
        s.receive(i).is_idle(j),
        s.receive(i).receive(j).is_running(i),
        s.receive(i).receive(j).is_running(j),
        s.receive(i).receive(j).is_held_by(s.dispatched() as int, i),
        s.receive(i).receive(j).is_held_by(s.dispatched() as int + 1, j),
{
    law_delivery_is_fifo(s, i);
    lemma_next_inv(s, Transition::Receive(i));
    law_delivery_is_fifo(s.receive(i), j);
}

/// A worker exits only after every submitted task has been dispatched: the
/// terminate signals stand behind the tasks, and a queue that is empty and
/// disconnected holds no task.
pub proof fn law_exit_comes_after_every_task<T>(s: PoolView<T>, i: int)
    requires
        s.inv(),
        s.has_worker(i),
        s.workers[i].state is Exited,
    ensures
        s.dispatched() == s.submitted.len(),
        !(s.phase is Accepting),
{
}

/// A task that a worker has taken up is not cancelled: the worker keeps
/// running it, whatever else happens, until the task itself ends or fails.
pub proof fn law_running_task_is_not_cancelled<T>(s: PoolView<T>, i: int, step: Transition<T>)
    requires
        s.inv(),
        s.is_running(i),
        s.enabled(step),
        step != Transition::<T>::Finish(i),
        step != Transition::<T>::Fail(i),
    ensures
        s.next(step).is_running(i),
        s.next(step).tickets[i] == s.tickets[i],
{
}

/// Teardown drains the pool. Once every worker has exited, every task ever
/// submitted has been dispatched and has run to its end, and the queue is
/// empty of tasks.
pub proof fn law_teardown_drains<T>(s: PoolView<T>)
    requires
        s.inv(),
        s.all_exited(),
    ensures
        s.drained(),
        forall|j: int| 0 <= j < s.pending.len() ==> s.pending[j] is Terminate,
{
    assert(s.workers[0].state is Exited);
    assert forall|k: int| 0 <= k < s.submitted.len() implies s.is_completed(k) by {
        let w: nat = s.owner[k];
        assert(s.workers[w as int].state is Exited);
    }
}

/// A teardown that has joined every worker leaves none running; and if no
/// worker was brought down by a task, every worker has exited and the pool is
/// drained.
pub proof fn law_joined_pool_is_stopped<T>(s: PoolView<T>)
    requires
        s.inv(),
        forall|j: int| 0 <= j < s.size() ==> #[trigger] s.joins_cleanly(j),
    ensures
        forall|j: int| 0 <= j < s.size() ==> (#[trigger] s.workers[j]).state.is_terminated(),
        s.none_failed() ==> s.all_exited() && s.drained(),
{
    assert forall|j: int| 0 <= j < s.size() implies (#[trigger] s.workers[j]).state.is_terminated() by {
        assert(s.joins_cleanly(j));
        assert(s.workers[j].wf());
    }
    if s.none_failed() {
        law_teardown_drains(s);
    }
}

/// Teardown never stalls. While teardown is under way and a worker is live,
/// some worker can take a step that is not a futile poll: a running worker
/// can end its task, and an idle worker finds a message in the queue, because
/// a terminate signal waits there for every worker that has not exited.
pub proof fn law_teardown_never_stalls<T>(s: PoolView<T>) -> (i: int)
    requires
        s.inv(),
        s.phase is Draining,
        s.live() > 0,
    ensures
        s.is_running(i) || (s.is_idle(i) && s.pending.len() > 0),
{
    if tally(s.workers, WorkerState::Idle) > 0 {
        let i: int = lemma_tally_witness(s.workers, WorkerState::Idle);
        lemma_tally_partition(s.workers);
        i
    } else {
        lemma_tally_witness(s.workers, WorkerState::Running)
    }
}

/// The work runs out. Every step of a worker that gets something done
/// lowers `work_left`.
pub proof fn law_worker_steps_run_out<T>(s: PoolView<T>, step: Transition<T>)
    requires
        s.inv(),
        s.enabled(step),
        s.makes_progress(step),
    ensures
        s.next(step).work_left() < s.work_left(),
{
    match step {
        Transition::Receive(i) => {
            lemma_receive_live(s, i);
            lemma_tally_update(
                s.workers,
                i,
                Worker { state: Worker::state_after(s.poll()), ..s.workers[i] },
                WorkerState::Running,
            );
        },
        Transition::Finish(i) => {
            lemma_finish_live(s, i);
            lemma_tally_update(
                s.workers,
                i,
                Worker { state: WorkerState::Idle, ..s.workers[i] },
                WorkerState::Running,
            );
        },
        Transition::Fail(i) => {
            lemma_fail_live(s, i);
            lemma_tally_update(
                s.workers,
                i,
                Worker { state: WorkerState::Failed, ..s.workers[i] },
                WorkerState::Running,
            );
        },
        _ => {},
    }
}

/// However the workers are scheduled, they can take no more than `work_left`
/// steps that get something done before something new is submitted: no run
/// of such steps is longer.
pub proof fn law_worker_runs_are_bounded<T>(s: PoolView<T>, steps: Seq<Transition<T>>)
    requires
        s.inv(),
        s.admits(steps),
        s.all_progress(steps),
    ensures
        steps.len() + s.run(steps).work_left() <= s.work_left(),
    decreases steps.len(),
{
    if steps.len() > 0 {
        lemma_next_inv(s, steps[0]);
        law_worker_steps_run_out(s, steps[0]);
        law_worker_runs_are_bounded(s.next(steps[0]), steps.skip(1));
    }
}

/// Teardown can always be brought to its end. From any state in which
/// teardown is under way and no worker has been brought down, the workers
/// have a run of steps, each getting something done, after which every
/// worker has exited; by then every submitted task has run to its end.
pub proof fn law_teardown_can_finish<T>(s: PoolView<T>) -> (steps: Seq<Transition<T>>)
    requires
        s.inv(),
        s.phase is Draining,
        s.none_failed(),
    ensures
        s.admits(steps),
        s.all_progress(steps),
        s.run(steps).inv(),
        s.run(steps).all_exited(),
        s.run(steps).submitted == s.submitted,
        s.run(steps).drained(),
    decreases s.work_left(),
{
    if s.live() == 0 {
        lemma_tally_partition(s.workers);
        lemma_tally_none(s.workers, WorkerState::Failed);
        lemma_tally_all(s.workers, WorkerState::Exited);
        law_teardown_drains(s);
        Seq::empty()
    } else {
        let i: int = law_teardown_never_stalls(s);
        let step = if s.is_running(i) {
            Transition::Finish(i)
        } else {
            Transition::Receive(i)
        };
        let t = s.next(step);
        lemma_next_inv(s, step);
        law_worker_steps_run_out(s, step);
        assert(t.none_failed()) by {
            assert forall|j: int| 0 <= j < t.workers.len() implies !((
            #[trigger] t.workers[j]).state is Failed) by {
                assert(!(s.workers[j].state is Failed));
            }
        }
        let rest = law_teardown_can_finish(t);
        let steps = seq![step] + rest;
        assert(steps[0] == step);
        assert(steps.skip(1) =~= rest);
        steps
    }
}

/// Joining the workers from `from` up to `to` in index order is a run of the
/// protocol: one join step for each of them, each enabled.
pub proof fn law_joining_in_order_is_a_run<T>(s: PoolView<T>, from: int, to: int)
    requires
        0 <= from <= to <= s.size(),
    ensures
        s.admits(PoolView::<T>::joins(from, to)),
        s.run(PoolView::<T>::joins(from, to)) == s.join_range(from, to),
    decreases to - from,
{
    let steps = PoolView::<T>::joins(from, to);
    if from < to {
        assert(steps[0] == Transition::<T>::Join(from));
        assert(steps.skip(1) =~= PoolView::<T>::joins(from + 1, to));
        law_joining_in_order_is_a_run(s.join(from), from + 1, to);
        assert(s.join(from).join_range(from + 1, to) =~= s.join_range(from, to));
    } else {
        assert(s.join_range(from, to) =~= s);
    }
}

/// A failing task takes down the worker that ran it and nothing else. The
/// queue, the phase and every other worker are as they were, so each idle
/// sibling receives exactly what it would have received; the pool has one
/// live worker less.
pub proof fn law_failure_is_contained<T>(s: PoolView<T>, i: int)
    requires
        s.inv(),
        s.is_running(i),
    ensures
        s.fail(i).inv(),
        s.fail(i).workers[i].state is Failed,
        s.fail(i).live() == s.live() - 1,
        s.fail(i).pending == s.pending,
        s.fail(i).phase == s.phase,
        s.fail(i).poll() == s.poll(),
        forall|j: int|
            0 <= j < s.size() && j != i ==> #[trigger] s.fail(i).workers[j] == s.workers[j],
        forall|j: int| s.is_idle(j) ==> #[trigger] s.fail(i).is_idle(j),
        forall|j: int| s.is_running(j) && j != i ==> #[trigger] s.fail(i).is_running(j),
{
    lemma_next_inv(s, Transition::Fail(i));
    lemma_fail_live(s, i);
}

/// A worker that has terminated stays as it ended: no step makes it idle or
/// running again, so a worker brought down by a task is out of service for
/// good, and no step is enabled by which it would poll the queue.
pub proof fn law_terminated_is_final<T>(s: PoolView<T>, i: int, step: Transition<T>)
    requires
        s.inv(),
        s.has_worker(i),
        s.workers[i].state.is_terminated(),
        s.enabled(step),
    ensures
        s.next(step).workers[i].state == s.workers[i].state,
        !s.enabled(Transition::Receive(i)),
        !s.enabled(Transition::Finish(i)),
{
}

} // verus!
