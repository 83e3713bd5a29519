//! The pool as a state machine over mathematical values: its state, its
//! transitions, and the invariant that every transition keeps.
//!
//! Tasks are identified by their ticket, the position at which they were
//! submitted: ticket `k` is `submitted[k]`.

use vstd::prelude::*;
use crate::message::Message;
use crate::queue::Received;
use crate::tally::{
    lemma_tally_counts, lemma_tally_none, lemma_tally_update, live_count, tally,
};
use crate::worker::{Worker, WorkerState};

verus! {

/// Where the pool stands in its life.
#[derive(Clone, Copy, Debug, PartialEq, Eq)]
pub enum Phase {
    /// Tasks may be submitted.
    Accepting,
    /// Teardown has begun: one terminate signal per worker has been sent, and
    /// nothing more may be submitted.
    Draining,
    /// The producer end of the queue has been given up.
    Disconnected,
}

/// The mathematical state of a pool.
#[verifier::ext_equal]
pub struct PoolView<T> {
    /// The workers, by index.
    pub workers: Seq<Worker>,
    /// For each worker, the ticket of the task most recently handed to it.
    /// It says which task a `Running` worker runs and which one brought a
    /// `Failed` worker down.
    pub tickets: Seq<nat>,
    /// The messages sent and not yet received, oldest first.
    pub pending: Seq<Message<T>>,
    pub phase: Phase,
    /// Every task ever accepted, in the order of submission.
    pub submitted: Seq<T>,
    /// For each ticket handed out so far, the worker that received it.
    /// Tickets are handed out in order, so its length is the number of tasks
    /// dispatched.
    pub owner: Seq<nat>,
    /// The tickets of the tasks that have run to their end.
    pub completed: Set<nat>,
}

/// One step of the pool.
pub enum Transition<T> {
    /// A task is submitted.
    Submit(T),
    /// A worker polls the queue and reacts to what it finds.
    Receive(int),
    /// The task that a worker runs reaches its end.
    Finish(int),
    /// The task that a worker runs fails and takes the worker with it.
    Fail(int),
    /// Teardown begins.
    BeginTeardown,
    /// The producer end of the queue is given up.
    Disconnect,
    /// A worker is joined, if it has terminated.
    Join(int),
}

impl<T> PoolView<T> {
    /// A fresh pool of `size` idle workers with nothing queued.
    pub open spec fn init(size: nat) -> Self {
        PoolView {
            workers: Seq::new(
                size,
                |i: int| Worker { id: i as usize, state: WorkerState::Idle, joined: false },
            ),
            tickets: Seq::new(size, |i: int| 0nat),
            pending: Seq::empty(),
            phase: Phase::Accepting,
            submitted: Seq::empty(),
            owner: Seq::empty(),
            completed: Set::empty(),
        }
    }

    /// The number of workers.
    pub open spec fn size(self) -> nat {
        self.workers.len()
    }

    /// The number of tasks handed to workers so far.
    pub open spec fn dispatched(self) -> nat {
        self.owner.len()
    }

    /// The number of tasks submitted and not yet handed to a worker.
    pub open spec fn backlog(self) -> int {
        self.submitted.len() - self.owner.len()
    }

    /// The number of workers that will poll the queue again. The consumer end
    /// of the queue is held for as long as this is positive.
    pub open spec fn live(self) -> nat {
        live_count(self.workers)
    }

    /// Whether the pool takes submissions: teardown has not begun and the
    /// consumer end of the queue is still there.
    pub open spec fn accepting(self) -> bool {
        self.phase is Accepting && self.live() > 0
    }

    /// Whether `i` is the index of a worker.
    pub open spec fn has_worker(self, i: int) -> bool {
        0 <= i < self.workers.len()
    }

    /// Whether worker `i` waits on the queue.
    pub open spec fn is_idle(self, i: int) -> bool {
        self.has_worker(i) && self.workers[i].state is Idle
    }

    /// Whether worker `i` executes a task.
    pub open spec fn is_running(self, i: int) -> bool {
        self.has_worker(i) && self.workers[i].state is Running
    }

    /// Whether worker `i` holds a task: it runs one, or was brought down by one.
    pub open spec fn holds_task(self, i: int) -> bool {
        self.has_worker(i) && (self.workers[i].state is Running || self.workers[i].state is Failed)
    }

    /// Whether no worker has exited.
    pub open spec fn none_exited(self) -> bool {
        forall|i: int| 0 <= i < self.workers.len() ==> !((#[trigger] self.workers[i]).state is Exited)
    }

    /// Whether every worker has exited in good order.
    pub open spec fn all_exited(self) -> bool {
        forall|i: int| 0 <= i < self.workers.len() ==> (#[trigger] self.workers[i]).state is Exited
    }

    /// What a worker polling the queue receives.
    pub open spec fn poll(self) -> Received<T> {
        if self.pending.len() > 0 {
            Received::Message(self.pending[0])
        } else if self.phase is Disconnected {
            Received::Disconnected
        } else {
            Received::Empty
        }
    }

    /// The workers, with worker `i` moved to `state`.
    pub open spec fn with_worker_state(self, i: int, state: WorkerState) -> Seq<Worker> {
        self.workers.update(i, Worker { state, ..self.workers[i] })
    }

    /// `task` joins the end of the queue.
    pub open spec fn submit(self, task: T) -> Self {
        PoolView {
            pending: self.pending.push(Message::NewTask(task)),
            submitted: self.submitted.push(task),
            ..self
        }
    }

    /// Worker `i` polls the queue and reacts: the oldest pending message, if
    /// there is one, leaves the queue; a task among them gets the next
    /// ticket and is handed to the worker.
    pub open spec fn receive(self, i: int) -> Self {
        let received = self.poll();
        let workers = self.with_worker_state(i, Worker::state_after(received));
        match received {
            Received::Message(Message::NewTask(_)) => PoolView {
                workers,
                tickets: self.tickets.update(i, self.owner.len()),
                pending: self.pending.skip(1),
                owner: self.owner.push(i as nat),
                ..self
            },
            Received::Message(Message::Terminate) => PoolView {
                workers,
                pending: self.pending.skip(1),
                ..self
            },
            _ => PoolView { workers, ..self },
        }
    }

    /// The task that worker `i` runs reaches its end.
    pub open spec fn finish(self, i: int) -> Self {
        PoolView {
            workers: self.with_worker_state(i, WorkerState::Idle),
            completed: self.completed.insert(self.tickets[i]),
            ..self
        }
    }

    /// The task that worker `i` runs fails.
    pub open spec fn fail(self, i: int) -> Self {
        PoolView { workers: self.with_worker_state(i, WorkerState::Failed), ..self }
    }

    /// One terminate signal per worker joins the end of the queue.
    pub open spec fn begin_teardown(self) -> Self {
        PoolView {
            pending: self.pending + Seq::new(self.workers.len(), |j: int| Message::<T>::Terminate),
            phase: Phase::Draining,
            ..self
        }
    }

    /// The producer end of the queue is given up.
    pub open spec fn disconnect(self) -> Self {
        PoolView { phase: Phase::Disconnected, ..self }
    }

    /// Worker `i` is joined if it has terminated and has not been joined yet.
    pub open spec fn join(self, i: int) -> Self {
        PoolView {
            workers: self.workers.update(
                i,
                Worker {
                    joined: self.workers[i].joined || self.workers[i].state.is_terminated(),
                    ..self.workers[i]
                },
            ),
            ..self
        }
    }

    /// Whether joining worker `i` finds nothing in the way: its handle is
    /// already consumed, or it has exited in good order.
    pub open spec fn joins_cleanly(self, i: int) -> bool {
        self.workers[i].joined || self.workers[i].state is Exited
    }

    /// The state after each of the workers from `from` up to, but not
    /// including, `to` has been joined.
    pub open spec fn join_range(self, from: int, to: int) -> Self {
        PoolView {
            workers: Seq::new(
                self.workers.len(),
                |i: int|
                    if from <= i < to {
                        Worker {
                            joined: self.workers[i].joined || self.workers[i].state.is_terminated(),
                            ..self.workers[i]
                        }
                    } else {
                        self.workers[i]
                    },
            ),
            ..self
        }
    }

    /// The state after each of the first `n` workers has been joined.
    pub open spec fn join_first(self, n: int) -> Self {
        self.join_range(0, n)
    }

    /// The steps that join the workers from `from` up to, but not including,
    /// `to`, in index order.
    pub open spec fn joins(from: int, to: int) -> Seq<Transition<T>> {
        Seq::new((to - from) as nat, |j: int| Transition::Join(from + j))
    }

    /// Whether every submitted task has been dispatched and has run to its
    /// end.
    pub open spec fn drained(self) -> bool {
        &&& self.dispatched() == self.submitted.len()
        &&& forall|k: int| 0 <= k < self.submitted.len() ==> self.is_completed(k)
    }

    /// Whether `step` may be taken.
    pub open spec fn enabled(self, step: Transition<T>) -> bool {
        match step {
            Transition::Submit(_) => self.accepting(),
            Transition::Receive(i) => self.is_idle(i),
            Transition::Finish(i) => self.is_running(i),
            Transition::Fail(i) => self.is_running(i),
            Transition::BeginTeardown => self.accepting(),
            Transition::Disconnect => true,
            Transition::Join(i) => self.has_worker(i),
        }
    }

    /// The state after `step`.
    pub open spec fn next(self, step: Transition<T>) -> Self {
        match step {
            Transition::Submit(task) => self.submit(task),
            Transition::Receive(i) => self.receive(i),
            Transition::Finish(i) => self.finish(i),
            Transition::Fail(i) => self.fail(i),
            Transition::BeginTeardown => self.begin_teardown(),
            Transition::Disconnect => self.disconnect(),
            Transition::Join(i) => self.join(i),
        }
    }

    /// Whether the steps can be taken one after the other, starting here.
    pub open spec fn admits(self, steps: Seq<Transition<T>>) -> bool
        decreases steps.len(),
    {
        steps.len() > 0 ==> self.enabled(steps[0]) && self.next(steps[0]).admits(steps.skip(1))
    }

    /// The state after the steps have been taken one after the other.
    pub open spec fn run(self, steps: Seq<Transition<T>>) -> Self
        decreases steps.len(),
    {
        if steps.len() == 0 {
            self
        } else {
            self.next(steps[0]).run(steps.skip(1))
        }
    }

    /// Whether `step` is a step of a worker that gets something done: a task
    /// taken up, ended or failed, or an exit; everything but a poll that
    /// finds an empty queue with its producer still there.
    pub open spec fn makes_progress(self, step: Transition<T>) -> bool {
        match step {
            Transition::Receive(_) => !(self.poll() is Empty),
            Transition::Finish(_) => true,
            Transition::Fail(_) => true,
            _ => false,
        }
    }

    /// Whether each of the steps, taken one after the other from here, is a
    /// step of a worker that gets something done.
    pub open spec fn all_progress(self, steps: Seq<Transition<T>>) -> bool
        decreases steps.len(),
    {
        steps.len() > 0 ==> self.makes_progress(steps[0]) && self.next(steps[0]).all_progress(
            steps.skip(1),
        )
    }

    /// Whether no worker has been brought down by a task.
    pub open spec fn none_failed(self) -> bool {
        forall|i: int| 0 <= i < self.workers.len() ==> !((#[trigger] self.workers[i]).state is Failed)
    }

    /// Whether ticket `k` waits in the queue, at the place that its
    /// submission order gives it.
    pub open spec fn is_queued(self, k: int) -> bool {
        &&& self.owner.len() <= k < self.submitted.len()
        &&& k - self.owner.len() < self.pending.len()
        &&& self.pending[k - self.owner.len()] == Message::NewTask(self.submitted[k])
    }

    /// Whether worker `i` holds ticket `k`: it runs that task, or was brought
    /// down by it.
    pub open spec fn is_held_by(self, k: int, i: int) -> bool {
        self.holds_task(i) && self.tickets[i] == k
    }

    /// Whether the task with ticket `k` has run to its end.
    pub open spec fn is_completed(self, k: int) -> bool {
        k >= 0 && self.completed.contains(k as nat)
    }

    /// An upper bound on the worker steps that are still to come: each pending
    /// message can be received and, if it is a task, finished, and each live
    /// worker can end.
    pub open spec fn work_left(self) -> nat {
        2 * self.pending.len() + tally(self.workers, WorkerState::Running) + self.live()
    }

    /// The workers are numbered by their index, and a handle is only consumed
    /// after its worker has terminated.
    pub open spec fn workers_wf(self) -> bool {
        &&& self.workers.len() > 0
        &&& self.tickets.len() == self.workers.len()
        &&& forall|i: int|
            0 <= i < self.workers.len() ==> {
                &&& (#[trigger] self.workers[i]).id == i
                &&& self.workers[i].wf()
            }
    }

    /// The queue holds exactly the tasks not yet dispatched, in the order of
    /// their submission, and behind them nothing but terminate signals.
    pub open spec fn queue_in_order(self) -> bool {
        &&& 0 <= self.backlog() <= self.pending.len()
        &&& forall|j: int|
            0 <= j < self.pending.len() ==> #[trigger] self.pending[j] == if j < self.backlog() {
                Message::NewTask(self.submitted[self.owner.len() + j])
            } else {
                Message::Terminate
            }
    }

    /// Every ticket handed out is accounted for: its task has run to its end,
    /// or the worker that received it still holds it.
    pub open spec fn tickets_accounted(self) -> bool {
        &&& forall|k: int|
            0 <= k < self.owner.len() ==> {
                &&& (#[trigger] self.owner[k]) < self.workers.len()
                &&& self.is_completed(k) || self.is_held_by(k, self.owner[k] as int)
            }
        &&& forall|k: nat| #[trigger] self.completed.contains(k) ==> k < self.owner.len()
        &&& forall|i: int|
            0 <= i < self.workers.len() && ((#[trigger] self.workers[i]).state is Running
                || self.workers[i].state is Failed) ==> {
                &&& self.tickets[i] < self.owner.len()
                &&& self.owner[self.tickets[i] as int] == i
                &&& !self.completed.contains(self.tickets[i])
            }
    }

    /// A worker exits only once no task is left in the queue; while tasks are
    /// accepted no terminate signal is in the queue; and during teardown every
    /// worker has exited or has its terminate signal still waiting.
    pub open spec fn exits_in_order(self) -> bool {
        &&& self.backlog() > 0 ==> self.none_exited()
        &&& self.phase is Accepting ==> self.none_exited() && self.pending.len() == self.backlog()
        &&& self.phase is Draining ==> self.pending.len() - self.backlog() + tally(
            self.workers,
            WorkerState::Exited,
        ) == self.workers.len()
    }

    /// What holds of every state the pool can reach.
    pub open spec fn inv(self) -> bool {
        &&& self.workers_wf()
        &&& self.queue_in_order()
        &&& self.tickets_accounted()
        &&& self.exits_in_order()
    }
}

/// A fresh pool satisfies the invariant.
pub proof fn lemma_init_inv<T>(size: nat)
    requires
        0 < size <= usize::MAX,
    ensures
        PoolView::<T>::init(size).inv(),
{
}

/// In a fresh pool every worker is live.
pub proof fn lemma_init_live<T>(size: nat)
    ensures
        PoolView::<T>::init(size).live() == size,
    decreases size,
{
    let workers = PoolView::<T>::init(size).workers;
    if size > 0 {
        lemma_init_live::<T>((size - 1) as nat);
        assert(workers.drop_last() =~= PoolView::<T>::init((size - 1) as nat).workers);
    }
}

/// A worker that polls the queue stays live unless what it receives ends it.
pub proof fn lemma_receive_live<T>(s: PoolView<T>, i: int)
    requires
        s.is_idle(i),
    ensures
        s.live() >= 1,
        s.receive(i).live() == s.live() - if Worker::state_after(s.poll()) is Exited {
            1int
        } else {
            0int
        },
{
    let w = Worker { state: Worker::state_after(s.poll()), ..s.workers[i] };
    lemma_tally_counts(s.workers, i, WorkerState::Idle);
    lemma_tally_update(s.workers, i, w, WorkerState::Idle);
    lemma_tally_update(s.workers, i, w, WorkerState::Running);
}

/// A worker that finishes its task stays live.
pub proof fn lemma_finish_live<T>(s: PoolView<T>, i: int)
    requires
        s.is_running(i),
    ensures
        s.finish(i).live() == s.live(),
{
    let w = Worker { state: WorkerState::Idle, ..s.workers[i] };
    lemma_tally_update(s.workers, i, w, WorkerState::Idle);
    lemma_tally_update(s.workers, i, w, WorkerState::Running);
}

/// A worker whose task fails is live no more.
pub proof fn lemma_fail_live<T>(s: PoolView<T>, i: int)
    requires
        s.is_running(i),
    ensures
        s.live() >= 1,
        s.fail(i).live() == s.live() - 1,
{
    let w = Worker { state: WorkerState::Failed, ..s.workers[i] };
    lemma_tally_counts(s.workers, i, WorkerState::Running);
    lemma_tally_update(s.workers, i, w, WorkerState::Idle);
    lemma_tally_update(s.workers, i, w, WorkerState::Running);
}

/// Joining a worker does not change who is live.
pub proof fn lemma_join_live<T>(s: PoolView<T>, i: int)
    requires
        s.has_worker(i),
    ensures
        s.join(i).live() == s.live(),
{
    let w = Worker {
        joined: s.workers[i].joined || s.workers[i].state.is_terminated(),
        ..s.workers[i]
    };
    lemma_tally_update(s.workers, i, w, WorkerState::Idle);
    lemma_tally_update(s.workers, i, w, WorkerState::Running);
}

/// Submitting a task keeps the invariant.
pub proof fn lemma_submit_inv<T>(s: PoolView<T>, task: T)
    requires
        s.inv(),
        s.accepting(),
    ensures
        s.submit(task).inv(),
{
}

/// A worker's poll of the queue keeps the invariant.
pub proof fn lemma_receive_inv<T>(s: PoolView<T>, i: int)
    requires
        s.inv(),
        s.is_idle(i),
    ensures
        s.receive(i).inv(),
{
    lemma_tally_update(
        s.workers,
        i,
        Worker { state: Worker::state_after(s.poll()), ..s.workers[i] },
        WorkerState::Exited,
    );
}

/// The end of a task keeps the invariant.
pub proof fn lemma_finish_inv<T>(s: PoolView<T>, i: int)
    requires
        s.inv(),
        s.is_running(i),
    ensures
        s.finish(i).inv(),
{
    lemma_tally_update(
        s.workers,
        i,
        Worker { state: WorkerState::Idle, ..s.workers[i] },
        WorkerState::Exited,
    );
}

/// The failure of a task keeps the invariant.
pub proof fn lemma_fail_inv<T>(s: PoolView<T>, i: int)
    requires
        s.inv(),
        s.is_running(i),
    ensures
        s.fail(i).inv(),
{
    lemma_tally_update(
        s.workers,
        i,
        Worker { state: WorkerState::Failed, ..s.workers[i] },
        WorkerState::Exited,
    );
}

/// The beginning of teardown keeps the invariant.
pub proof fn lemma_begin_teardown_inv<T>(s: PoolView<T>)
    requires
        s.inv(),
        s.accepting(),
    ensures
        s.begin_teardown().inv(),
{
    lemma_tally_none(s.workers, WorkerState::Exited);
}

/// Giving up the producer end keeps the invariant.
pub proof fn lemma_disconnect_inv<T>(s: PoolView<T>)
    requires
        s.inv(),
    ensures
        s.disconnect().inv(),
{
}

/// Joining a worker keeps the invariant.
pub proof fn lemma_join_inv<T>(s: PoolView<T>, i: int)
    requires
        s.inv(),
        s.has_worker(i),
    ensures
        s.join(i).inv(),
{
    lemma_tally_update(
        s.workers,
        i,
        Worker {
            joined: s.workers[i].joined || s.workers[i].state.is_terminated(),
            ..s.workers[i]
        },
        WorkerState::Exited,
    );
}

/// Every enabled step keeps the invariant.
pub proof fn lemma_next_inv<T>(s: PoolView<T>, step: Transition<T>)
    requires
        s.inv(),
        s.enabled(step),
    ensures
        s.next(step).inv(),
{
    match step {
        Transition::Submit(task) => lemma_submit_inv(s, task),
        Transition::Receive(i) => lemma_receive_inv(s, i),
        Transition::Finish(i) => lemma_finish_inv(s, i),
        Transition::Fail(i) => lemma_fail_inv(s, i),
        Transition::BeginTeardown => lemma_begin_teardown_inv(s),
        Transition::Disconnect => lemma_disconnect_inv(s),
        Transition::Join(i) => lemma_join_inv(s, i),
    }
}

} // verus!
