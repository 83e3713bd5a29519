//! The pool: a fixed set of workers around one dispatch queue.
//!
//! The pool holds no thread and runs no task. It is stepped from outside: a
//! submitter calls [`ThreadPool::execute`], each worker thread calls
//! [`ThreadPool::receive`] and does what the returned action says, and
//! teardown is [`ThreadPool::begin_teardown`] followed by
//! [`ThreadPool::join_all`]. Every call is one or more transitions of the
//! state machine in [`crate::protocol`].

use vstd::prelude::*;
use crate::laws::law_joined_pool_is_stopped;
use crate::message::Message;
use crate::protocol::{
    lemma_begin_teardown_inv, lemma_disconnect_inv, lemma_fail_inv, lemma_fail_live,
    lemma_finish_inv, lemma_finish_live, lemma_init_inv, lemma_init_live, lemma_join_inv,
    lemma_join_live, lemma_submit_inv, lemma_receive_inv, lemma_receive_live, Phase, PoolView,
};
use crate::queue::DispatchQueue;
use crate::tally::lemma_tally_none;
use crate::worker::{Action, JoinOutcome, Worker, WorkerState};

verus! {

/// How far a teardown has come in joining the workers.
#[derive(Clone, Copy, Debug, PartialEq, Eq)]
pub enum JoinProgress {
    /// Every handle is consumed; no worker is left running.
    Complete,
    /// This worker is still alive; everything before it is joined.
    Blocked(usize),
    /// This worker had been brought down by a failing task. Its handle is
    /// consumed, everything before it is joined, and nothing after it has
    /// been touched.
    Panicked(usize),
}

/// A pool of a fixed number of workers that take tasks of type `T` from one
/// FIFO queue.
pub struct ThreadPool<T> {
    workers: Vec<Worker>,
    queue: DispatchQueue<T>,
    phase: Phase,
    model: Ghost<PoolView<T>>,
}

impl<T> View for ThreadPool<T> {
    type V = PoolView<T>;

    closed spec fn view(&self) -> PoolView<T> {
        self.model@
    }
}

impl<T> ThreadPool<T> {
    /// The pool's fields agree with its mathematical state, and that state
    /// satisfies the invariant of the protocol.
    pub closed spec fn wf(&self) -> bool {
        &&& self.workers@ == self.model@.workers
        &&& self.queue@.pending == self.model@.pending
        &&& self.queue@.sender_open == !(self.phase is Disconnected)
        &&& self.queue@.receivers == self.model@.live()
        &&& self.phase == self.model@.phase
        &&& self.model@.inv()
    }

    /// A well-formed pool is in a state that satisfies the invariant.
    pub proof fn lemma_wf_inv(&self)
        requires
            self.wf(),
        ensures
            self@.inv(),
    {
    }

    /// A pool of exactly `size` workers, numbered from zero, all idle and
    /// eligible for work, with nothing queued.
    pub fn new(size: usize) -> (pool: Self)
        requires
            size > 0,
        ensures
            pool.wf(),
            pool@ == PoolView::<T>::init(size as nat),
            pool@.size() == size,
            pool@.live() == size,
            pool@.accepting(),
    {
        let mut workers: Vec<Worker> = Vec::with_capacity(size);
        let mut i: usize = 0;
        while i < size
            invariant
                i <= size,
                workers@.len() == i,
                forall|j: int|
                    0 <= j < i ==> #[trigger] workers@[j] == (Worker {
                        id: j as usize,
                        state: WorkerState::Idle,
                        joined: false,
                    }),
            decreases size - i,
        {
            workers.push(Worker::new(i));
            i = i + 1;
        }
        let queue = DispatchQueue::new(size);
        proof {
            lemma_init_inv::<T>(size as nat);
            lemma_init_live::<T>(size as nat);
            assert(workers@ =~= PoolView::<T>::init(size as nat).workers);
        }
        ThreadPool {
            workers,
            queue,
            phase: Phase::Accepting,
            model: Ghost(PoolView::init(size as nat)),
        }
    }

    /// The number of workers the pool was built with.
    pub fn size(&self) -> (n: usize)
        requires
            self.wf(),
        ensures
            n == self@.size(),
    {
        self.workers.len()
    }

    /// Where the pool stands in its life.
    pub fn phase(&self) -> (phase: Phase)
        requires
            self.wf(),
        ensures
            phase == self@.phase,
    {
        self.phase
    }

    /// The number of messages sent and not yet received.
    pub fn pending(&self) -> (n: usize)
        requires
            self.wf(),
        ensures
            n == self@.pending.len(),
    {
        self.queue.len()
    }

    /// The number of workers that will poll the queue again.
    pub fn live_workers(&self) -> (n: usize)
        requires
            self.wf(),
        ensures
            n == self@.live(),
    {
        self.queue.receivers()
    }

    /// Worker `worker` as it stands.
    pub fn worker(&self, worker: usize) -> (w: Worker)
        requires
            self.wf(),
            self@.has_worker(worker as int),
        ensures
            w == self@.workers[worker as int],
    {
        self.workers[worker]
    }

    /// Whether a task may be submitted now: teardown has not begun, and at
    /// least one worker is left to receive.
    pub fn is_accepting(&self) -> (b: bool)
        requires
            self.wf(),
        ensures
            b == self@.accepting(),
    {
        match self.phase {
            Phase::Accepting => self.queue.receivers() > 0,
            _ => false,
        }
    }

    /// Submits `task`: it joins the end of the queue and the call returns at
    /// once. Submitting after teardown has begun, or when no worker is left
    /// to receive, is a misuse that the caller must rule out.
    pub fn execute(&mut self, task: T)
        requires
            old(self).wf(),
            old(self)@.accepting(),
        ensures
            final(self).wf(),
            final(self)@ == old(self)@.submit(task),
    {
        let ghost submitted = task;
        self.queue.send(Message::NewTask(task));
        proof {
            lemma_submit_inv(self.model@, submitted);
        }
        self.model = Ghost(self.model@.submit(submitted));
    }

    /// One poll of the queue by the idle worker `worker`, and its reaction.
    ///
    /// The oldest pending message, if there is one, leaves the queue for this
    /// worker alone. A task is always the oldest one not yet dispatched; the
    /// worker becomes `Running` and is told to run it. A terminate signal, or
    /// an empty queue whose producer is gone, ends the worker. An empty queue
    /// whose producer is still there changes nothing, and the worker is told
    /// to wait.
    pub fn receive(&mut self, worker: usize) -> (action: Action<T>)
        requires
            old(self).wf(),
            old(self)@.is_idle(worker as int),
        ensures
            final(self).wf(),
            final(self)@ == old(self)@.receive(worker as int),
            action == Worker::action_on(old(self)@.poll()),
            action matches Action::Run(task) ==> {
                task == old(self)@.submitted[old(self)@.dispatched() as int]
            },
            final(self)@.live() == old(self)@.live() - if action is Exit {
                1int
            } else {
                0int
            },
    {
        let ghost before = self.model@;
        let received = self.queue.try_recv();
        let ghost polled = received;
        let mut w: Worker = self.workers[worker];
        let action = w.react(received);
        self.workers.set(worker, w);
        proof {
            assert(polled == before.poll());
            lemma_receive_inv(before, worker as int);
            lemma_receive_live(before, worker as int);
        }
        if !w.is_live() {
            self.queue.release_receiver();
        }
        self.model = Ghost(before.receive(worker as int));
        action
    }

    /// The task that worker `worker` was running has run to its end; the
    /// worker is idle again.
    pub fn finish(&mut self, worker: usize)
        requires
            old(self).wf(),
            old(self)@.is_running(worker as int),
        ensures
            final(self).wf(),
            final(self)@ == old(self)@.finish(worker as int),
            final(self)@.live() == old(self)@.live(),
    {
        let ghost before = self.model@;
        let mut w: Worker = self.workers[worker];
        w.finish();
        self.workers.set(worker, w);
        proof {
            lemma_finish_inv(before, worker as int);
            lemma_finish_live(before, worker as int);
        }
        self.model = Ghost(before.finish(worker as int));
    }

    /// The task that worker `worker` was running failed. Nothing catches the
    /// failure: the worker is gone for good and is not replaced. The queue
    /// and the other workers are untouched.
    pub fn fail(&mut self, worker: usize)
        requires
            old(self).wf(),
            old(self)@.is_running(worker as int),
        ensures
            final(self).wf(),
            final(self)@ == old(self)@.fail(worker as int),
            final(self)@.live() == old(self)@.live() - 1,
    {
        let ghost before = self.model@;
        let mut w: Worker = self.workers[worker];
        w.fail();
        self.workers.set(worker, w);
        proof {
            lemma_fail_inv(before, worker as int);
            lemma_fail_live(before, worker as int);
        }
        self.queue.release_receiver();
        self.model = Ghost(before.fail(worker as int));
    }

    /// Begins teardown: exactly one terminate signal per worker joins the end
    /// of the queue, behind every task submitted so far.
    pub fn begin_teardown(&mut self)
        requires
            old(self).wf(),
            old(self)@.accepting(),
        ensures
            final(self).wf(),
            final(self)@ == old(self)@.begin_teardown(),
    {
        let ghost before = self.model@;
        let n: usize = self.workers.len();
        let mut sent: usize = 0;
        while sent < n
            invariant
                sent <= n,
                n == before.workers.len(),
                self.workers@ == before.workers,
                self.phase is Accepting,
                self.model@ == before,
                self.queue@.sender_open,
                self.queue@.receivers == before.live(),
                before.live() > 0,
                self.queue@.pending == before.pending + Seq::new(
                    sent as nat,
                    |j: int| Message::<T>::Terminate,
                ),
            decreases n - sent,
        {
            self.queue.send(Message::Terminate);
            sent = sent + 1;
        }
        proof {
            lemma_begin_teardown_inv(before);
        }
        self.phase = Phase::Draining;
        self.model = Ghost(before.begin_teardown());
    }

    /// Gives up the producer end of the queue. What is pending can still be
    /// received; after that, a worker that polls the queue exits.
    pub fn disconnect(&mut self)
        requires
            old(self).wf(),
        ensures
            final(self).wf(),
            final(self)@ == old(self)@.disconnect(),
    {
        proof {
            lemma_disconnect_inv(self.model@);
        }
        self.queue.close_sender();
        self.phase = Phase::Disconnected;
        self.model = Ghost(self.model@.disconnect());
    }

    /// Joins worker `worker` if that is possible without blocking. A handle is
    /// consumed once, by the first join that finds its worker terminated.
    pub fn join(&mut self, worker: usize) -> (outcome: JoinOutcome)
        requires
            old(self).wf(),
            old(self)@.has_worker(worker as int),
        ensures
            final(self).wf(),
            final(self)@ == old(self)@.join(worker as int),
            outcome == old(self)@.workers[worker as int].join_outcome(),
            final(self)@.live() == old(self)@.live(),
    {
        let ghost before = self.model@;
        let mut w: Worker = self.workers[worker];
        let outcome = w.join();
        self.workers.set(worker, w);
        proof {
            lemma_join_inv(before, worker as int);
            lemma_join_live(before, worker as int);
        }
        self.model = Ghost(before.join(worker as int));
        outcome
    }

    /// Joins the workers in index order, as far as that is possible without
    /// blocking. Handles consumed earlier are passed over. The walk stops at
    /// the first worker that is still alive, leaving its handle for a later
    /// call, and at the first worker that a failing task had brought down,
    /// whose failure is the caller's to propagate; it does not go on to the
    /// workers behind either.
    ///
    /// When the walk completes, no worker is left running; and if none was
    /// brought down by a task, every task ever submitted has run to its end.
    pub fn join_all(&mut self) -> (progress: JoinProgress)
        requires
            old(self).wf(),
        ensures
            final(self).wf(),
            final(self)@.live() == old(self)@.live(),
            match progress {
                JoinProgress::Complete => {
                    &&& forall|j: int|
                        0 <= j < old(self)@.size() ==> #[trigger] old(self)@.joins_cleanly(j)
                    &&& final(self)@ == old(self)@.join_first(old(self)@.size() as int)
                    &&& final(self)@.live() == 0
                    &&& final(self)@.none_failed() ==> {
                        &&& final(self)@.all_exited()
                        &&& final(self)@.drained()
                    }
                },
                JoinProgress::Blocked(k) => {
                    &&& k < old(self)@.size()
                    &&& forall|j: int| 0 <= j < k ==> #[trigger] old(self)@.joins_cleanly(j)
                    &&& old(self)@.workers[k as int].join_outcome() is StillRunning
                    &&& final(self)@ == old(self)@.join_first(k as int)
                },
                JoinProgress::Panicked(k) => {
                    &&& k < old(self)@.size()
                    &&& forall|j: int| 0 <= j < k ==> #[trigger] old(self)@.joins_cleanly(j)
                    &&& old(self)@.workers[k as int].join_outcome() is Panicked
                    &&& final(self)@ == old(self)@.join_first(k + 1)
                },
            },
    {
        let ghost before = self.model@;
        let n: usize = self.workers.len();
        let mut i: usize = 0;
        assert(before =~= before.join_first(0));
        while i < n
            invariant
                i <= n,
                n == before.workers.len(),
                before == old(self)@,
                self.wf(),
                self@.live() == before.live(),
                self@ == before.join_first(i as int),
                forall|j: int| 0 <= j < i ==> #[trigger] before.joins_cleanly(j),
            decreases n - i,
        {
            let outcome = self.join(i);
            match outcome {
                JoinOutcome::StillRunning => {
                    assert(self@ =~= before.join_first(i as int));
                    return JoinProgress::Blocked(i);
                },
                JoinOutcome::Panicked => {
                    assert(self@ =~= before.join_first(i + 1));
                    return JoinProgress::Panicked(i);
                },
                _ => {
                    assert(self@ =~= before.join_first(i + 1));
                },
            }
            i = i + 1;
        }
        proof {
            law_joined_pool_is_stopped(before);
            lemma_tally_none(before.workers, WorkerState::Idle);
            lemma_tally_none(before.workers, WorkerState::Running);
            self.lemma_wf_inv();
            assert forall|j: int| 0 <= j < self@.size() implies #[trigger] self@.joins_cleanly(
                j,
            ) by {
                assert(before.joins_cleanly(j));
            }
            law_joined_pool_is_stopped(self@);
        }
        JoinProgress::Complete
    }
}

} // verus!
