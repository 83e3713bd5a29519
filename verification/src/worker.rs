//! One worker of the pool: what it does with each thing it receives.

use vstd::prelude::*;
use crate::message::Message;
use crate::queue::Received;

verus! {

/// Where a worker stands in its life.
///
/// A worker starts `Idle`, alternates between `Idle` and `Running`, and ends
/// in `Exited` or `Failed`. Both ends are final.
#[derive(Clone, Copy, Debug, PartialEq, Eq)]
pub enum WorkerState {
    /// Waiting on the dispatch queue.
    Idle,
    /// Executing a task.
    Running,
    /// Left its loop in good order: it received a terminate signal, or found
    /// the queue empty and disconnected.
    Exited,
    /// Brought down by a task that failed while it was running.
    Failed,
}

/// What a worker does next, as decided from what it received.
#[derive(Debug, PartialEq, Eq)]
pub enum Action<T> {
    /// Run the task to its end, then tell the pool how it ended.
    Run(T),
    /// Nothing to do yet: block until the queue changes, then poll again.
    Wait,
    /// Leave the loop; the worker is done.
    Exit,
}

/// What an attempt to join a worker finds.
#[derive(Clone, Copy, Debug, PartialEq, Eq)]
pub enum JoinOutcome {
    /// The worker had exited in good order; its handle is now consumed.
    Joined,
    /// The worker had been brought down by a failing task; its handle is now
    /// consumed, and the failure is the caller's to propagate.
    Panicked,
    /// The worker is still alive, so joining would block; its handle stays.
    StillRunning,
    /// The handle was consumed by an earlier join; nothing happens.
    AlreadyJoined,
}

/// A worker: its index in the pool, its state, and whether its handle has
/// been consumed by a join.
#[derive(Clone, Copy, Debug)]
pub struct Worker {
    /// The worker's index in its pool.
    pub id: usize,
    pub state: WorkerState,
    /// Whether the worker's handle has been consumed by a join.
    pub joined: bool,
}

impl WorkerState {
    /// A live worker will poll the queue again; a terminated one never will.
    pub open spec fn is_live(self) -> bool {
        self is Idle || self is Running
    }

    /// A terminated worker has left its loop, in good order or not.
    pub open spec fn is_terminated(self) -> bool {
        self is Exited || self is Failed
    }
}

impl Worker {
    /// A handle is only ever consumed after its worker has terminated.
    pub open spec fn wf(self) -> bool {
        self.joined ==> self.state.is_terminated()
    }

    /// The state a worker moves to, from `Idle`, on what it received.
    pub open spec fn state_after<T>(received: Received<T>) -> WorkerState {
        match received {
            Received::Message(Message::NewTask(_)) => WorkerState::Running,
            Received::Message(Message::Terminate) => WorkerState::Exited,
            Received::Empty => WorkerState::Idle,
            Received::Disconnected => WorkerState::Exited,
        }
    }

    /// What a worker does on what it received.
    pub open spec fn action_on<T>(received: Received<T>) -> Action<T> {
        match received {
            Received::Message(Message::NewTask(task)) => Action::Run(task),
            Received::Message(Message::Terminate) => Action::Exit,
            Received::Empty => Action::Wait,
            Received::Disconnected => Action::Exit,
        }
    }

    /// What joining this worker yields, as it stands.
    pub open spec fn join_outcome(self) -> JoinOutcome {
        if self.joined {
            JoinOutcome::AlreadyJoined
        } else {
            match self.state {
                WorkerState::Exited => JoinOutcome::Joined,
                WorkerState::Failed => JoinOutcome::Panicked,
                _ => JoinOutcome::StillRunning,
            }
        }
    }

    /// A fresh worker: idle, eligible for work at once, its handle unconsumed.
    pub fn new(id: usize) -> (w: Worker)
        ensures
            w == (Worker { id, state: WorkerState::Idle, joined: false }),
    {
        Worker { id, state: WorkerState::Idle, joined: false }
    }

    /// Whether this worker will poll the queue again.
    pub fn is_live(&self) -> (b: bool)
        ensures
            b == self.state.is_live(),
    {
        match self.state {
            WorkerState::Idle => true,
            WorkerState::Running => true,
            _ => false,
        }
    }

    /// One turn of the worker's loop, after it has polled the queue: a task is
    /// taken up, a terminate signal or a dead queue ends the worker, and an
    /// empty queue leaves it waiting.
    pub fn react<T>(&mut self, received: Received<T>) -> (action: Action<T>)
        requires
            old(self).state is Idle,
        ensures
            action == Self::action_on(received),
            *final(self) == (Worker { state: Self::state_after(received), ..*old(self) }),
    {
        match received {
            Received::Message(Message::NewTask(task)) => {
                self.state = WorkerState::Running;
                Action::Run(task)
            },
            Received::Message(Message::Terminate) => {
                self.state = WorkerState::Exited;
                Action::Exit
            },
            Received::Empty => Action::Wait,
            Received::Disconnected => {
                self.state = WorkerState::Exited;
                Action::Exit
            },
        }
    }

    /// The task this worker was running has run to its end: the worker goes
    /// back to waiting.
    pub fn finish(&mut self)
        requires
            old(self).state is Running,
        ensures
            *final(self) == (Worker { state: WorkerState::Idle, ..*old(self) }),
    {
        self.state = WorkerState::Idle;
    }

    /// The task this worker was running failed: nothing catches the failure,
    /// and the worker is gone for good.
    pub fn fail(&mut self)
        requires
            old(self).state is Running,
        ensures
            *final(self) == (Worker { state: WorkerState::Failed, ..*old(self) }),
    {
        self.state = WorkerState::Failed;
    }

    /// Joins the worker if that is possible without blocking. The handle is
    /// consumed by the first join that finds the worker terminated, and by no
    /// other.
    pub fn join(&mut self) -> (outcome: JoinOutcome)
        ensures
            outcome == old(self).join_outcome(),
            *final(self) == (Worker {
                joined: old(self).joined || old(self).state.is_terminated(),
                ..*old(self)
            }),
    {
        if self.joined {
            JoinOutcome::AlreadyJoined
        } else {
            match self.state {
                WorkerState::Exited => {
                    self.joined = true;
                    JoinOutcome::Joined
                },
                WorkerState::Failed => {
                    self.joined = true;
                    JoinOutcome::Panicked
                },
                _ => JoinOutcome::StillRunning,
            }
        }
    }
}

} // verus!
