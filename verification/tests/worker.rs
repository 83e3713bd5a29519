use worker_pool::message::Message;
use worker_pool::queue::Received;
use worker_pool::worker::{Action, JoinOutcome, Worker, WorkerState};

#[test]
fn fresh_worker_is_idle_and_unjoined() {
    let w = Worker::new(4);
    assert_eq!(w.id, 4);
    assert_eq!(w.state, WorkerState::Idle);
    assert!(!w.joined);
    assert!(w.is_live());
}

#[test]
fn worker_takes_up_a_task() {
    let mut w = Worker::new(0);
    let action = w.react(Received::Message(Message::NewTask(11u32)));
    assert_eq!(action, Action::Run(11));
    assert_eq!(w.state, WorkerState::Running);
    assert_eq!(w.id, 0);
    assert!(!w.joined);
    assert!(w.is_live());
}

#[test]
fn worker_exits_on_terminate() {
    let mut w = Worker::new(1);
    let action = w.react(Received::<u32>::Message(Message::Terminate));
    assert_eq!(action, Action::Exit);
    assert_eq!(w.state, WorkerState::Exited);
    assert!(!w.is_live());
}

#[test]
fn worker_waits_on_an_empty_queue() {
    let mut w = Worker::new(1);
    let action = w.react(Received::<u32>::Empty);
    assert_eq!(action, Action::Wait);
    assert_eq!(w.state, WorkerState::Idle);
    assert!(w.is_live());
}

#[test]
fn worker_exits_on_a_disconnected_queue() {
    let mut w = Worker::new(1);
    let action = w.react(Received::<u32>::Disconnected);
    assert_eq!(action, Action::Exit);
    assert_eq!(w.state, WorkerState::Exited);
}

#[test]
fn worker_is_idle_again_after_its_task() {
    let mut w = Worker::new(2);
    w.react(Received::Message(Message::NewTask(1u32)));
    w.finish();
    assert_eq!(w.state, WorkerState::Idle);
    assert_eq!(w.id, 2);
    let action = w.react(Received::Message(Message::NewTask(2u32)));
    assert_eq!(action, Action::Run(2));
    assert_eq!(w.state, WorkerState::Running);
}

#[test]
fn worker_is_gone_after_a_failing_task() {
    let mut w = Worker::new(2);
    w.react(Received::Message(Message::NewTask(1u32)));
    w.fail();
    assert_eq!(w.state, WorkerState::Failed);
    assert!(!w.is_live());
    assert!(!w.joined);
}

#[test]
fn joining_a_live_worker_would_block() {
    let mut w = Worker::new(0);
    assert_eq!(w.join(), JoinOutcome::StillRunning);
    assert!(!w.joined);
    w.react(Received::Message(Message::NewTask(1u32)));
    assert_eq!(w.join(), JoinOutcome::StillRunning);
    assert!(!w.joined);
    assert_eq!(w.state, WorkerState::Running);
}

#[test]
fn joining_an_exited_worker_consumes_its_handle_once() {
    let mut w = Worker::new(0);
    w.react(Received::<u32>::Message(Message::Terminate));
    assert_eq!(w.join(), JoinOutcome::Joined);
    assert!(w.joined);
    assert_eq!(w.join(), JoinOutcome::AlreadyJoined);
    assert_eq!(w.join(), JoinOutcome::AlreadyJoined);
    assert!(w.joined);
    assert_eq!(w.state, WorkerState::Exited);
}

#[test]
fn joining_a_failed_worker_reports_the_failure_once() {
    let mut w = Worker::new(3);
    w.react(Received::Message(Message::NewTask(1u32)));
    w.fail();
    assert_eq!(w.join(), JoinOutcome::Panicked);
    assert!(w.joined);
    assert_eq!(w.join(), JoinOutcome::AlreadyJoined);
    assert_eq!(w.state, WorkerState::Failed);
}
