use worker_pool::pool::{JoinProgress, ThreadPool};
use worker_pool::protocol::Phase;
use worker_pool::worker::{Action, JoinOutcome, WorkerState};

fn check_fresh_pool(size: usize) {
    let pool: ThreadPool<u32> = ThreadPool::new(size);
    assert_eq!(pool.size(), size);
    assert_eq!(pool.live_workers(), size);
    assert_eq!(pool.pending(), 0);
    assert_eq!(pool.phase(), Phase::Accepting);
    assert!(pool.is_accepting());
    for i in 0..size {
        let w = pool.worker(i);
        assert_eq!(w.id, i);
        assert_eq!(w.state, WorkerState::Idle);
        assert!(!w.joined);
    }
}

#[test]
fn new_pool_has_exactly_the_workers_asked_for() {
    check_fresh_pool(1);
    check_fresh_pool(2);
    check_fresh_pool(7);
    check_fresh_pool(64);
}

#[test]
fn execute_only_queues_the_task() {
    let mut pool: ThreadPool<u32> = ThreadPool::new(3);
    pool.execute(5);
    pool.execute(6);
    assert_eq!(pool.pending(), 2);
    assert_eq!(pool.phase(), Phase::Accepting);
    assert_eq!(pool.live_workers(), 3);
    for i in 0..3 {
        assert_eq!(pool.worker(i).state, WorkerState::Idle);
    }
}

#[test]
fn tasks_are_dispatched_in_submission_order() {
    let mut pool: ThreadPool<u32> = ThreadPool::new(1);
    for task in 1..=5u32 {
        pool.execute(task);
    }
    let mut seen = Vec::new();
    for _ in 0..5 {
        match pool.receive(0) {
            Action::Run(task) => seen.push(task),
            other => panic!("expected a task, got {:?}", other),
        }
        pool.finish(0);
    }
    assert_eq!(seen, vec![1, 2, 3, 4, 5]);
    assert_eq!(pool.receive(0), Action::Wait);
}

#[test]
fn dispatch_order_is_submission_order_whoever_polls() {
    let mut pool: ThreadPool<u32> = ThreadPool::new(3);
    for task in [10u32, 20, 30, 40, 50, 60] {
        pool.execute(task);
    }
    assert_eq!(pool.receive(2), Action::Run(10));
    assert_eq!(pool.receive(0), Action::Run(20));
    pool.finish(2);
    assert_eq!(pool.receive(2), Action::Run(30));
    assert_eq!(pool.receive(1), Action::Run(40));
    pool.finish(1);
    pool.finish(0);
    assert_eq!(pool.receive(0), Action::Run(50));
    assert_eq!(pool.receive(1), Action::Run(60));
    assert_eq!(pool.pending(), 0);
}

#[test]
fn each_task_is_handed_to_one_worker_only() {
    let mut pool: ThreadPool<u32> = ThreadPool::new(2);
    pool.execute(1);
    assert_eq!(pool.receive(0), Action::Run(1));
    assert_eq!(pool.pending(), 0);
    assert_eq!(pool.receive(1), Action::Wait);
    pool.finish(0);
    assert_eq!(pool.receive(0), Action::Wait);
    assert_eq!(pool.receive(1), Action::Wait);
}

#[test]
fn idle_worker_waits_while_the_queue_is_empty() {
    let mut pool: ThreadPool<u32> = ThreadPool::new(2);
    assert_eq!(pool.receive(0), Action::Wait);
    assert_eq!(pool.receive(0), Action::Wait);
    assert_eq!(pool.worker(0).state, WorkerState::Idle);
    assert_eq!(pool.live_workers(), 2);
    pool.execute(9);
    assert_eq!(pool.receive(0), Action::Run(9));
    assert_eq!(pool.worker(0).state, WorkerState::Running);
}

#[test]
fn two_workers_run_two_tasks_at_once() {
    let mut pool: ThreadPool<u32> = ThreadPool::new(2);
    pool.execute(1);
    pool.execute(2);
    assert_eq!(pool.receive(0), Action::Run(1));
    assert_eq!(pool.receive(1), Action::Run(2));
    assert_eq!(pool.worker(0).state, WorkerState::Running);
    assert_eq!(pool.worker(1).state, WorkerState::Running);
}

#[test]
fn begin_teardown_sends_one_terminate_per_worker() {
    let mut pool: ThreadPool<u32> = ThreadPool::new(3);
    pool.execute(1);
    pool.execute(2);
    pool.begin_teardown();
    assert_eq!(pool.phase(), Phase::Draining);
    assert_eq!(pool.pending(), 5);
    assert!(!pool.is_accepting());
    assert_eq!(pool.live_workers(), 3);
}

#[test]
fn teardown_drains_every_submitted_task() {
    let mut pool: ThreadPool<u32> = ThreadPool::new(2);
    for task in [1u32, 2, 3] {
        pool.execute(task);
    }
    pool.begin_teardown();
    assert_eq!(pool.join_all(), JoinProgress::Blocked(0));
    let mut done = Vec::new();
    let mut exited = 0;
    let mut turn = 0;
    while exited < 2 {
        let worker = turn % 2;
        turn += 1;
        if pool.worker(worker).state != WorkerState::Idle {
            continue;
        }
        match pool.receive(worker) {
            Action::Run(task) => {
                assert_eq!(exited, 0);
                done.push(task);
                pool.finish(worker);
            }
            Action::Exit => exited += 1,
            Action::Wait => panic!("a draining pool left a worker waiting"),
        }
    }
    assert_eq!(done, vec![1, 2, 3]);
    assert_eq!(pool.pending(), 0);
    assert_eq!(pool.live_workers(), 0);
    assert_eq!(pool.join_all(), JoinProgress::Complete);
    for i in 0..2 {
        assert_eq!(pool.worker(i).state, WorkerState::Exited);
        assert!(pool.worker(i).joined);
    }
}

#[test]
fn worker_exits_only_on_its_own_terminate() {
    let mut pool: ThreadPool<u32> = ThreadPool::new(2);
    pool.execute(1);
    pool.begin_teardown();
    assert_eq!(pool.receive(0), Action::Run(1));
    assert_eq!(pool.receive(1), Action::Exit);
    assert_eq!(pool.worker(1).state, WorkerState::Exited);
    assert_eq!(pool.worker(0).state, WorkerState::Running);
    assert_eq!(pool.live_workers(), 1);
    assert_eq!(pool.pending(), 1);
    pool.finish(0);
    assert_eq!(pool.receive(0), Action::Exit);
    assert_eq!(pool.pending(), 0);
    assert_eq!(pool.live_workers(), 0);
}

#[test]
fn join_all_waits_for_the_first_live_worker() {
    let mut pool: ThreadPool<u32> = ThreadPool::new(3);
    pool.begin_teardown();
    assert_eq!(pool.receive(0), Action::Exit);
    assert_eq!(pool.receive(2), Action::Exit);
    assert_eq!(pool.join_all(), JoinProgress::Blocked(1));
    assert!(pool.worker(0).joined);
    assert!(!pool.worker(1).joined);
    assert!(!pool.worker(2).joined);
    assert_eq!(pool.receive(1), Action::Exit);
    assert_eq!(pool.join_all(), JoinProgress::Complete);
    assert!(pool.worker(1).joined);
    assert!(pool.worker(2).joined);
}

#[test]
fn join_all_twice_is_harmless() {
    let mut pool: ThreadPool<u32> = ThreadPool::new(2);
    pool.begin_teardown();
    assert_eq!(pool.receive(0), Action::Exit);
    assert_eq!(pool.receive(1), Action::Exit);
    assert_eq!(pool.join_all(), JoinProgress::Complete);
    assert_eq!(pool.join_all(), JoinProgress::Complete);
    assert_eq!(pool.join(0), JoinOutcome::AlreadyJoined);
    assert_eq!(pool.join(1), JoinOutcome::AlreadyJoined);
}

#[test]
fn join_takes_a_handle_once() {
    let mut pool: ThreadPool<u32> = ThreadPool::new(2);
    assert_eq!(pool.join(1), JoinOutcome::StillRunning);
    assert!(!pool.worker(1).joined);
    pool.begin_teardown();
    assert_eq!(pool.receive(1), Action::Exit);
    assert_eq!(pool.join(1), JoinOutcome::Joined);
    assert!(pool.worker(1).joined);
    assert_eq!(pool.join(1), JoinOutcome::AlreadyJoined);
    assert_eq!(pool.join(0), JoinOutcome::StillRunning);
    assert_eq!(pool.live_workers(), 1);
}

#[test]
fn failing_task_takes_down_only_its_worker() {
    let mut pool: ThreadPool<u32> = ThreadPool::new(3);
    for task in [1u32, 2, 3, 4] {
        pool.execute(task);
    }
    assert_eq!(pool.receive(0), Action::Run(1));
    assert_eq!(pool.receive(1), Action::Run(2));
    pool.fail(1);
    assert_eq!(pool.worker(1).state, WorkerState::Failed);
    assert_eq!(pool.worker(0).state, WorkerState::Running);
    assert_eq!(pool.worker(2).state, WorkerState::Idle);
    assert_eq!(pool.live_workers(), 2);
    assert_eq!(pool.pending(), 2);
    assert!(pool.is_accepting());
    assert_eq!(pool.receive(2), Action::Run(3));
    pool.finish(0);
    assert_eq!(pool.receive(0), Action::Run(4));
    pool.execute(5);
    pool.finish(2);
    assert_eq!(pool.receive(2), Action::Run(5));
    assert_eq!(pool.worker(1).state, WorkerState::Failed);
}

#[test]
fn failed_worker_leaves_its_terminate_behind() {
    let mut pool: ThreadPool<u32> = ThreadPool::new(2);
    pool.execute(1);
    assert_eq!(pool.receive(0), Action::Run(1));
    pool.fail(0);
    pool.begin_teardown();
    assert_eq!(pool.pending(), 2);
    assert_eq!(pool.receive(1), Action::Exit);
    assert_eq!(pool.pending(), 1);
    assert_eq!(pool.live_workers(), 0);
}

#[test]
fn join_all_stops_at_a_failed_worker() {
    let mut pool: ThreadPool<u32> = ThreadPool::new(3);
    pool.execute(1);
    assert_eq!(pool.receive(1), Action::Run(1));
    pool.fail(1);
    pool.begin_teardown();
    assert_eq!(pool.receive(0), Action::Exit);
    assert_eq!(pool.receive(2), Action::Exit);
    assert_eq!(pool.join_all(), JoinProgress::Panicked(1));
    assert!(pool.worker(0).joined);
    assert!(pool.worker(1).joined);
    assert!(!pool.worker(2).joined);
    assert_eq!(pool.join_all(), JoinProgress::Complete);
    assert!(pool.worker(2).joined);
}

#[test]
fn pool_with_no_live_worker_accepts_nothing() {
    let mut pool: ThreadPool<u32> = ThreadPool::new(1);
    pool.execute(1);
    assert_eq!(pool.receive(0), Action::Run(1));
    pool.fail(0);
    assert_eq!(pool.live_workers(), 0);
    assert_eq!(pool.phase(), Phase::Accepting);
    assert!(!pool.is_accepting());
}

#[test]
fn disconnected_pool_hands_out_what_is_pending_then_ends_its_workers() {
    let mut pool: ThreadPool<u32> = ThreadPool::new(2);
    pool.execute(1);
    pool.execute(2);
    pool.disconnect();
    assert_eq!(pool.phase(), Phase::Disconnected);
    assert!(!pool.is_accepting());
    assert_eq!(pool.pending(), 2);
    assert_eq!(pool.receive(0), Action::Run(1));
    assert_eq!(pool.receive(1), Action::Run(2));
    pool.finish(1);
    assert_eq!(pool.receive(1), Action::Exit);
    assert_eq!(pool.worker(1).state, WorkerState::Exited);
    pool.finish(0);
    assert_eq!(pool.receive(0), Action::Exit);
    assert_eq!(pool.live_workers(), 0);
    assert_eq!(pool.join_all(), JoinProgress::Complete);
}

#[test]
fn disconnect_after_teardown_changes_no_worker() {
    let mut pool: ThreadPool<u32> = ThreadPool::new(2);
    pool.begin_teardown();
    assert_eq!(pool.receive(0), Action::Exit);
    pool.disconnect();
    assert_eq!(pool.phase(), Phase::Disconnected);
    assert_eq!(pool.pending(), 1);
    assert_eq!(pool.worker(0).state, WorkerState::Exited);
    assert_eq!(pool.worker(1).state, WorkerState::Idle);
    assert_eq!(pool.receive(1), Action::Exit);
    assert_eq!(pool.pending(), 0);
}
