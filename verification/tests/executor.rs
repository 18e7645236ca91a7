use starfish::executor::{Executor, Next, TaskId};

/// A future's script: what each poll does.  A poll may wake the task any
/// number of times, and keeps the waker or not; it returns ready or pending.
struct Poll {
    wakes: usize,
    keep_waker: bool,
    ready: bool,
}

struct Mock {
    polls: Vec<Poll>,
    poll_count: usize,
}

/// Polls every queued task until the queue is empty; returns whether any
/// future was polled.  A poll that keeps its waker clones it.
fn pure_poll(exec: &mut Executor, mock: &mut Mock, task: TaskId) -> bool {
    let mut ret = false;
    loop {
        match exec.next() {
            Next::Idle => return ret,
            Next::Skip(_) => continue,
            Next::Poll(id) => {
                assert_eq!(id, task);
                ret = true;
                let p = mock.polls.remove(0);
                mock.poll_count += 1;
                for _ in 0..p.wakes {
                    exec.wake(id);
                }
                if p.keep_waker {
                    exec.clone_waker(id);
                }
                let dropped = exec.complete(id, p.ready);
                assert_eq!(dropped, !exec.is_live(id));
            }
        }
    }
}

#[test]
fn if_waker_is_not_saved_future_is_dropped() {
    let mut exec = Executor::new();
    let mut mock = Mock {
        polls: vec![Poll { wakes: 0, keep_waker: false, ready: false }],
        poll_count: 0,
    };
    let task = exec.spawn();
    assert!(pure_poll(&mut exec, &mut mock, task));
    assert_eq!(mock.poll_count, 1);
    assert_eq!(exec.next(), Next::Idle);
    assert!(!exec.is_live(task));
}

#[test]
fn future_is_notified_from_outside_poll() {
    let mut exec = Executor::new();
    let mut mock = Mock {
        polls: vec![
            Poll { wakes: 0, keep_waker: true, ready: false },
            Poll { wakes: 0, keep_waker: false, ready: false },
        ],
        poll_count: 0,
    };
    let task = exec.spawn();
    pure_poll(&mut exec, &mut mock, task);
    assert_eq!(mock.poll_count, 1);
    assert!(exec.is_live(task));
    // Notify the future several times: it is queued once.
    assert!(exec.wake(task));
    assert!(!exec.wake(task));
    pure_poll(&mut exec, &mut mock, task);
    assert_eq!(mock.poll_count, 2);
    // The kept waker still refers to the task.
    assert!(exec.is_live(task));
    assert_eq!(exec.waker_count(task), 1);
    // Dropping it drops the future.
    assert!(exec.drop_waker(task));
    assert!(!exec.is_live(task));
}

#[test]
fn future_is_polled_again_if_notified_from_poll() {
    let mut exec = Executor::new();
    let mut mock = Mock {
        polls: vec![
            Poll { wakes: 2, keep_waker: false, ready: false },
            Poll { wakes: 0, keep_waker: false, ready: false },
        ],
        poll_count: 0,
    };
    let task = exec.spawn();
    assert!(pure_poll(&mut exec, &mut mock, task));
    assert_eq!(mock.poll_count, 2);
    assert!(!exec.is_live(task));
}

#[test]
fn waker_dropped_while_queued_keeps_the_future() {
    let mut exec = Executor::new();
    let task = exec.spawn();
    assert_eq!(exec.next(), Next::Poll(task));
    exec.clone_waker(task);
    assert!(!exec.complete(task, false));
    assert!(exec.wake(task));
    // The queue still refers to the task.
    assert!(!exec.drop_waker(task));
    assert!(exec.is_live(task));
    assert_eq!(exec.next(), Next::Poll(task));
    assert!(exec.complete(task, false));
}

#[test]
fn completed_future_is_skipped() {
    let mut exec = Executor::new();
    let mut mock = Mock {
        polls: vec![Poll { wakes: 1, keep_waker: false, ready: true }],
        poll_count: 0,
    };
    let task = exec.spawn();
    assert!(pure_poll(&mut exec, &mut mock, task));
    assert_eq!(mock.poll_count, 1);
    assert!(!exec.is_live(task));
    assert_eq!(exec.task_count(), 1);
}

#[test]
fn tasks_run_in_spawn_order() {
    let mut exec = Executor::new();
    let a = exec.spawn();
    let b = exec.spawn();
    assert_eq!(exec.next(), Next::Poll(a));
    exec.clone_waker(a);
    assert!(!exec.complete(a, false));
    assert_eq!(exec.next(), Next::Poll(b));
    exec.clone_waker(b);
    assert!(!exec.complete(b, false));
    assert_eq!(exec.next(), Next::Idle);
    assert!(exec.wake(b));
    assert!(exec.wake(a));
    assert_eq!(exec.next(), Next::Poll(b));
    assert!(exec.complete(b, true));
    assert!(!exec.wake(a));
    assert_eq!(exec.next(), Next::Poll(a));
    assert!(!exec.complete(a, false));
    // A finished task's kept waker may queue it again: it is skipped.
    assert!(exec.wake(b));
    assert_eq!(exec.next(), Next::Skip(b));
    assert!(!exec.drop_waker(b));
}
