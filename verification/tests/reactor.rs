use starfish::reactor::Reactor;
use starfish::semaphore::SemaphoreWait;
use starfish::smp::{Route, SmpQueues};

fn reactor(id: usize, smp_count: usize) -> Reactor<usize> {
    Reactor::create(id, SmpQueues::new(id, smp_count, (0..smp_count).collect()))
}

#[test]
fn reactor_starts_once_every_shard_reported() {
    let mut r = reactor(1, 3);
    assert_eq!(r.id(), 1);
    assert_eq!(r.when_started(), SemaphoreWait::Wait);
    let (routes, woken) = r.run();
    assert_eq!(routes, vec![Route::Remote(0), Route::Local, Route::Remote(2)]);
    assert_eq!(woken, 0);
    assert_eq!(r.on_cpu_started(), 0);
    assert_eq!(r.on_cpu_started(), 0);
    // The third report starts the reactor and serves the waiting request.
    assert_eq!(r.on_cpu_started(), 1);
    // The unit was taken: a later request is not served.
    assert_eq!(r.when_started(), SemaphoreWait::Wait);
}

#[test]
fn reports_before_run_count() {
    let mut r = reactor(0, 2);
    assert_eq!(r.on_cpu_started(), 0);
    assert_eq!(r.on_cpu_started(), 0);
    let (routes, woken) = r.run();
    assert_eq!(routes, vec![Route::Local, Route::Remote(1)]);
    // Started at once, with nobody waiting: the unit stays for the first request.
    assert_eq!(woken, 0);
    assert_eq!(r.when_started(), SemaphoreWait::Ready);
    assert_eq!(r.when_started(), SemaphoreWait::Wait);
}

#[test]
fn reactor_does_not_start_before_it_runs() {
    let mut r = reactor(0, 1);
    assert_eq!(r.when_started(), SemaphoreWait::Wait);
    assert_eq!(r.on_cpu_started(), 0);
    assert_eq!(r.when_started(), SemaphoreWait::Wait);
    let (_, woken) = r.run();
    // Starting serves the oldest of the two requests only.
    assert_eq!(woken, 1);
    // Later reports change nothing.
    assert_eq!(r.on_cpu_started(), 0);
}
