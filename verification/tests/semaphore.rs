use starfish::semaphore::{Semaphore, SemaphoreWait};

#[test]
fn smoke() {}

#[test]
fn wait_takes_available_units() {
    let mut s = Semaphore::new(3);
    assert_eq!(s.wait(2), SemaphoreWait::Ready);
    assert_eq!(s.wait(1), SemaphoreWait::Ready);
    assert_eq!(s.wait(1), SemaphoreWait::Wait);
    assert_eq!(s.signal(1), 1);
}

#[test]
fn waiters_are_served_in_order() {
    let mut s = Semaphore::new(0);
    assert_eq!(s.wait(3), SemaphoreWait::Wait);
    // A small request does not overtake the larger one waiting before it.
    assert_eq!(s.wait(1), SemaphoreWait::Wait);
    assert_eq!(s.signal(2), 0);
    // 2 + 2 units: the first waiter takes 3, the second 1.
    assert_eq!(s.signal(2), 2);
    // Nothing is left: a new request waits.
    assert_eq!(s.wait(1), SemaphoreWait::Wait);
    assert_eq!(s.signal(5), 1);
    // 4 units are left.
    assert_eq!(s.wait(4), SemaphoreWait::Ready);
    assert_eq!(s.wait(1), SemaphoreWait::Wait);
}

#[test]
fn signal_stops_at_first_unserved_waiter() {
    let mut s = Semaphore::new(0);
    assert_eq!(s.wait(1), SemaphoreWait::Wait);
    assert_eq!(s.wait(5), SemaphoreWait::Wait);
    assert_eq!(s.wait(1), SemaphoreWait::Wait);
    assert_eq!(s.signal(3), 1);
    assert_eq!(s.signal(3), 1);
    assert_eq!(s.signal(1), 1);
}

#[test]
fn default_is_an_unlocked_mutex() {
    let mut s = Semaphore::default();
    assert_eq!(s.wait(1), SemaphoreWait::Ready);
    assert_eq!(s.wait(1), SemaphoreWait::Wait);
    assert_eq!(s.signal(1), 1);
}

#[test]
fn broken_releases_waiters_and_refuses_new_ones() {
    let mut s = Semaphore::new(2);
    assert_eq!(s.wait(3), SemaphoreWait::Wait);
    assert_eq!(s.wait(1), SemaphoreWait::Wait);
    assert_eq!(s.broken(), 2);
    assert_eq!(s.wait(1), SemaphoreWait::Broken);
    // Deposits are ignored.
    assert_eq!(s.signal(5), 0);
    assert_eq!(s.wait(1), SemaphoreWait::Broken);
}

#[test]
fn broken_empties_the_counter() {
    let mut s = Semaphore::new(7);
    assert_eq!(s.broken(), 0);
    assert_eq!(s.wait(1), SemaphoreWait::Broken);
    let _ = starfish::semaphore::Broken;
}

#[test]
fn current_counts_units_left() {
    let mut s = Semaphore::new(5);
    assert_eq!(s.current(), 5);
    assert_eq!(s.wait(2), SemaphoreWait::Ready);
    assert_eq!(s.current(), 3);
    assert_eq!(s.wait(4), SemaphoreWait::Wait);
    assert_eq!(s.current(), 3);
    assert_eq!(s.signal(2), 1);
    assert_eq!(s.current(), 1);
}
