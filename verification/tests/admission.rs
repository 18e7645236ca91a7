use starfish::admission::{Closed, Gate};

#[test]
fn requests_enter_and_leave() {
    let mut g = Gate::new();
    assert_eq!(g.enter(), Ok(()));
    assert_eq!(g.enter(), Ok(()));
    assert_eq!(g.get_count(), 2);
    assert!(!g.leave());
    assert_eq!(g.get_count(), 1);
    assert_eq!(g.check(), Ok(()));
    assert!(!g.is_closed());
}

#[test]
fn closing_refuses_new_requests_and_waits_for_the_last() {
    let mut g = Gate::new();
    g.enter().unwrap();
    g.enter().unwrap();
    assert!(g.close());
    assert!(g.is_closed());
    assert_eq!(g.enter(), Err(Closed));
    assert_eq!(g.check(), Err(Closed));
    assert!(!g.leave());
    assert!(g.leave());
    assert_eq!(g.get_count(), 0);
}

#[test]
fn closing_an_empty_gate_needs_no_wait() {
    let mut g = Gate::new();
    assert!(!g.close());
    assert_eq!(g.enter(), Err(Closed));
}
