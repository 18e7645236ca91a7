//! Facility to stop new requests, and to tell when existing requests are done.
//!
//! When stopping a service that serves asynchronous requests, new requests
//! must be kept out and the service must learn when the requests already
//! running have completed.  Each request enters this Gate and leaves it when
//! done; once this Gate is closed, entering fails, and the one who closed it
//! is told when the last request inside leaves.
use vstd::prelude::*;

verus! {

/// The error of entering, or checking, a closed Gate.
#[derive(Debug, Clone, Copy, PartialEq, Eq, Structural)]
pub struct Closed;

/// The state of a Gate: requests inside, and whether it is closed.
pub ghost struct GateState {
    pub count: nat,
    pub closed: bool,
}

impl GateState {
    /// A request enters; a closed Gate refuses it.
    pub open spec fn enter(self) -> (GateState, bool) {
        if self.closed {
            (self, false)
        } else {
            (GateState { count: self.count + 1, ..self }, true)
        }
    }

    /// A request leaves; reports whether the closer must now be told that
    /// this Gate is empty.
    pub open spec fn leave(self) -> (GateState, bool) {
        let after = GateState { count: (self.count - 1) as nat, ..self };
        (after, self.closed && after.count == 0)
    }

    /// This Gate closes; reports whether requests are still inside, so the
    /// closer has to wait for them.
    pub open spec fn close(self) -> (GateState, bool) {
        (GateState { closed: true, ..self }, self.count > 0)
    }
}

pub struct Gate {
    count: usize,
    closed: bool,
}

impl View for Gate {
    type V = GateState;

    closed spec fn view(&self) -> GateState {
        GateState { count: self.count as nat, closed: self.closed }
    }
}

impl Gate {
    /// An open Gate with no request inside.
    pub fn new() -> (g: Gate)
        ensures
            g@ == (GateState { count: 0, closed: false }),
    {
        Gate { count: 0, closed: false }
    }

    /// Registers a request, unless this Gate is closed.
    pub fn enter(&mut self) -> (r: Result<(), Closed>)
        requires
            !old(self)@.closed ==> old(self)@.count < usize::MAX,
        ensures
            final(self)@ == old(self)@.enter().0,
            r is Ok <==> old(self)@.enter().1,
    {
        if self.closed {
            return Err(Closed);
        }
        self.count = self.count + 1;
        Ok(())
    }

    /// A registered request has finished.  Returns `true` when this Gate is
    /// closed and this was the last request inside: the closer may go on.
    pub fn leave(&mut self) -> (wake_closer: bool)
        requires
            old(self)@.count > 0,
        ensures
            final(self)@ == old(self)@.leave().0,
            wake_closer == old(self)@.leave().1,
    {
        self.count = self.count - 1;
        self.count == 0 && self.closed
    }

    /// Fails once this Gate is closed, so that a long request can stop early.
    pub fn check(&self) -> (r: Result<(), Closed>)
        ensures
            r is Ok <==> !self@.closed,
    {
        if self.closed {
            Err(Closed)
        } else {
            Ok(())
        }
    }

    /// Closes this Gate.  Returns `true` when requests are still inside; the
    /// closer then waits until `leave` reports the last of them.  A Gate is
    /// closed once only.
    pub fn close(&mut self) -> (must_wait: bool)
        requires
            !old(self)@.closed,
        ensures
            final(self)@ == old(self)@.close().0,
            must_wait == old(self)@.close().1,
            must_wait == (old(self)@.count > 0),
            final(self)@ == (GateState { count: old(self)@.count, closed: true }),
    {
        self.closed = true;
        self.count > 0
    }

    /// The number of requests inside.
    pub fn get_count(&self) -> (n: usize)
        ensures
            n == self@.count,
    {
        self.count
    }

    pub fn is_closed(&self) -> (b: bool)
        ensures
            b == self@.closed,
    {
        self.closed
    }
}

/// Closing makes the closer wait exactly when requests are still inside:
/// it goes on at once only when this Gate is empty.  Closing keeps the
/// requests inside and refuses every later one.
pub proof fn lemma_close_waits_for_requests_inside(g: GateState)
    ensures
        g.close().1 <==> g.count > 0,
        g.count == 1 ==> g.close().1,
        g.close().0.count == g.count,
        g.close().0.closed,
        !g.close().0.enter().1,
{
}

/// Once closed with requests inside, the closer is woken exactly when the
/// last of them leaves; had it gone on at once, a request would still be
/// inside.
pub proof fn lemma_close_then_leave_wakes_closer(g: GateState)
    requires
        !g.closed,
        g.count > 0,
    ensures
        g.close().1,
        g.close().0.leave().1 <==> g.count == 1,
{
}

/// A closed Gate stays closed and refuses every request.
pub proof fn lemma_closed_gate_refuses(g: GateState)
    requires
        g.closed,
    ensures
        g.enter().0 == g && !g.enter().1,
        g.leave().0.closed,
{
}

/// A request that enters and leaves an open Gate leaves it as it was, and
/// wakes nobody.
pub proof fn lemma_enter_leave_round_trip(g: GateState)
    requires
        !g.closed,
    ensures
        g.enter().1,
        g.enter().0.leave().0 == g,
        !g.enter().0.leave().1,
{
}

/// After this Gate closes with `n` requests inside, the closer is woken by the
/// `n`-th request to leave and by no earlier one.
pub proof fn lemma_closer_woken_by_last(g: GateState, k: nat)
    requires
        g.closed,
        k <= g.count,
    ensures
        leave_times(g, k).0 == (GateState { count: (g.count - k) as nat, closed: true }),
        k >= 1 ==> (leave_times(g, k).1 <==> k == g.count),
    decreases k,
{
    if k >= 1 {
        lemma_closer_woken_by_last(g, (k - 1) as nat);
    }
}

/// The state after `k` requests leave, and whether the `k`-th one woke the
/// closer.
pub open spec fn leave_times(g: GateState, k: nat) -> (GateState, bool)
    decreases k,
{
    if k == 0 {
        (g, false)
    } else {
        leave_times(g, (k - 1) as nat).0.leave()
    }
}

} // verus!
