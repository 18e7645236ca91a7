//! Ordered queue of pending operations.
//!
//! Operations are registered under a position that never decreases.  Their
//! actions may finish in any order, but the follow-up ("post") step of an
//! operation runs only after every operation at a lower position has left the
//! queue: each operation waits for the closest lower position still pending.
//! Several operations may share a position; the position leaves the queue when
//! the last of them finishes.
use vstd::prelude::*;

verus! {

/// Positions strictly increase along the queue, and every entry counts at
/// least one operation.
pub open spec fn well_ordered(s: Seq<(u64, usize)>) -> bool {
    &&& forall|i: int, j: int| 0 <= i < j < s.len() ==> s[i].0 < s[j].0
    &&& forall|i: int| 0 <= i < s.len() ==> #[trigger] s[i].1 >= 1
}

/// `t` is a pending position.
pub open spec fn has_position(s: Seq<(u64, usize)>, t: u64) -> bool {
    exists|i: int| 0 <= i < s.len() && s[i].0 == t
}

/// `p` is the greatest pending position that satisfies `below`.
pub open spec fn greatest_with(s: Seq<(u64, usize)>, p: u64, below: spec_fn(u64) -> bool) -> bool {
    &&& has_position(s, p)
    &&& below(p)
    &&& forall|i: int| 0 <= i < s.len() && below(s[i].0) ==> s[i].0 <= p
}

/// No pending position satisfies `below`.
pub open spec fn none_with(s: Seq<(u64, usize)>, below: spec_fn(u64) -> bool) -> bool {
    forall|i: int| 0 <= i < s.len() ==> !below(#[trigger] s[i].0)
}

/// The queue after one more operation registers at `t`, which is at least
/// every pending position.
pub open spec fn registered(s: Seq<(u64, usize)>, t: u64) -> Seq<(u64, usize)> {
    if s.len() > 0 && s.last().0 == t {
        s.update(s.len() - 1, (t, (s.last().1 + 1) as usize))
    } else {
        s.push((t, 1usize))
    }
}

/// The queue after one operation at position index `i` finishes.
pub open spec fn finished_at(s: Seq<(u64, usize)>, i: int) -> Seq<(u64, usize)> {
    if s[i].1 == 1 {
        s.remove(i)
    } else {
        s.update(i, (s[i].0, (s[i].1 - 1) as usize))
    }
}

fn is_below(k: u64, t: u64, inclusive: bool) -> (b: bool)
    ensures
        b == (if inclusive { k <= t } else { k < t }),
{
    if inclusive {
        k <= t
    } else {
        k < t
    }
}

pub struct FlushQueue {
    entries: Vec<(u64, usize)>,
}

impl FlushQueue {
    /// Pending positions with the number of operations at each, in order.
    pub closed spec fn entries(&self) -> Seq<(u64, usize)> {
        self.entries@
    }

    pub fn new() -> (q: FlushQueue)
        ensures
            q.entries() == Seq::<(u64, usize)>::empty(),
    {
        FlushQueue { entries: Vec::new() }
    }

    /// Number of pending positions.
    pub fn len(&self) -> (n: usize)
        ensures
            n == self.entries().len(),
    {
        self.entries.len()
    }

    pub fn is_empty(&self) -> (b: bool)
        ensures
            b == (self.entries().len() == 0),
    {
        self.entries.len() == 0
    }

    /// Registers an operation at position `t`.  No pending position may be
    /// greater than `t`.
    pub fn register(&mut self, t: u64)
        requires
            forall|i: int| 0 <= i < old(self).entries().len() ==> #[trigger] old(self).entries()[i].0 <= t,
            old(self).entries().len() > 0 && old(self).entries().last().0 == t ==> old(self).entries().last().1 < usize::MAX,
        ensures
            final(self).entries() == registered(old(self).entries(), t),
            well_ordered(old(self).entries()) ==> well_ordered(final(self).entries()),
            front_step(old(self).entries(), final(self).entries()),
    {
        let n = self.entries.len();
        if n > 0 && self.entries[n - 1].0 == t {
            let c = self.entries[n - 1].1;
            self.entries.set(n - 1, (t, c + 1));
        } else {
            self.entries.push((t, 1));
        }
        proof {
            assert(may_register(old(self).entries(), t) && self.entries@ == registered(old(self).entries(), t));
        }
    }

    /// The position whose operations must all finish before the post step of
    /// an operation at `t` may run: the greatest pending position below `t`.
    pub fn waits_for(&self, t: u64) -> (r: Option<u64>)
        requires
            well_ordered(self.entries()),
        ensures
            match r {
                Some(p) => greatest_with(self.entries(), p, |k: u64| k < t),
                None => none_with(self.entries(), |k: u64| k < t),
            },
    {
        self.greatest_below(t, false)
    }

    /// The greatest pending position at or below `t`, if any: waiting for it
    /// waits for every operation at or below `t`.
    pub fn pending_up_to(&self, t: u64) -> (r: Option<u64>)
        requires
            well_ordered(self.entries()),
        ensures
            match r {
                Some(p) => greatest_with(self.entries(), p, |k: u64| k <= t),
                None => none_with(self.entries(), |k: u64| k <= t),
            },
    {
        self.greatest_below(t, true)
    }

    /// The greatest pending position, if any.
    pub fn last(&self) -> (r: Option<u64>)
        requires
            well_ordered(self.entries()),
        ensures
            match r {
                Some(p) => greatest_with(self.entries(), p, |k: u64| true),
                None => self.entries().len() == 0,
            },
    {
        let n = self.entries.len();
        if n == 0 {
            None
        } else {
            Some(self.entries[n - 1].0)
        }
    }

    /// The newest pending position with the number of operations there.
    pub fn last_entry(&self) -> (r: Option<(u64, usize)>)
        ensures
            r == (if self.entries().len() == 0 {
                None::<(u64, usize)>
            } else {
                Some(self.entries().last())
            }),
    {
        let n = self.entries.len();
        if n == 0 {
            None
        } else {
            Some(self.entries[n - 1])
        }
    }

    fn greatest_below(&self, t: u64, inclusive: bool) -> (r: Option<u64>)
        requires
            well_ordered(self.entries()),
        ensures
            match r {
                Some(p) => greatest_with(self.entries(), p, |k: u64| if inclusive { k <= t } else { k < t }),
                None => none_with(self.entries(), |k: u64| if inclusive { k <= t } else { k < t }),
            },
    {
        let ghost below = |k: u64| if inclusive { k <= t } else { k < t };
        let mut i = self.entries.len();
        while i > 0 && !is_below(self.entries[i - 1].0, t, inclusive)
            invariant
                i <= self.entries@.len(),
                well_ordered(self.entries@),
                below == (|k: u64| if inclusive { k <= t } else { k < t }),
                forall|j: int| i <= j < self.entries@.len() ==> !below(#[trigger] self.entries@[j].0),
            decreases i,
        {
            i = i - 1;
        }
        if i == 0 {
            None
        } else {
            let p = self.entries[i - 1].0;
            proof {
                assert forall|j: int| 0 <= j < self.entries@.len() && below(self.entries@[j].0) implies self.entries@[j].0 <= p by {
                    if j > i - 1 {
                        assert(self.entries@[i - 1].0 < self.entries@[j].0);
                    }
                }
            }
            Some(p)
        }
    }

    /// Records that one operation at `t` has finished.  Returns `true` when
    /// it was the last one at `t`, which then leaves the queue, so those
    /// waiting on `t` may proceed.
    pub fn finish(&mut self, t: u64) -> (done: bool)
        requires
            well_ordered(old(self).entries()),
            has_position(old(self).entries(), t),
        ensures
            exists|i: int| 0 <= i < old(self).entries().len() && old(self).entries()[i].0 == t
                && final(self).entries() == finished_at(old(self).entries(), i)
                && done == (old(self).entries()[i].1 == 1),
            !has_position(final(self).entries(), t) <==> done,
            well_ordered(final(self).entries()),
            none_with(old(self).entries(), |k: u64| k < t) ==> old(self).entries()[0].0 == t
                && final(self).entries() == finished_at(old(self).entries(), 0)
                && front_step(old(self).entries(), final(self).entries()),
    {
        let mut i: usize = 0;
        let n = self.entries.len();
        while self.entries[i].0 != t
            invariant
                i < self.entries@.len(),
                n == self.entries@.len(),
                well_ordered(self.entries@),
                has_position(self.entries@, t),
                forall|j: int| 0 <= j < i ==> #[trigger] self.entries@[j].0 != t,
            decreases self.entries@.len() - i,
        {
            i = i + 1;
            proof {
                if i >= self.entries@.len() {
                    let w = choose|w: int| 0 <= w < self.entries@.len() && self.entries@[w].0 == t;
                    assert(self.entries@[w].0 != t);
                }
            }
        }
        let ghost s0 = self.entries@;
        let c = self.entries[i].1;
        if c == 1 {
            self.entries.remove(i);
            proof {
                assert(finished_at(s0, i as int) =~= self.entries@);
                assert forall|j: int| 0 <= j < self.entries@.len() implies #[trigger] self.entries@[j].0 != t by {
                    if j < i {
                        assert(self.entries@[j] == s0[j]);
                    } else {
                        assert(self.entries@[j] == s0[j + 1]);
                        assert(s0[i as int].0 < s0[j + 1].0);
                    }
                }
            }
            true
        } else {
            self.entries.set(i, (t, c - 1));
            proof {
                assert(finished_at(s0, i as int) =~= self.entries@);
                assert(self.entries@[i as int].0 == t);
            }
            false
        }
    }
}


/// Registering an operation and finishing it restores the queue.
pub proof fn lemma_register_finish_round_trip(s: Seq<(u64, usize)>, t: u64)
    requires
        well_ordered(s),
        forall|i: int| 0 <= i < s.len() ==> #[trigger] s[i].0 <= t,
        s.len() > 0 && s.last().0 == t ==> s.last().1 < usize::MAX,
    ensures
        ({
            let r = registered(s, t);
            &&& r.len() > 0
            &&& r.last().0 == t
            &&& finished_at(r, r.len() - 1) == s
        }),
{
    let r = registered(s, t);
    if s.len() > 0 && s.last().0 == t {
        assert(finished_at(r, r.len() - 1) =~= s);
    } else {
        assert(finished_at(r, r.len() - 1) =~= s);
    }
}

/// The newest operation's position is the greatest pending one, and the
/// queue stays in order.
pub proof fn lemma_registered_is_greatest(s: Seq<(u64, usize)>, t: u64)
    requires
        well_ordered(s),
        forall|i: int| 0 <= i < s.len() ==> #[trigger] s[i].0 <= t,
        s.len() > 0 && s.last().0 == t ==> s.last().1 < usize::MAX,
    ensures
        greatest_with(registered(s, t), t, |k: u64| true),
        well_ordered(registered(s, t)),
{
    let r = registered(s, t);
    assert(r[r.len() - 1].0 == t);
    assert forall|i: int| 0 <= i < r.len() implies r[i].0 <= t by {
        if i < s.len() {
            assert(r[i].0 == s[i].0 || i == r.len() - 1);
        }
    }
    assert forall|i: int, j: int| 0 <= i < j < r.len() implies r[i].0 < r[j].0 by {
        if j == r.len() - 1 && !(s.len() > 0 && s.last().0 == t) {
            assert(r[i] == s[i]);
        }
    }
}

/// An operation waits for the greatest position below its own, and every
/// other lower position is at most that one.
pub proof fn lemma_wait_covers_lower_positions(s: Seq<(u64, usize)>, t: u64, p: u64, i: int)
    requires
        greatest_with(s, p, |k: u64| k < t),
        0 <= i < s.len(),
        s[i].0 < t,
    ensures
        s[i].0 <= p < t,
{
}

/// An operation may register at `t`: no pending position is greater.
pub open spec fn may_register(s: Seq<(u64, usize)>, t: u64) -> bool {
    &&& forall|i: int| 0 <= i < s.len() ==> #[trigger] s[i].0 <= t
    &&& s.len() > 0 && s.last().0 == t ==> s.last().1 < usize::MAX
}

/// One step of the queue: an operation registers where it may, or an
/// operation at the front of the queue finishes.
pub open spec fn front_step(s: Seq<(u64, usize)>, s2: Seq<(u64, usize)>) -> bool {
    ||| exists|t: u64| may_register(s, t) && s2 == registered(s, t)
    ||| s.len() > 0 && s2 == finished_at(s, 0)
}

/// Step `k` of `trace` is a `front_step`.
pub open spec fn trace_step(trace: Seq<Seq<(u64, usize)>>, k: int) -> bool {
    front_step(trace[k], trace[k + 1])
}

/// What holds of a queue state `s` reached from `s0` while `t` stays
/// pending: the positions below `t` were all pending in `s0`, and once the
/// predecessor `p` has left, none is pending.
pub open spec fn below_settled(s0: Seq<(u64, usize)>, s: Seq<(u64, usize)>, t: u64, p: Option<u64>) -> bool {
    &&& forall|q: u64| q < t && #[trigger] has_position(s, q) ==> has_position(s0, q)
    &&& match p {
        Some(pp) => !has_position(s, pp) ==> none_with(s, |k: u64| k < t),
        None => none_with(s, |k: u64| k < t),
    }
}

proof fn lemma_finish_front_keeps_order(s: Seq<(u64, usize)>)
    requires
        well_ordered(s),
        s.len() > 0,
    ensures
        well_ordered(finished_at(s, 0)),
        forall|q: u64| #[trigger] has_position(finished_at(s, 0), q) ==> has_position(s, q),
        forall|q: u64| #[trigger] has_position(s, q) && !has_position(finished_at(s, 0), q) ==> s[0].1 == 1 && q == s[0].0,
{
    let s2 = finished_at(s, 0);
    if s[0].1 == 1 {
        assert forall|i: int| 0 <= i < s2.len() implies #[trigger] s2[i] == s[i + 1] by {}
        assert forall|q: u64| #[trigger] has_position(s2, q) implies has_position(s, q) by {
            let i = choose|i: int| 0 <= i < s2.len() && s2[i].0 == q;
            assert(s[i + 1].0 == q);
        }
        assert forall|q: u64| #[trigger] has_position(s, q) && !has_position(s2, q) implies s[0].1 == 1 && q == s[0].0 by {
            let i = choose|i: int| 0 <= i < s.len() && s[i].0 == q;
            if i > 0 {
                assert(s2[i - 1].0 == q);
            }
        }
    } else {
        assert forall|q: u64| #[trigger] has_position(s2, q) implies has_position(s, q) by {
            let i = choose|i: int| 0 <= i < s2.len() && s2[i].0 == q;
            assert(s[i].0 == q);
        }
        assert forall|q: u64| #[trigger] has_position(s, q) && !has_position(s2, q) implies s[0].1 == 1 && q == s[0].0 by {
            let i = choose|i: int| 0 <= i < s.len() && s[i].0 == q;
            assert(s2[i].0 == q);
        }
    }
}

proof fn lemma_register_keeps_positions(s: Seq<(u64, usize)>, t: u64)
    requires
        well_ordered(s),
        may_register(s, t),
    ensures
        well_ordered(registered(s, t)),
        forall|q: u64| #[trigger] has_position(registered(s, t), q) ==> has_position(s, q) || q == t,
        forall|q: u64| #[trigger] has_position(s, q) ==> has_position(registered(s, t), q),
{
    lemma_registered_is_greatest(s, t);
    let r = registered(s, t);
    assert forall|q: u64| #[trigger] has_position(r, q) implies has_position(s, q) || q == t by {
        let i = choose|i: int| 0 <= i < r.len() && r[i].0 == q;
        if i < s.len() && r[i].0 != t {
            assert(s[i].0 == q);
        }
    }
    assert forall|q: u64| #[trigger] has_position(s, q) implies has_position(r, q) by {
        let i = choose|i: int| 0 <= i < s.len() && s[i].0 == q;
        assert(r[i].0 == q);
    }
}

proof fn lemma_step_settles(s0: Seq<(u64, usize)>, s: Seq<(u64, usize)>, s2: Seq<(u64, usize)>, t: u64, p: Option<u64>)
    requires
        well_ordered(s),
        front_step(s, s2),
        has_position(s, t),
        below_settled(s0, s, t, p),
        p matches Some(pp) ==> greatest_with(s0, pp, |k: u64| k < t),
    ensures
        well_ordered(s2),
        below_settled(s0, s2, t, p),
{
    if exists|t2: u64| may_register(s, t2) && s2 == registered(s, t2) {
        let t2 = choose|t2: u64| may_register(s, t2) && s2 == registered(s, t2);
        lemma_register_keeps_positions(s, t2);
        let i = choose|i: int| 0 <= i < s.len() && s[i].0 == t;
        assert(s[i].0 <= t2);
        assert forall|q: u64| q < t && #[trigger] has_position(s2, q) implies has_position(s0, q) by {
            assert(has_position(s, q));
        }
        match p {
            Some(pp) => {
                if !has_position(s2, pp) {
                    assert(!has_position(s, pp));
                    assert forall|j: int| 0 <= j < s2.len() implies !((|k: u64| k < t)(#[trigger] s2[j].0)) by {
                        if s2[j].0 < t {
                            assert(has_position(s2, s2[j].0));
                            assert(has_position(s, s2[j].0));
                            let w = choose|w: int| 0 <= w < s.len() && s[w].0 == s2[j].0;
                            assert(!((|k: u64| k < t)(s[w].0)));
                        }
                    }
                }
            },
            None => {
                assert forall|j: int| 0 <= j < s2.len() implies !((|k: u64| k < t)(#[trigger] s2[j].0)) by {
                    if s2[j].0 < t {
                        assert(has_position(s2, s2[j].0));
                        assert(has_position(s, s2[j].0));
                        let w = choose|w: int| 0 <= w < s.len() && s[w].0 == s2[j].0;
                        assert(!((|k: u64| k < t)(s[w].0)));
                    }
                }
            },
        }
    } else {
        lemma_finish_front_keeps_order(s);
        assert forall|q: u64| q < t && #[trigger] has_position(s2, q) implies has_position(s0, q) by {
            assert(has_position(s, q));
        }
        assert forall|j: int| 0 <= j < s2.len() && (p is None || !has_position(s2, p->Some_0))
            implies !((|k: u64| k < t)(#[trigger] s2[j].0)) by {
            let q = s2[j].0;
            if q < t {
                assert(has_position(s2, q));
                assert(has_position(s, q));
                match p {
                    Some(pp) => {
                        if has_position(s, pp) {
                            // The predecessor left at this step: it was the front.
                            assert(pp == s[0].0);
                            assert(has_position(s0, q));
                            let w0 = choose|w: int| 0 <= w < s0.len() && s0[w].0 == q;
                            assert((|k: u64| k < t)(s0[w0].0));
                            assert(q <= pp);
                            let w = choose|w: int| 0 <= w < s.len() && s[w].0 == q;
                            if w == 0 {
                                assert(q == pp);
                            } else {
                                assert(s[0].0 < s[w].0);
                            }
                        } else {
                            let w = choose|w: int| 0 <= w < s.len() && s[w].0 == q;
                            assert(!((|k: u64| k < t)(s[w].0)));
                        }
                    },
                    None => {
                        let w = choose|w: int| 0 <= w < s.len() && s[w].0 == q;
                        assert(!((|k: u64| k < t)(s[w].0)));
                    },
                }
            }
        }
    }
}

proof fn lemma_trace_settles(trace: Seq<Seq<(u64, usize)>>, t: u64, p: Option<u64>)
    requires
        trace.len() >= 1,
        well_ordered(trace[0]),
        forall|k: int| 0 <= k < trace.len() - 1 ==> #[trigger] trace_step(trace, k),
        forall|k: int| 0 <= k < trace.len() ==> #[trigger] has_position(trace[k], t),
        p matches Some(pp) ==> greatest_with(trace[0], pp, |k: u64| k < t),
        p is None ==> none_with(trace[0], |k: u64| k < t),
    ensures
        well_ordered(trace.last()),
        below_settled(trace[0], trace.last(), t, p),
    decreases trace.len(),
{
    if trace.len() == 1 {
        match p {
            Some(pp) => {
                assert(has_position(trace[0], pp));
            },
            None => {},
        }
    } else {
        let prefix = trace.drop_last();
        assert forall|k: int| 0 <= k < prefix.len() - 1 implies #[trigger] trace_step(prefix, k) by {
            assert(trace_step(trace, k));
        }
        assert forall|k: int| 0 <= k < prefix.len() implies #[trigger] has_position(prefix[k], t) by {
            assert(has_position(trace[k], t));
        }
        lemma_trace_settles(prefix, t, p);
        let n = trace.len() - 1;
        assert(trace_step(trace, n - 1));
        assert(has_position(trace[n - 1], t));
        lemma_step_settles(trace[0], trace[n - 1], trace[n], t, p);
    }
}

/// Post steps run in the order of positions.  An operation at `t` looks,
/// in queue state `trace[0]`, for its predecessor: the greatest pending
/// position below `t` (`p`), if any.  From then on, operations register
/// only where they may and finish only at the front of the queue, and `t`
/// stays pending.  Once the predecessor has left (or if there was none), no
/// position below `t` is pending: the operation is at the front, and its
/// post step runs after those of every lower operation.
pub proof fn lemma_post_runs_in_order(trace: Seq<Seq<(u64, usize)>>, t: u64, p: Option<u64>)
    requires
        trace.len() >= 1,
        well_ordered(trace[0]),
        forall|k: int| 0 <= k < trace.len() - 1 ==> #[trigger] trace_step(trace, k),
        forall|k: int| 0 <= k < trace.len() ==> #[trigger] has_position(trace[k], t),
        p matches Some(pp) ==> greatest_with(trace[0], pp, |k: u64| k < t) && !has_position(trace.last(), pp),
        p is None ==> none_with(trace[0], |k: u64| k < t),
    ensures
        none_with(trace.last(), |k: u64| k < t),
        trace.last().len() > 0 && trace.last()[0].0 == t,
{
    lemma_trace_settles(trace, t, p);
    let s = trace.last();
    assert(has_position(trace[trace.len() - 1], t));
    let w = choose|w: int| 0 <= w < s.len() && s[w].0 == t;
    assert(!((|k: u64| k < t)(s[0].0)));
    if w > 0 {
        assert(s[0].0 < s[w].0);
    }
}

proof fn lemma_trace_well_ordered(trace: Seq<Seq<(u64, usize)>>)
    requires
        trace.len() >= 1,
        well_ordered(trace[0]),
        forall|k: int| 0 <= k < trace.len() - 1 ==> #[trigger] trace_step(trace, k),
    ensures
        forall|k: int| 0 <= k < trace.len() ==> #[trigger] well_ordered(trace[k]),
    decreases trace.len(),
{
    if trace.len() > 1 {
        let prefix = trace.drop_last();
        assert forall|k: int| 0 <= k < prefix.len() - 1 implies #[trigger] trace_step(prefix, k) by {
            assert(trace_step(trace, k));
        }
        lemma_trace_well_ordered(prefix);
        let n = trace.len() - 1;
        assert(well_ordered(prefix[n - 1]));
        assert(trace_step(trace, n - 1));
        let s = trace[n - 1];
        if exists|t2: u64| may_register(s, t2) && trace[n] == registered(s, t2) {
            let t2 = choose|t2: u64| may_register(s, t2) && trace[n] == registered(s, t2);
            lemma_register_keeps_positions(s, t2);
        } else {
            lemma_finish_front_keeps_order(s);
        }
        assert forall|k: int| 0 <= k < trace.len() implies #[trigger] well_ordered(trace[k]) by {
            if k < n {
                assert(well_ordered(prefix[k]));
            }
        }
    }
}

/// Waiting for every operation at or below `t` (`wait_for_pending`) works.
/// When the call is made, in queue state `trace[0]`, it waits for `p`, the
/// greatest pending position at or below `t`.  From then on, operations
/// register only where they may and finish only at the front of the queue.
/// In the first state where `p` is no longer pending, no position at or
/// below `p` is pending, so every operation at or below `t` that was
/// pending at the call has finished.
pub proof fn lemma_wait_for_pending_covers(trace: Seq<Seq<(u64, usize)>>, t: u64, p: u64)
    requires
        trace.len() >= 2,
        well_ordered(trace[0]),
        forall|k: int| 0 <= k < trace.len() - 1 ==> #[trigger] trace_step(trace, k),
        greatest_with(trace[0], p, |k: u64| k <= t),
        forall|k: int| 0 <= k < trace.len() - 1 ==> #[trigger] has_position(trace[k], p),
        !has_position(trace.last(), p),
    ensures
        none_with(trace.last(), |k: u64| k <= p),
        forall|i: int| 0 <= i < trace[0].len() && trace[0][i].0 <= t ==> trace[0][i].0 <= p,
{
    lemma_trace_well_ordered(trace);
    let n = trace.len() - 1;
    let s = trace[n - 1];
    let s2 = trace[n];
    assert(trace_step(trace, n - 1));
    assert(has_position(s, p));
    assert(well_ordered(s));
    if exists|t2: u64| may_register(s, t2) && s2 == registered(s, t2) {
        let t2 = choose|t2: u64| may_register(s, t2) && s2 == registered(s, t2);
        lemma_register_keeps_positions(s, t2);
        assert(false);
    } else {
        lemma_finish_front_keeps_order(s);
        assert(s[0].1 == 1 && p == s[0].0);
        assert forall|j: int| 0 <= j < s2.len() implies !((|k: u64| k <= p)(#[trigger] s2[j].0)) by {
            assert(s2[j] == s[j + 1]);
            assert(s[0].0 < s[j + 1].0);
        }
    }
    assert forall|i: int| 0 <= i < trace[0].len() && trace[0][i].0 <= t implies trace[0][i].0 <= p by {
        assert((|k: u64| k <= t)(trace[0][i].0));
    }
}

} // verus!
