//! Routing of work between the shards of a machine.
//!
//! Every shard holds one channel to each shard, itself included, indexed by
//! the other shard's id.  Work for the shard itself runs locally; other work
//! goes through the channel to its shard.
use vstd::prelude::*;

verus! {

/// Where work submitted for a shard goes.
#[derive(Debug, Clone, Copy, PartialEq, Eq, Structural)]
pub enum Route {
    /// Run it on this shard.
    Local,
    /// Send it through the channel to the shard with this id.
    Remote(usize),
}

/// Work items exchanged between shards.
pub trait AsyncItem {
}

/// A source of work that the event loop polls.
pub trait PollFn {
    /// Returns true if work was done (false = idle).
    fn poll(&self) -> bool;

    /// Checks if work needs to be done, but without doing any; returns true
    /// if work needs to be done (false = idle).
    fn pure_poll(&self) -> bool;

    /// Tries to enter interrupt mode.  If it returns true, events from this
    /// poller will wake a sleeping idle loop, and `exit_interrupt_mode` must
    /// be called to return to normal polling.  If it returns false, the
    /// sleeping idle loop may not be entered.
    fn try_enter_interrupt_mode(&self) -> (entered: bool)
        default_ensures
            !entered,
    {
        false
    }

    fn exit_interrupt_mode(&self) {
    }
}

/// The channels of one shard to every shard.
pub struct SmpQueues<C> {
    reactor_id: usize,
    smp_count: usize,
    queues: Vec<C>,
}

impl<C> SmpQueues<C> {
    pub closed spec fn spec_reactor_id(&self) -> usize {
        self.reactor_id
    }

    pub closed spec fn spec_smp_count(&self) -> usize {
        self.smp_count
    }

    pub closed spec fn spec_queues(&self) -> Seq<C> {
        self.queues@
    }

    /// One channel for each shard.
    pub open spec fn wf(&self) -> bool {
        self.spec_queues().len() == self.spec_smp_count()
    }

    /// The channels of shard `reactor_id`, one for each of the `smp_count`
    /// shards.
    pub fn new(reactor_id: usize, smp_count: usize, queues: Vec<C>) -> (q: SmpQueues<C>)
        requires
            queues@.len() == smp_count,
        ensures
            q.spec_reactor_id() == reactor_id,
            q.spec_smp_count() == smp_count,
            q.spec_queues() == queues@,
            q.wf(),
    {
        SmpQueues { reactor_id, smp_count, queues }
    }

    pub fn reactor_id(&self) -> (id: usize)
        ensures
            id == self.spec_reactor_id(),
    {
        self.reactor_id
    }

    pub fn smp_count(&self) -> (n: usize)
        ensures
            n == self.spec_smp_count(),
    {
        self.smp_count
    }

    /// Where work for shard `reactor_id` goes: this shard runs its own work,
    /// other work goes through the channel to its shard.
    pub fn submit_to(&self, reactor_id: usize) -> (r: Route)
        requires
            reactor_id == self.spec_reactor_id() || reactor_id < self.spec_queues().len(),
        ensures
            reactor_id == self.spec_reactor_id() ==> r == Route::Local,
            reactor_id != self.spec_reactor_id() ==> r == Route::Remote(reactor_id),
    {
        if reactor_id == self.reactor_id {
            Route::Local
        } else {
            Route::Remote(reactor_id)
        }
    }

    /// The channel to shard `reactor_id`.
    pub fn queue(&self, reactor_id: usize) -> (c: &C)
        requires
            reactor_id < self.spec_queues().len(),
        ensures
            *c == self.spec_queues()[reactor_id as int],
    {
        &self.queues[reactor_id]
    }

    /// Polls the channels of the other shards on behalf of the reactor with
    /// id `reactor`.  No channel yet carries work back, so nothing is done.
    pub fn poll_queues(&self, reactor: usize) -> (got: bool)
        ensures
            !got,
    {
        false
    }

    /// Whether the channels hold work, without doing any: they do not.
    pub fn pure_poll_queues(&self, reactor: usize) -> (got: bool)
        ensures
            !got,
    {
        false
    }
}

/// The poller of a shard's channels.
pub struct SmpPollFn<'a, C> {
    pub smp_queues: &'a SmpQueues<C>,
    pub reactor: usize,
}

impl<'a, C> SmpPollFn<'a, C> {
    pub fn new(smp_queues: &'a SmpQueues<C>, reactor: usize) -> (p: SmpPollFn<'a, C>)
        ensures
            p.smp_queues == smp_queues,
            p.reactor == reactor,
    {
        SmpPollFn { smp_queues, reactor }
    }
}

impl<'a, C> PollFn for SmpPollFn<'a, C> {
    /// No channel carries work back yet: no work is done.
    fn poll(&self) -> (got: bool)
        ensures
            !got,
    {
        self.smp_queues.poll_queues(self.reactor)
    }

    /// No channel carries work back yet: no work is waiting.
    fn pure_poll(&self) -> (got: bool)
        ensures
            !got,
    {
        self.smp_queues.pure_poll_queues(self.reactor)
    }
}


/// One end of a channel pair: the pair's number, in the order the pairs are
/// made, and whether it is the pair's first end.
#[derive(Debug, Clone, Copy, PartialEq, Eq, Structural)]
pub struct ChannelEnd {
    pub pair: usize,
    pub first: bool,
}

/// The number of the first pair made for shard `a`: shard `i` makes one
/// pair with each shard from `i` up to `n - 1`.
pub open spec fn row_base(n: nat, a: nat) -> nat
    decreases a,
{
    if a == 0 {
        0
    } else {
        row_base(n, (a - 1) as nat) + (n - (a - 1)) as nat
    }
}

/// The number of the pair that connects shards `a <= b`.
pub open spec fn pair_index(n: nat, a: nat, b: nat) -> nat {
    row_base(n, a) + (b - a) as nat
}

/// The end of a pair that shard `r` holds for shard `c`.  Pairs are made
/// for `r <= c` in order; shard `r` takes the first end and shard `c` the
/// second.  A shard's channel to itself is the second end of its own pair.
pub open spec fn planned_end(n: nat, r: nat, c: nat) -> ChannelEnd {
    if r < c {
        ChannelEnd { pair: pair_index(n, r, c) as usize, first: true }
    } else {
        ChannelEnd { pair: pair_index(n, c, r) as usize, first: false }
    }
}

proof fn lemma_row_base_bounds(n: nat, a: nat)
    requires
        a <= n,
    ensures
        row_base(n, a) <= a * n,
    decreases a,
{
    if a > 0 {
        lemma_row_base_bounds(n, (a - 1) as nat);
        assert((a - 1) * n + n == a * n) by (nonlinear_arith);
    }
}

proof fn lemma_row_base_monotone(n: nat, a: nat, b: nat)
    requires
        a <= b <= n,
    ensures
        row_base(n, a) <= row_base(n, b),
    decreases b - a,
{
    if a < b {
        lemma_row_base_monotone(n, a, (b - 1) as nat);
    }
}

/// For `n` shards, which end of which pair each shard holds for each shard.
/// Shard `r`'s channel for shard `c` is entry `c` of row `r`.
pub fn channel_plan(n: usize) -> (plan: Vec<Vec<ChannelEnd>>)
    requires
        n * n <= usize::MAX,
    ensures
        plan@.len() == n,
        forall|r: int| 0 <= r < n ==> #[trigger] plan@[r]@.len() == n,
        forall|r: int, c: int| 0 <= r < n && 0 <= c < n ==> #[trigger] plan@[r]@[c] == planned_end(
            n as nat,
            r as nat,
            c as nat,
        ),
{
    let mut bases: Vec<usize> = Vec::new();
    let mut base: usize = 0;
    let mut a: usize = 0;
    while a < n
        invariant
            a <= n,
            n * n <= usize::MAX,
            bases@.len() == a,
            base == row_base(n as nat, a as nat),
            forall|i: int| 0 <= i < a ==> #[trigger] bases@[i] == row_base(n as nat, i as nat),
        decreases n - a,
    {
        bases.push(base);
        proof {
            lemma_row_base_bounds(n as nat, (a + 1) as nat);
            assert((a + 1) * n <= n * n) by (nonlinear_arith)
                requires
                    a + 1 <= n,
            ;
        }
        base = base + (n - a);
        a = a + 1;
    }
    let mut plan: Vec<Vec<ChannelEnd>> = Vec::new();
    let mut r: usize = 0;
    while r < n
        invariant
            r <= n,
            n * n <= usize::MAX,
            bases@.len() == n,
            forall|i: int| 0 <= i < n ==> #[trigger] bases@[i] == row_base(n as nat, i as nat),
            plan@.len() == r,
            forall|i: int| 0 <= i < r ==> #[trigger] plan@[i]@.len() == n,
            forall|i: int, c: int| 0 <= i < r && 0 <= c < n ==> #[trigger] plan@[i]@[c] == planned_end(
                n as nat,
                i as nat,
                c as nat,
            ),
        decreases n - r,
    {
        let mut row: Vec<ChannelEnd> = Vec::new();
        let mut c: usize = 0;
        while c < n
            invariant
                c <= n,
                r < n,
                n * n <= usize::MAX,
                bases@.len() == n,
                forall|i: int| 0 <= i < n ==> #[trigger] bases@[i] == row_base(n as nat, i as nat),
                row@.len() == c,
                forall|j: int| 0 <= j < c ==> #[trigger] row@[j] == planned_end(n as nat, r as nat, j as nat),
            decreases n - c,
        {
            let (lo, hi) = if r < c { (r, c) } else { (c, r) };
            proof {
                lemma_row_base_bounds(n as nat, lo as nat);
                assert(lo * n + (n - 1) < n * n) by (nonlinear_arith)
                    requires
                        lo < n,
                ;
            }
            let pair = bases[lo] + (hi - lo);
            row.push(ChannelEnd { pair, first: r < c });
            c = c + 1;
        }
        plan.push(row);
        r = r + 1;
    }
    plan
}

/// The channels of every one of `n` shards: shard `r` gets reactor id `r`,
/// the shard count `n`, and, for each shard `c`, the end of a channel pair
/// that the plan gives it for `c`.
pub fn shard_queues(n: usize) -> (qs: Vec<SmpQueues<ChannelEnd>>)
    requires
        n * n <= usize::MAX,
    ensures
        qs@.len() == n,
        forall|r: int| 0 <= r < n ==> (#[trigger] qs@[r]).spec_reactor_id() == r && qs@[r].spec_smp_count() == n
            && qs@[r].wf(),
        forall|r: int, c: int| 0 <= r < n && 0 <= c < n ==> #[trigger] qs@[r].spec_queues()[c] == planned_end(
            n as nat,
            r as nat,
            c as nat,
        ),
{
    let plan = channel_plan(n);
    let ghost p0 = plan@;
    let mut rows = plan;
    let mut qs: Vec<SmpQueues<ChannelEnd>> = Vec::new();
    let mut r: usize = 0;
    while r < n
        invariant
            r <= n,
            p0.len() == n,
            forall|i: int| 0 <= i < n ==> #[trigger] p0[i]@.len() == n,
            forall|i: int, c: int| 0 <= i < n && 0 <= c < n ==> #[trigger] p0[i]@[c] == planned_end(
                n as nat,
                i as nat,
                c as nat,
            ),
            rows@ == p0.skip(r as int),
            qs@.len() == r,
            forall|i: int| 0 <= i < r ==> (#[trigger] qs@[i]).spec_reactor_id() == i && qs@[i].spec_smp_count() == n
                && qs@[i].wf(),
            forall|i: int, c: int| 0 <= i < r && 0 <= c < n ==> #[trigger] qs@[i].spec_queues()[c] == planned_end(
                n as nat,
                i as nat,
                c as nat,
            ),
        decreases n - r,
    {
        let row = rows.remove(0);
        proof {
            assert(row == p0[r as int]);
            assert(rows@ =~= p0.skip(r + 1));
        }
        let q = SmpQueues::new(r, n, row);
        qs.push(q);
        r = r + 1;
    }
    qs
}

/// The two ends of a channel between distinct shards belong to one pair:
/// one shard holds its first end and the other its second.
pub proof fn lemma_plan_connects_both_ways(n: nat, r: nat, c: nat)
    requires
        r != c,
    ensures
        planned_end(n, r, c).pair == planned_end(n, c, r).pair,
        planned_end(n, r, c).first != planned_end(n, c, r).first,
{
}

/// Distinct pairs of shards get distinct channel pairs.
pub proof fn lemma_pairs_distinct(n: nat, a: nat, b: nat, a2: nat, b2: nat)
    requires
        a <= b < n,
        a2 <= b2 < n,
        a != a2 || b != b2,
    ensures
        pair_index(n, a, b) != pair_index(n, a2, b2),
{
    if a < a2 {
        lemma_row_base_monotone(n, a + 1, a2);
    } else if a2 < a {
        lemma_row_base_monotone(n, a2 + 1, a);
    }
}

} // verus!
