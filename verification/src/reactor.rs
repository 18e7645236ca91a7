//! A reactor's start-up.
//!
//! When a reactor runs, it waits on its `cpu_started` semaphore for one unit
//! from every shard, itself included, and sends each shard a task that
//! deposits one unit on that shard's `cpu_started`.  Once all the units have
//! arrived, the reactor deposits one unit on its `started` semaphore, which
//! `when_started` waits for.  Units may arrive before the reactor runs.
use vstd::prelude::*;
use crate::semaphore::{
    lemma_total_units_of_ones, lemma_total_units_single, served, total_units, Semaphore, SemaphoreWait,
};
use crate::smp::{Route, SmpQueues};

verus! {

pub struct Reactor<C> {
    id: usize,
    smp_queues: SmpQueues<C>,
    started: Semaphore,
    cpu_started: Semaphore,
    has_run: Ghost<bool>,
    notified: Ghost<nat>,
}

/// Starting deposits one unit: it serves the oldest `when_started` request
/// if there is one, and stays on the semaphore otherwise.
pub open spec fn started_now(before: Seq<usize>, after: Seq<usize>, units: nat, woken: usize) -> bool {
    if before.len() > 0 {
        woken == 1 && after == before.drop_first() && units == 0
    } else {
        woken == 0 && after == before && units == 1
    }
}

/// The one unit that starting deposits serves at most the oldest of the
/// `when_started` requests, each of one unit, and leaves the rest waiting.
proof fn lemma_started_signal(waiters: Seq<usize>, k: int)
    requires
        served(1, waiters, k),
        forall|i: int| 0 <= i < waiters.len() ==> #[trigger] waiters[i] == 1,
    ensures
        waiters.len() > 0 ==> k == 1 && waiters.skip(k) == waiters.drop_first(),
        waiters.len() == 0 ==> k == 0 && waiters.skip(k) == waiters,
        total_units(waiters.take(k)) == k,
        forall|i: int| 0 <= i < waiters.skip(k).len() ==> #[trigger] waiters.skip(k)[i] == 1,
{
    lemma_total_units_of_ones(waiters, k);
    if k < waiters.len() {
        lemma_total_units_of_ones(waiters, k + 1);
    }
    assert(waiters.skip(1) =~= waiters.drop_first());
    assert(waiters.skip(0) =~= waiters);
    assert forall|i: int| 0 <= i < waiters.skip(k).len() implies #[trigger] waiters.skip(k)[i] == 1 by {
        assert(waiters.skip(k)[i] == waiters[i + k]);
    }
}

impl<C> Reactor<C> {
    pub closed spec fn spec_id(&self) -> usize {
        self.id
    }

    /// The number of shards.
    pub closed spec fn smp_count(&self) -> nat {
        self.smp_queues.spec_smp_count() as nat
    }

    /// The shards' channels.
    pub closed spec fn queues(&self) -> SmpQueues<C> {
        self.smp_queues
    }

    /// `run` was called.
    pub closed spec fn has_run(&self) -> bool {
        self.has_run@
    }

    /// How many shards have reported that their CPU started.
    pub closed spec fn notifications(&self) -> nat {
        self.notified@
    }

    /// The reactor has run and every shard has reported.
    pub open spec fn is_started(&self) -> bool {
        self.has_run() && self.notifications() >= self.smp_count()
    }

    /// Units on the `started` semaphore, for `when_started`.
    pub closed spec fn started_units(&self) -> nat {
        self.started.count()
    }

    /// Pending `when_started` requests, oldest first.
    pub closed spec fn started_waiters(&self) -> Seq<usize> {
        self.started.waiters()
    }

    pub closed spec fn wf(&self) -> bool {
        let n = self.smp_count();
        &&& self.smp_queues.wf()
        &&& n >= 1
        &&& self.cpu_started.wf()
        &&& self.started.wf()
        &&& !self.cpu_started.is_broken()
        &&& !self.started.is_broken()
        &&& !self.has_run@ ==> {
            &&& self.cpu_started.count() == self.notified@
            &&& self.cpu_started.waiters() == Seq::<usize>::empty()
        }
        &&& self.has_run@ && self.notified@ < n ==> {
            &&& self.cpu_started.count() == self.notified@
            &&& self.cpu_started.waiters() == seq![n as usize]
        }
        &&& self.has_run@ && self.notified@ >= n ==> {
            &&& self.cpu_started.count() == self.notified@ - n
            &&& self.cpu_started.waiters() == Seq::<usize>::empty()
        }
        &&& !self.is_started() ==> self.started.count() == 0
        &&& self.started.count() <= 1
        &&& forall|i: int| 0 <= i < self.started.waiters().len() ==> #[trigger] self.started.waiters()[i] == 1
    }

    /// The reactor of shard `id`, with its channels to every shard; nothing
    /// has started yet.
    pub fn create(id: usize, smp_queues: SmpQueues<C>) -> (r: Reactor<C>)
        requires
            smp_queues.wf(),
            smp_queues.spec_smp_count() >= 1,
        ensures
            r.wf(),
            r.spec_id() == id,
            r.queues() == smp_queues,
            !r.has_run(),
            r.notifications() == 0,
            r.started_units() == 0,
            r.started_waiters() == Seq::<usize>::empty(),
    {
        Reactor {
            id,
            smp_queues,
            started: Semaphore::new(0),
            cpu_started: Semaphore::new(0),
            has_run: Ghost(false),
            notified: Ghost(0),
        }
    }

    pub fn id(&self) -> (id: usize)
        ensures
            id == self.spec_id(),
    {
        self.id
    }

    /// Starts the reactor: it begins to wait for every shard to report, and
    /// returns where to send each shard, in the order of their ids, the task
    /// that reports to that shard.  If every shard has already reported, the
    /// reactor is started at once; the second result is then the number of
    /// `when_started` requests, counted from the oldest, that this serves,
    /// and otherwise 0.
    pub fn run(&mut self) -> (r: (Vec<Route>, usize))
        requires
            old(self).wf(),
            !old(self).has_run(),
        ensures
            final(self).wf(),
            final(self).has_run(),
            final(self).notifications() == old(self).notifications(),
            final(self).spec_id() == old(self).spec_id(),
            final(self).queues() == old(self).queues(),
            r.0@.len() == old(self).smp_count(),
            forall|i: int| 0 <= i < r.0@.len() ==> #[trigger] r.0@[i] == (if i == old(self).queues().spec_reactor_id() {
                Route::Local
            } else {
                Route::Remote(i as usize)
            }),
            final(self).is_started() ==> old(self).started_units() == 0 && started_now(
                old(self).started_waiters(),
                final(self).started_waiters(),
                final(self).started_units(),
                r.1,
            ),
            !final(self).is_started() ==> r.1 == 0 && final(self).started_waiters() == old(self).started_waiters()
                && final(self).started_units() == old(self).started_units(),
    {
        let n = self.smp_queues.smp_count();
        let w = self.cpu_started.wait(n);
        proof {
            self.has_run = Ghost(true);
        }
        let mut woken: usize = 0;
        if w == SemaphoreWait::Ready {
            woken = self.started.signal(1);
            proof {
                lemma_started_signal(old(self).started.waiters(), woken as int);
            }
        }
        let mut routes: Vec<Route> = Vec::new();
        let mut i: usize = 0;
        while i < n
            invariant
                i <= n,
                n == self.smp_queues.spec_smp_count(),
                self.smp_queues.wf(),
                routes@.len() == i,
                forall|j: int| 0 <= j < i ==> #[trigger] routes@[j] == (if j == self.smp_queues.spec_reactor_id() {
                    Route::Local
                } else {
                    Route::Remote(j as usize)
                }),
            decreases n - i,
        {
            let route = self.smp_queues.submit_to(i);
            routes.push(route);
            i = i + 1;
        }
        (routes, woken)
    }

    /// The task that a shard sent this reactor has run: one more shard has
    /// reported.  If this completes the reports of a reactor that runs, the
    /// reactor is started, and the result is the number of `when_started`
    /// requests, counted from the oldest, that this serves; otherwise 0.
    pub fn on_cpu_started(&mut self) -> (woken: usize)
        requires
            old(self).wf(),
            old(self).notifications() < usize::MAX,
        ensures
            final(self).wf(),
            final(self).notifications() == old(self).notifications() + 1,
            final(self).has_run() == old(self).has_run(),
            final(self).spec_id() == old(self).spec_id(),
            final(self).queues() == old(self).queues(),
            !old(self).is_started() && final(self).is_started() ==> old(self).started_units() == 0 && started_now(
                old(self).started_waiters(),
                final(self).started_waiters(),
                final(self).started_units(),
                woken,
            ),
            !(!old(self).is_started() && final(self).is_started()) ==> woken == 0
                && final(self).started_waiters() == old(self).started_waiters()
                && final(self).started_units() == old(self).started_units(),
    {
        let k = self.cpu_started.signal(1);
        proof {
            self.notified = Ghost(self.notified@ + 1);
            if self.has_run@ && old(self).notified@ + 1 == self.smp_count() {
                crate::semaphore::lemma_front_served_when_covered(
                    (old(self).cpu_started.count() + 1) as int,
                    old(self).cpu_started.waiters(),
                    k as int,
                );
                assert(old(self).cpu_started.waiters().take(1) =~= seq![self.smp_count() as usize]);
                lemma_total_units_single(self.smp_count() as usize);
                assert(self.cpu_started.waiters() =~= Seq::<usize>::empty());
            } else if self.has_run@ && old(self).notified@ + 1 < self.smp_count() {
                crate::semaphore::lemma_no_overtaking(
                    (old(self).cpu_started.count() + 1) as int,
                    old(self).cpu_started.waiters(),
                    k as int,
                );
                assert(old(self).cpu_started.waiters().skip(0) =~= old(self).cpu_started.waiters());
                assert(old(self).cpu_started.waiters().take(0) =~= Seq::<usize>::empty());
            } else {
                assert(old(self).cpu_started.waiters().take(0) =~= Seq::<usize>::empty());
            }
        }
        if k > 0 {
            let woken = self.started.signal(1);
            proof {
                lemma_started_signal(old(self).started.waiters(), woken as int);
            }
            woken
        } else {
            0
        }
    }

    /// Waits until the reactor is started: the request takes the unit that
    /// starting deposits, so only one request is ever served.
    pub fn when_started(&mut self) -> (r: SemaphoreWait)
        requires
            old(self).wf(),
        ensures
            final(self).wf(),
            final(self).notifications() == old(self).notifications(),
            final(self).has_run() == old(self).has_run(),
            final(self).spec_id() == old(self).spec_id(),
            final(self).queues() == old(self).queues(),
            old(self).started_units() >= 1 && old(self).started_waiters().len() == 0 ==> {
                &&& r == SemaphoreWait::Ready
                &&& final(self).started_units() == old(self).started_units() - 1
                &&& final(self).started_waiters() == old(self).started_waiters()
            },
            !(old(self).started_units() >= 1 && old(self).started_waiters().len() == 0) ==> {
                &&& r == SemaphoreWait::Wait
                &&& final(self).started_units() == old(self).started_units()
                &&& final(self).started_waiters() == old(self).started_waiters().push(1)
            },
            !old(self).is_started() ==> r == SemaphoreWait::Wait,
    {
        self.started.wait(1)
    }
}

} // verus!
