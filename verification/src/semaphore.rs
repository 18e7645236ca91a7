//! Counted resource guard: a semaphore whose waiters are served in FIFO order.
//!
//! Units are deposited with `signal` and taken with `wait`.  A `wait` that
//! cannot be served at once joins the end of the wait list; a `signal` serves
//! waiters from the front of the list for as long as the counter covers the
//! request at the front.  The futures that callers block on are kept outside
//! this type, in the same order as the wait list: `signal` reports how many of
//! them, counted from the front, become ready.
//!
//! To support exceptional conditions, `broken` causes all current waiters to
//! stop waiting with an error, and makes later requests that cannot be served
//! at once fail instead of waiting.
use vstd::prelude::*;
use std::collections::VecDeque;

verus! {

/// Sum of a sequence of unit requests.
pub open spec fn total_units(s: Seq<usize>) -> int
    decreases s.len(),
{
    if s.len() == 0 {
        0
    } else {
        total_units(s.drop_last()) + s.last()
    }
}

/// The number of waiters, counted from the front of `waiters`, that `count`
/// units serve in FIFO order: the prefix of that length fits in `count`, and
/// either every waiter is served or the next one no longer fits.
pub open spec fn served(count: int, waiters: Seq<usize>, k: int) -> bool {
    &&& 0 <= k <= waiters.len()
    &&& total_units(waiters.take(k)) <= count
    &&& (k == waiters.len() || total_units(waiters.take(k + 1)) > count)
}

/// The outcome of `Semaphore::wait`.
#[derive(PartialEq, Eq, Structural, Debug, Clone, Copy)]
pub enum SemaphoreWait {
    /// The units were taken at once.
    Ready,
    /// The request joined the end of the wait list.
    Wait,
    /// The semaphore is broken: the request fails.
    Broken,
}

/// The error of waiting on a broken semaphore.
#[derive(PartialEq, Eq, Structural, Debug, Clone, Copy)]
pub struct Broken;

pub struct Semaphore {
    count: usize,
    wait_list: VecDeque<usize>,
    broken: bool,
}

impl Semaphore {
    /// Units available in the counter.
    pub closed spec fn count(&self) -> nat {
        self.count as nat
    }

    /// Pending requests, oldest first.
    pub closed spec fn waiters(&self) -> Seq<usize> {
        self.wait_list@
    }

    pub closed spec fn is_broken(&self) -> bool {
        self.broken
    }

    /// Every pending request asks for at least one unit, and the oldest one
    /// asks for more than the counter holds.
    pub open spec fn wf(&self) -> bool {
        &&& forall|i: int| 0 <= i < self.waiters().len() ==> #[trigger] self.waiters()[i] >= 1
        &&& self.waiters().len() > 0 ==> self.waiters()[0] > self.count()
    }

    /// Constructs a semaphore with `count` units in its counter.
    pub fn new(count: usize) -> (s: Semaphore)
        ensures
            s.count() == count,
            s.waiters() == Seq::<usize>::empty(),
            !s.is_broken(),
            s.wf(),
    {
        Semaphore { count, wait_list: VecDeque::new(), broken: false }
    }

    /// The units in the counter.
    pub fn current(&self) -> (n: usize)
        ensures
            n == self.count(),
    {
        self.count
    }

    /// Takes `nr` units at once when they are available and nobody waits;
    /// otherwise the request fails if the semaphore is broken, and joins the
    /// end of the wait list if not.
    pub fn wait(&mut self, nr: usize) -> (r: SemaphoreWait)
        requires
            nr >= 1,
        ensures
            final(self).is_broken() == old(self).is_broken(),
            old(self).count() >= nr && old(self).waiters().len() == 0 ==> {
                &&& r == SemaphoreWait::Ready
                &&& final(self).count() == old(self).count() - nr
                &&& final(self).waiters() == old(self).waiters()
            },
            !(old(self).count() >= nr && old(self).waiters().len() == 0) && old(self).is_broken() ==> {
                &&& r == SemaphoreWait::Broken
                &&& final(self).count() == old(self).count()
                &&& final(self).waiters() == old(self).waiters()
            },
            !(old(self).count() >= nr && old(self).waiters().len() == 0) && !old(self).is_broken() ==> {
                &&& r == SemaphoreWait::Wait
                &&& final(self).count() == old(self).count()
                &&& final(self).waiters() == old(self).waiters().push(nr)
            },
            old(self).wf() ==> final(self).wf(),
    {
        if self.count >= nr && self.wait_list.len() == 0 {
            self.count = self.count - nr;
            SemaphoreWait::Ready
        } else if self.broken {
            SemaphoreWait::Broken
        } else {
            self.wait_list.push_back(nr);
            SemaphoreWait::Wait
        }
    }

    /// Deposits `nr` units, then serves waiters from the front of the list
    /// while the oldest request fits in the counter.  Returns how many
    /// waiters were served; they leave the list and their units leave the
    /// counter.  A broken semaphore ignores the deposit.
    pub fn signal(&mut self, nr: usize) -> (k: usize)
        requires
            nr >= 1,
            !old(self).is_broken() ==> old(self).count() + nr <= usize::MAX,
        ensures
            final(self).is_broken() == old(self).is_broken(),
            old(self).is_broken() ==> k == 0 && final(self).count() == old(self).count()
                && final(self).waiters() == old(self).waiters(),
            !old(self).is_broken() ==> served(old(self).count() + nr, old(self).waiters(), k as int),
            !old(self).is_broken() ==> final(self).waiters() == old(self).waiters().skip(k as int),
            !old(self).is_broken() ==> final(self).count() == old(self).count() + nr - total_units(
                old(self).waiters().take(k as int),
            ),
            old(self).wf() ==> final(self).wf(),
    {
        if self.broken {
            return 0;
        }
        let ghost w0 = self.wait_list@;
        let ghost total = self.count + nr;
        assert(w0.len() == self.wait_list.len());
        self.count = self.count + nr;
        let mut k: usize = 0;
        proof {
            assert(w0.take(0) =~= Seq::<usize>::empty());
            assert(w0.skip(0) =~= w0);
        }
        while self.wait_list.len() > 0 && self.wait_list[0] <= self.count
            invariant
                k <= w0.len(),
                !self.broken,
                w0.len() <= usize::MAX,
                self.wait_list@ == w0.skip(k as int),
                self.count == total - total_units(w0.take(k as int)),
                total_units(w0.take(k as int)) <= total,
            decreases self.wait_list@.len(),
        {
            let front = self.wait_list.pop_front().unwrap();
            proof {
                assert(w0.take(k + 1).drop_last() =~= w0.take(k as int));
                assert(w0.skip(k + 1) =~= w0.skip(k as int).subrange(1, w0.skip(k as int).len() as int));
            }
            self.count = self.count - front;
            k = k + 1;
        }
        proof {
            if k < w0.len() {
                assert(w0.take(k + 1).drop_last() =~= w0.take(k as int));
            }
        }
        k
    }
}


impl Semaphore {
    /// Breaks the semaphore: every waiter stops waiting, with an error, and
    /// the counter empties.  Returns how many waiters were released.
    pub fn broken(&mut self) -> (released: usize)
        ensures
            released == old(self).waiters().len(),
            final(self).is_broken(),
            final(self).count() == 0,
            final(self).waiters() == Seq::<usize>::empty(),
            final(self).wf(),
    {
        let released = self.wait_list.len();
        self.broken = true;
        self.count = 0;
        self.wait_list = VecDeque::new();
        released
    }
}

impl Default for Semaphore {
    /// One unit: an unlocked mutex.
    fn default() -> (s: Semaphore)
        ensures
            s.count() == 1,
            s.waiters() == Seq::<usize>::empty(),
            !s.is_broken(),
            s.wf(),
    {
        Semaphore::new(1)
    }
}

/// Requests of one unit each add up to their number.
pub proof fn lemma_total_units_of_ones(w: Seq<usize>, k: int)
    requires
        0 <= k <= w.len(),
        forall|i: int| 0 <= i < w.len() ==> #[trigger] w[i] == 1,
    ensures
        total_units(w.take(k)) == k,
    decreases k,
{
    if k > 0 {
        lemma_total_units_of_ones(w, k - 1);
        assert(w.take(k).drop_last() =~= w.take(k - 1));
    }
}

/// A single request adds up to its own size.
pub proof fn lemma_total_units_single(x: usize)
    ensures
        total_units(seq![x]) == x,
{
    assert(seq![x].drop_last() =~= Seq::<usize>::empty());
    assert(total_units(Seq::<usize>::empty()) == 0);
}

proof fn lemma_total_units_prefix_monotone(w: Seq<usize>, a: int, b: int)
    requires
        0 <= a <= b <= w.len(),
    ensures
        total_units(w.take(a)) <= total_units(w.take(b)),
    decreases b - a,
{
    if a < b {
        lemma_total_units_prefix_monotone(w, a, b - 1);
        assert(w.take(b).drop_last() =~= w.take(b - 1));
    }
}

/// A deposit serves one definite number of waiters: the FIFO rule leaves no
/// choice.
pub proof fn lemma_served_unique(count: int, waiters: Seq<usize>, k1: int, k2: int)
    requires
        served(count, waiters, k1),
        served(count, waiters, k2),
    ensures
        k1 == k2,
{
    if k1 < k2 {
        lemma_total_units_prefix_monotone(waiters, k1 + 1, k2);
    }
    if k2 < k1 {
        lemma_total_units_prefix_monotone(waiters, k2 + 1, k1);
    }
}

/// Requests are served in order: while the oldest request does not fit,
/// no later one is served, however small.
pub proof fn lemma_no_overtaking(count: int, waiters: Seq<usize>, k: int)
    requires
        served(count, waiters, k),
        waiters.len() > 0,
        waiters[0] > count,
    ensures
        k == 0,
{
    if k > 0 {
        lemma_total_units_prefix_monotone(waiters, 1, k);
        assert(waiters.take(1).drop_last() =~= Seq::<usize>::empty());
        assert(total_units(Seq::<usize>::empty()) == 0);
        assert(waiters.take(1).last() == waiters[0]);
        assert(total_units(waiters.take(1)) == waiters[0]);
    }
}

/// A deposit that covers the oldest request serves it.
pub proof fn lemma_front_served_when_covered(count: int, waiters: Seq<usize>, k: int)
    requires
        served(count, waiters, k),
        waiters.len() > 0,
        waiters[0] <= count,
    ensures
        k >= 1,
{
    if k == 0 {
        assert(waiters.take(1).drop_last() =~= Seq::<usize>::empty());
        assert(total_units(Seq::<usize>::empty()) == 0);
        assert(waiters.take(1).last() == waiters[0]);
        assert(total_units(waiters.take(1)) == waiters[0]);
    }
}

/// Units taken at once and given back leave the counter as it was, and
/// serve nobody when nobody waits: `wait(nr)` on `count` units takes them
/// (leaving `count - nr`), and `signal(nr)` then serves `k` waiters and
/// leaves the counter at `count`.
pub proof fn lemma_take_give_back(count: nat, nr: nat, k: int)
    requires
        nr >= 1,
        count >= nr,
        served((count - nr) + nr, Seq::<usize>::empty(), k),
    ensures
        k == 0,
        (count - nr) + nr - total_units(Seq::<usize>::empty().take(k)) == count,
{
    assert(Seq::<usize>::empty().take(0) =~= Seq::<usize>::empty());
}

} // verus!
