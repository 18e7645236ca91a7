//! A single-threaded executor's run queue.
//!
//! Each spawned future is a task with a flag telling whether it is in the
//! run queue.  Waking a task puts it at the end of the queue unless its flag
//! is set, so a task is never queued twice.  Polling takes tasks from the
//! front: a task whose future is gone is skipped; otherwise its flag is
//! cleared before the future is polled, so that a wake during the poll
//! queues it again.  A future that completes is dropped.  A pending future
//! is kept only while something refers to its task: the run queue, the poll
//! in progress, or a waker that was cloned and not yet dropped.  When the
//! last of these goes, the future is dropped.
use vstd::prelude::*;
use std::collections::VecDeque;

verus! {

pub type TaskId = usize;

/// The state of one task.
#[derive(Debug, Clone, Copy, PartialEq, Eq, Structural)]
pub struct TaskState {
    /// The task still holds its future.
    pub live: bool,
    /// The task is in the run queue.
    pub queued: bool,
    /// The task's future is being polled.
    pub polling: bool,
    /// Clones of the task's waker that are alive.
    pub wakers: usize,
}

/// What to do with the task at the front of the run queue.
#[derive(Debug, Clone, Copy, PartialEq, Eq, Structural)]
pub enum Next {
    /// The queue is empty: polling is over.
    Idle,
    /// The task's future is gone; it left the queue.
    Skip(TaskId),
    /// Poll the task's future, then report the outcome with `complete`.
    Poll(TaskId),
}

/// Something refers to the task: the queue, a poll or a waker.
pub open spec fn referenced(t: TaskState) -> bool {
    t.queued || t.polling || t.wakers > 0
}

/// The tasks and the run queue, front first.
pub ghost struct RunQueue {
    pub tasks: Seq<TaskState>,
    pub queue: Seq<TaskId>,
}

impl RunQueue {
    /// A live, queued task is added at the end of the queue.
    pub open spec fn spawn(self) -> (RunQueue, TaskId) {
        let id = self.tasks.len() as TaskId;
        (RunQueue {
            tasks: self.tasks.push(TaskState { live: true, queued: true, polling: false, wakers: 0 }),
            queue: self.queue.push(id),
        }, id)
    }

    /// Task `id` joins the end of the queue unless its flag is set; reports
    /// whether it joined.
    pub open spec fn wake(self, id: TaskId) -> (RunQueue, bool) {
        if self.tasks[id as int].queued {
            (self, false)
        } else {
            (RunQueue {
                tasks: self.tasks.update(id as int, TaskState { queued: true, ..self.tasks[id as int] }),
                queue: self.queue.push(id),
            }, true)
        }
    }

    /// The front task leaves the queue: a live one is to be polled, with its
    /// flag cleared; one whose future is gone is skipped.
    pub open spec fn next(self) -> (RunQueue, Next) {
        if self.queue.len() == 0 {
            (self, Next::Idle)
        } else {
            let id = self.queue[0];
            if self.tasks[id as int].live {
                (RunQueue {
                    tasks: self.tasks.update(
                        id as int,
                        TaskState { queued: false, polling: true, ..self.tasks[id as int] },
                    ),
                    queue: self.queue.drop_first(),
                }, Next::Poll(id))
            } else {
                (RunQueue {
                    tasks: self.tasks.update(id as int, TaskState { queued: false, ..self.tasks[id as int] }),
                    queue: self.queue.drop_first(),
                }, Next::Skip(id))
            }
        }
    }

    /// The poll of task `id` ended.  A completed future is dropped; a
    /// pending one is kept only if the queue or a waker still refers to it.
    pub open spec fn complete(self, id: TaskId, ready: bool) -> RunQueue {
        let t = self.tasks[id as int];
        RunQueue {
            tasks: self.tasks.update(
                id as int,
                TaskState { live: t.live && !ready && (t.queued || t.wakers > 0), polling: false, ..t },
            ),
            ..self
        }
    }

    /// A clone of task `id`'s waker is made.
    pub open spec fn clone_waker(self, id: TaskId) -> RunQueue {
        let t = self.tasks[id as int];
        RunQueue { tasks: self.tasks.update(id as int, TaskState { wakers: (t.wakers + 1) as usize, ..t }), ..self }
    }

    /// A clone of task `id`'s waker is dropped; if it was the last thing
    /// that referred to the task, the future is dropped.
    pub open spec fn drop_waker(self, id: TaskId) -> RunQueue {
        let t = self.tasks[id as int];
        let after = TaskState { wakers: (t.wakers - 1) as usize, ..t };
        RunQueue {
            tasks: self.tasks.update(id as int, TaskState { live: t.live && referenced(after), ..after }),
            ..self
        }
    }
}

/// Only spawned tasks are queued, none twice, each with its flag set; a
/// task with its flag set is queued; a polled task is live; and a live
/// task is referenced.
pub open spec fn queue_wf(tasks: Seq<TaskState>, queue: Seq<TaskId>) -> bool {
    &&& forall|k: int| 0 <= k < queue.len() ==> #[trigger] queue[k] < tasks.len()
    &&& queue.no_duplicates()
    &&& forall|k: int| 0 <= k < queue.len() ==> #[trigger] tasks[queue[k] as int].queued
    &&& forall|id: TaskId| id < tasks.len() && #[trigger] tasks[id as int].queued ==> queue.contains(id)
    &&& forall|id: TaskId| id < tasks.len() && #[trigger] tasks[id as int].polling ==> tasks[id as int].live
    &&& forall|id: TaskId| id < tasks.len() && #[trigger] tasks[id as int].live ==> referenced(tasks[id as int])
}

pub struct Executor {
    tasks: Vec<TaskState>,
    queue: VecDeque<TaskId>,
}

impl View for Executor {
    type V = RunQueue;

    closed spec fn view(&self) -> RunQueue {
        RunQueue { tasks: self.tasks@, queue: self.queue@ }
    }
}

/// Changing one task's state, but not its queue flag, keeps the queue well
/// formed when the new state is.
proof fn lemma_update_task(tasks: Seq<TaskState>, queue: Seq<TaskId>, id: TaskId, t2: TaskState)
    requires
        queue_wf(tasks, queue),
        id < tasks.len(),
        t2.queued == tasks[id as int].queued,
        t2.polling ==> t2.live,
        t2.live ==> referenced(t2),
    ensures
        queue_wf(tasks.update(id as int, t2), queue),
{
    let s = tasks.update(id as int, t2);
    assert forall|k: int| 0 <= k < queue.len() implies #[trigger] s[queue[k] as int].queued by {
        assert(tasks[queue[k] as int].queued);
    }
    assert forall|x: TaskId| x < s.len() && #[trigger] s[x as int].queued implies queue.contains(x) by {
        assert(tasks[x as int].queued);
    }
    assert forall|x: TaskId| x < s.len() && #[trigger] s[x as int].polling implies s[x as int].live by {
        if x != id {
            assert(tasks[x as int].polling);
        }
    }
    assert forall|x: TaskId| x < s.len() && #[trigger] s[x as int].live implies referenced(s[x as int]) by {
        if x != id {
            assert(tasks[x as int].live);
        }
    }
}

impl Executor {
    /// The tasks, by id.
    pub open spec fn tasks(&self) -> Seq<TaskState> {
        self@.tasks
    }

    /// The run queue, front first.
    pub open spec fn queue(&self) -> Seq<TaskId> {
        self@.queue
    }

    pub open spec fn wf(&self) -> bool {
        queue_wf(self.tasks(), self.queue())
    }

    pub fn new() -> (e: Executor)
        ensures
            e@ == (RunQueue { tasks: Seq::<TaskState>::empty(), queue: Seq::<TaskId>::empty() }),
            e.wf(),
    {
        Executor { tasks: Vec::new(), queue: VecDeque::new() }
    }

    /// Adds a live task for a new future and queues it.
    pub fn spawn(&mut self) -> (id: TaskId)
        requires
            old(self).wf(),
            old(self).tasks().len() < usize::MAX,
        ensures
            id == old(self).tasks().len(),
            (final(self)@, id) == old(self)@.spawn(),
            final(self).wf(),
    {
        let id = self.tasks.len();
        self.tasks.push(TaskState { live: true, queued: true, polling: false, wakers: 0 });
        self.queue.push_back(id);
        proof {
            let q0 = old(self).queue();
            let t0 = old(self).tasks();
            assert(!q0.contains(id)) by {
                if q0.contains(id) {
                    let k = choose|k: int| 0 <= k < q0.len() && q0[k] == id;
                    assert(q0[k] < t0.len());
                }
            }
            assert forall|a: int, b: int| 0 <= a < b < self.queue@.len() implies self.queue@[a] != self.queue@[b] by {
                if b == self.queue@.len() - 1 {
                    assert(q0[a] == self.queue@[a]);
                }
            }
            assert forall|k: int| 0 <= k < self.queue@.len() implies #[trigger] self.tasks@[self.queue@[k] as int].queued by {
                if k < q0.len() {
                    assert(self.queue@[k] == q0[k]);
                    assert(t0[q0[k] as int].queued);
                }
            }
            assert forall|x: TaskId| x < self.tasks@.len() && #[trigger] self.tasks@[x as int].queued
                implies self.queue@.contains(x) by {
                if x < id {
                    assert(t0[x as int].queued);
                    assert(q0.contains(x));
                    let k = choose|k: int| 0 <= k < q0.len() && q0[k] == x;
                    assert(self.queue@[k] == x);
                } else {
                    assert(self.queue@[self.queue@.len() - 1] == id);
                }
            }
            assert forall|x: TaskId| x < self.tasks@.len() && #[trigger] self.tasks@[x as int].polling
                implies self.tasks@[x as int].live by {
                if x < id {
                    assert(t0[x as int].polling);
                }
            }
            assert forall|x: TaskId| x < self.tasks@.len() && #[trigger] self.tasks@[x as int].live
                implies referenced(self.tasks@[x as int]) by {
                if x < id {
                    assert(t0[x as int].live);
                }
            }
        }
        id
    }

    /// Wakes task `id`: it joins the end of the queue unless its flag is
    /// already set.  Returns whether it joined.
    pub fn wake(&mut self, id: TaskId) -> (joined: bool)
        requires
            old(self).wf(),
            id < old(self).tasks().len(),
        ensures
            joined == !old(self).tasks()[id as int].queued,
            (final(self)@, joined) == old(self)@.wake(id),
            final(self).wf(),
    {
        let t = self.tasks[id];
        if t.queued {
            return false;
        }
        self.tasks.set(id, TaskState { queued: true, ..t });
        self.queue.push_back(id);
        proof {
            let q0 = old(self).queue();
            let t0 = old(self).tasks();
            assert(!q0.contains(id)) by {
                if q0.contains(id) {
                    let k = choose|k: int| 0 <= k < q0.len() && q0[k] == id;
                    assert(t0[q0[k] as int].queued);
                }
            }
            assert forall|a: int, b: int| 0 <= a < b < self.queue@.len() implies self.queue@[a] != self.queue@[b] by {
                if b == self.queue@.len() - 1 {
                    assert(q0[a] == self.queue@[a]);
                }
            }
            assert forall|k: int| 0 <= k < self.queue@.len() implies #[trigger] self.tasks@[self.queue@[k] as int].queued by {
                if k < q0.len() {
                    assert(self.queue@[k] == q0[k]);
                    assert(t0[q0[k] as int].queued);
                }
            }
            assert forall|x: TaskId| x < self.tasks@.len() && #[trigger] self.tasks@[x as int].queued
                implies self.queue@.contains(x) by {
                if x != id {
                    assert(t0[x as int].queued);
                    assert(q0.contains(x));
                    let k = choose|k: int| 0 <= k < q0.len() && q0[k] == x;
                    assert(self.queue@[k] == x);
                } else {
                    assert(self.queue@[self.queue@.len() - 1] == id);
                }
            }
            assert forall|x: TaskId| x < self.tasks@.len() && #[trigger] self.tasks@[x as int].polling
                implies self.tasks@[x as int].live by {
                assert(t0[x as int].polling);
            }
            assert forall|x: TaskId| x < self.tasks@.len() && #[trigger] self.tasks@[x as int].live
                implies referenced(self.tasks@[x as int]) by {
                if x != id {
                    assert(t0[x as int].live);
                }
            }
        }
        true
    }

    /// Takes the task at the front of the queue.  A live task gets its flag
    /// cleared and is to be polled; a task whose future is gone is skipped.
    /// When nothing is left to take, no task is queued.
    pub fn next(&mut self) -> (n: Next)
        requires
            old(self).wf(),
        ensures
            (final(self)@, n) == old(self)@.next(),
            n == Next::Idle <==> old(self).queue().len() == 0,
            n == Next::Idle ==> forall|id: int| 0 <= id < final(self).tasks().len()
                ==> !(#[trigger] final(self).tasks()[id]).queued,
            final(self).wf(),
    {
        let id = match self.queue.pop_front() {
            Some(id) => id,
            None => {
                proof {
                    assert(self.tasks@ == old(self).tasks());
                    assert(self.tasks@.len() == self.tasks.len());
                    assert forall|x: int| 0 <= x < self.tasks@.len() implies !(#[trigger] self.tasks@[x]).queued by {
                        if self.tasks@[x].queued {
                            let y = x as TaskId;
                            assert(old(self).tasks()[y as int].queued);
                            assert(old(self).queue().contains(y));
                            let k = choose|k: int| 0 <= k < old(self).queue().len() && old(self).queue()[k] == y;
                            assert(old(self).queue().len() == 0);
                        }
                    }
                }
                return Next::Idle;
            },
        };
        let ghost q0 = old(self).queue();
        let ghost t0 = old(self).tasks();
        proof {
            assert(q0[0] == id);
            assert(self.queue@ =~= q0.drop_first());
            assert(!self.queue@.contains(id)) by {
                if self.queue@.contains(id) {
                    let k = choose|k: int| 0 <= k < self.queue@.len() && self.queue@[k] == id;
                    assert(q0[k + 1] == q0[0]);
                }
            }
        }
        let t = self.tasks[id];
        let r = if t.live {
            self.tasks.set(id, TaskState { queued: false, polling: true, ..t });
            Next::Poll(id)
        } else {
            self.tasks.set(id, TaskState { queued: false, ..t });
            Next::Skip(id)
        };
        proof {
            assert forall|k: int| 0 <= k < self.queue@.len() implies #[trigger] self.tasks@[self.queue@[k] as int].queued by {
                assert(self.queue@[k] == q0[k + 1]);
                assert(q0[k + 1] != q0[0]);
                assert(t0[q0[k + 1] as int].queued);
            }
            assert forall|x: TaskId| x < self.tasks@.len() && #[trigger] self.tasks@[x as int].queued
                implies self.queue@.contains(x) by {
                assert(x != id);
                assert(t0[x as int].queued);
                assert(q0.contains(x));
                let k = choose|k: int| 0 <= k < q0.len() && q0[k] == x;
                assert(k != 0);
                assert(self.queue@[k - 1] == x);
            }
            assert forall|x: TaskId| x < self.tasks@.len() && #[trigger] self.tasks@[x as int].polling
                implies self.tasks@[x as int].live by {
                if x != id {
                    assert(t0[x as int].polling);
                }
            }
            assert forall|x: TaskId| x < self.tasks@.len() && #[trigger] self.tasks@[x as int].live
                implies referenced(self.tasks@[x as int]) by {
                if x != id {
                    assert(t0[x as int].live);
                }
            }
        }
        r
    }

    /// Reports the poll of task `id`.  A completed future is dropped; a
    /// pending one is dropped too when neither the queue (a wake during the
    /// poll) nor a waker refers to its task any more.  Returns whether the
    /// future was dropped.
    pub fn complete(&mut self, id: TaskId, ready: bool) -> (dropped: bool)
        requires
            old(self).wf(),
            id < old(self).tasks().len(),
            old(self).tasks()[id as int].polling,
        ensures
            final(self)@ == old(self)@.complete(id, ready),
            dropped == (ready || !(old(self).tasks()[id as int].queued || old(self).tasks()[id as int].wakers > 0)),
            dropped <==> !final(self).tasks()[id as int].live,
            final(self).wf(),
    {
        let t = self.tasks[id];
        let keep = !ready && (t.queued || t.wakers > 0);
        let t2 = TaskState { live: keep, polling: false, ..t };
        proof {
            lemma_update_task(self.tasks@, self.queue@, id, t2);
        }
        self.tasks.set(id, t2);
        !keep
    }

    /// A clone of task `id`'s waker was made.
    pub fn clone_waker(&mut self, id: TaskId)
        requires
            old(self).wf(),
            id < old(self).tasks().len(),
            old(self).tasks()[id as int].wakers < usize::MAX,
        ensures
            final(self)@ == old(self)@.clone_waker(id),
            final(self).wf(),
    {
        let t = self.tasks[id];
        let t2 = TaskState { wakers: t.wakers + 1, ..t };
        proof {
            lemma_update_task(self.tasks@, self.queue@, id, t2);
        }
        self.tasks.set(id, t2);
    }

    /// A clone of task `id`'s waker was dropped.  Returns whether this
    /// dropped the future: it was live, and nothing else refers to its task.
    pub fn drop_waker(&mut self, id: TaskId) -> (dropped: bool)
        requires
            old(self).wf(),
            id < old(self).tasks().len(),
            old(self).tasks()[id as int].wakers > 0,
        ensures
            final(self)@ == old(self)@.drop_waker(id),
            dropped == (old(self).tasks()[id as int].live && !old(self).tasks()[id as int].queued
                && !old(self).tasks()[id as int].polling && old(self).tasks()[id as int].wakers == 1),
            final(self).wf(),
    {
        let t = self.tasks[id];
        let wakers = t.wakers - 1;
        let keep = t.live && (t.queued || t.polling || wakers > 0);
        let t2 = TaskState { live: keep, wakers, ..t };
        proof {
            lemma_update_task(self.tasks@, self.queue@, id, t2);
        }
        self.tasks.set(id, t2);
        t.live && !keep
    }

    /// The number of tasks spawned so far.
    pub fn task_count(&self) -> (n: usize)
        ensures
            n == self.tasks().len(),
    {
        self.tasks.len()
    }

    /// The number of live clones of task `id`'s waker.
    pub fn waker_count(&self, id: TaskId) -> (n: usize)
        requires
            id < self.tasks().len(),
        ensures
            n == self.tasks()[id as int].wakers,
    {
        self.tasks[id].wakers
    }

    /// Whether task `id` still holds its future.
    pub fn is_live(&self, id: TaskId) -> (b: bool)
        requires
            id < self.tasks().len(),
        ensures
            b == self.tasks()[id as int].live,
    {
        self.tasks[id].live
    }
}

/// Waking a task twice before it is polled queues it once.
pub proof fn lemma_wake_idempotent(s: RunQueue, id: TaskId)
    requires
        id < s.tasks.len(),
    ensures
        s.wake(id).0.wake(id) == (s.wake(id).0, false),
{
}

/// A task woken while its future is being polled is queued again, at the
/// end of the queue, so the same round of polling reaches it again, and
/// its pending future is kept.
pub proof fn lemma_wake_during_poll_requeues(s: RunQueue, id: TaskId)
    requires
        s.next().1 == Next::Poll(id),
        id < s.tasks.len(),
    ensures
        s.next().0.wake(id).1,
        s.next().0.wake(id).0.queue.last() == id,
        s.next().0.wake(id).0.complete(id, false).tasks[id as int].live,
{
}

/// A pending future that nothing refers to once its poll ends is dropped:
/// no wake came during the poll and no waker was kept.
pub proof fn lemma_unreferenced_future_dropped(s: RunQueue, id: TaskId)
    requires
        id < s.tasks.len(),
        !s.tasks[id as int].queued,
        s.tasks[id as int].wakers == 0,
    ensures
        !s.complete(id, false).tasks[id as int].live,
{
}

/// A pending future kept only by wakers is dropped with the last of them.
pub proof fn lemma_last_waker_drops_future(s: RunQueue, id: TaskId)
    requires
        id < s.tasks.len(),
        !s.tasks[id as int].queued,
        !s.tasks[id as int].polling,
        s.tasks[id as int].wakers == 1,
    ensures
        !s.drop_waker(id).tasks[id as int].live,
{
}

/// A task whose future is gone never gets it back and is never polled
/// again: no step makes it live, and taking it from the queue skips it.
pub proof fn lemma_completed_stays_done(s: RunQueue, id: TaskId, other: TaskId, ready: bool)
    requires
        id < s.tasks.len(),
        other < s.tasks.len(),
        !s.tasks[id as int].live,
        forall|k: int| 0 <= k < s.queue.len() ==> #[trigger] s.queue[k] < s.tasks.len(),
    ensures
        !s.spawn().0.tasks[id as int].live,
        !s.wake(other).0.tasks[id as int].live,
        !s.next().0.tasks[id as int].live,
        s.next().1 != Next::Poll(id),
        !s.complete(other, ready).tasks[id as int].live,
        !s.clone_waker(other).tasks[id as int].live,
        !s.drop_waker(other).tasks[id as int].live,
{
}

/// One step of the executor, as its methods take them.
pub ghost enum RunStep {
    Spawn,
    Wake(TaskId),
    Next,
    Complete(TaskId, bool),
    CloneWaker(TaskId),
    DropWaker(TaskId),
}

/// The run queue after `step`.
pub open spec fn run_step(s: RunQueue, step: RunStep) -> RunQueue {
    match step {
        RunStep::Spawn => s.spawn().0,
        RunStep::Wake(id) => s.wake(id).0,
        RunStep::Next => s.next().0,
        RunStep::Complete(id, ready) => s.complete(id, ready),
        RunStep::CloneWaker(id) => s.clone_waker(id),
        RunStep::DropWaker(id) => s.drop_waker(id),
    }
}

/// `states[k + 1]` is `states[k]` after `steps[k]`.
pub open spec fn run_trace(states: Seq<RunQueue>, steps: Seq<RunStep>) -> bool {
    &&& states.len() == steps.len() + 1
    &&& forall|k: int| 0 <= k < steps.len() ==> #[trigger] states[k + 1] == run_step(states[k], steps[k])
}

/// Every task in the queue is taken from it before polling goes idle.
/// Whatever steps polling takes (polls, wakes, spawns, waker clones and
/// drops), once the queue is empty again, every task that was queued in
/// state `i`, whether it was queued when polling began or woken later, was
/// taken from the front of the queue by some `next` at or after `i`: to be
/// polled if its future was live then, or skipped if not.
pub proof fn lemma_queued_task_is_taken(states: Seq<RunQueue>, steps: Seq<RunStep>, i: int, id: TaskId)
    requires
        run_trace(states, steps),
        0 <= i < states.len(),
        states[i].queue.contains(id),
        states.last().queue.len() == 0,
    ensures
        exists|k: int| i <= k < steps.len() && steps[k] == RunStep::Next && #[trigger] states[k].queue[0] == id
            && (states[k].next().1 == Next::Poll(id) || states[k].next().1 == Next::Skip(id)),
    decreases states.len() - i,
{
    if i == states.len() - 1 {
        assert(states[i].queue.len() == 0);
        let j = choose|j: int| 0 <= j < states[i].queue.len() && states[i].queue[j] == id;
        assert(false);
    } else {
        let s = states[i];
        let s2 = states[i + 1];
        assert(s2 == run_step(s, steps[i]));
        let j = choose|j: int| 0 <= j < s.queue.len() && s.queue[j] == id;
        if steps[i] == RunStep::Next && j == 0 {
            assert(s.queue[0] == id);
        } else {
            match steps[i] {
                RunStep::Next => {
                    assert(s2.queue == s.queue.drop_first());
                    assert(s2.queue[j - 1] == id);
                },
                RunStep::Spawn => {
                    assert(s2.queue[j] == id);
                },
                RunStep::Wake(w) => {
                    assert(s2.queue[j] == id);
                },
                _ => {
                    assert(s2.queue[j] == id);
                },
            }
            assert(s2.queue.contains(id));
            lemma_queued_task_is_taken(states, steps, i + 1, id);
        }
    }
}

} // verus!
