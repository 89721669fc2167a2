use vstd::prelude::*;
use std::collections::VecDeque;

verus! {

/// A timer that completes once the clock reaches `when` (in clock ticks).
#[derive(PartialEq, Eq, Structural, Debug, Clone, Copy)]
pub struct Delay {
    pub when: u64,
}

/// What polling a `Delay` decides.
#[derive(PartialEq, Eq, Structural, Debug, Clone, Copy)]
pub enum DelayPoll {
    /// The deadline has passed: the timer completes.
    Ready,
    /// Not yet: arrange one wake after `sleep_for` ticks, and suspend.
    Pending { sleep_for: u64 },
}

impl Delay {
    /// Polls the timer at clock reading `now`. It completes only at or after
    /// the deadline; before it, it asks for a wake at the deadline, whether or
    /// not an earlier wake brought this poll.
    pub fn poll(&self, now: u64) -> (r: DelayPoll)
        ensures
            now >= self.when ==> r == DelayPoll::Ready,
            now < self.when ==> r == (DelayPoll::Pending { sleep_for: (self.when - now) as u64 }),
    {
        if now >= self.when {
            DelayPoll::Ready
        } else {
            DelayPoll::Pending { sleep_for: self.when - now }
        }
    }
}

/// Where a task stands in the executor.
#[derive(PartialEq, Eq, Structural, Debug, Clone, Copy)]
pub enum TaskState {
    /// Waiting in the ready queue.
    Queued,
    /// Being polled.
    Running,
    /// Being polled, and woken meanwhile: it goes back to the queue afterwards.
    Notified,
    /// Suspended until something wakes it.
    Suspended,
    /// Completed.
    Done,
}

/// A handle on a task spawned onto a `MiniTokio`.
#[derive(PartialEq, Eq, Structural, Debug, Clone, Copy)]
pub struct Task {
    pub id: usize,
}

/// A single-threaded cooperative scheduler: a first-in first-out queue of
/// ready tasks, and the state of each task.
pub struct MiniTokio {
    scheduled: VecDeque<usize>,
    states: Vec<TaskState>,
}

impl MiniTokio {
    /// The ready queue, front first.
    pub closed spec fn queue(&self) -> Seq<usize> {
        self.scheduled@
    }

    /// The state of each task, by task id.
    pub closed spec fn states(&self) -> Seq<TaskState> {
        self.states@
    }

    /// The ready queue holds each queued task once, and only those.
    pub closed spec fn wf(&self) -> bool {
        &&& self.states@.len() <= usize::MAX
        &&& forall|i: int, j: int|
            0 <= i < j < self.scheduled@.len() ==> self.scheduled@[i] != self.scheduled@[j]
        &&& forall|i: int|
            0 <= i < self.scheduled@.len() ==> (#[trigger] self.scheduled@[i]) < self.states@.len()
                && self.states@[self.scheduled@[i] as int] == TaskState::Queued
        &&& forall|t: int|
            0 <= t < self.states@.len() && #[trigger] self.states@[t] == TaskState::Queued
                ==> self.scheduled@.contains(t as usize)
    }

    /// An executor with no tasks.
    pub fn new() -> (r: MiniTokio)
        ensures
            r.wf(),
            r.queue() == Seq::<usize>::empty(),
            r.states() == Seq::<TaskState>::empty(),
    {
        MiniTokio { scheduled: VecDeque::new(), states: Vec::new() }
    }

    /// Adds a task and schedules it for its first poll.
    pub fn spawn(&mut self) -> (r: Task)
        requires
            old(self).wf(),
            old(self).states().len() < usize::MAX,
        ensures
            final(self).wf(),
            r.id == old(self).states().len(),
            final(self).states() == old(self).states().push(TaskState::Queued),
            final(self).queue() == old(self).queue().push(r.id),
    {
        let id = self.states.len();
        self.states.push(TaskState::Queued);
        self.scheduled.push_back(id);
        proof {
            assert forall|t: int|
                0 <= t < self.states@.len() && #[trigger] self.states@[t] == TaskState::Queued
                    implies self.scheduled@.contains(t as usize) by {
                if t < id {
                    let k = choose|k: int| 0 <= k < old(self).scheduled@.len() && old(self).scheduled@[k] == t as usize;
                    assert(self.scheduled@[k] == t as usize);
                } else {
                    assert(self.scheduled@[self.scheduled@.len() - 1] == id);
                }
            }
        }
        Task { id }
    }

    /// The number of tasks spawned so far.
    pub fn task_count(&self) -> (r: usize)
        ensures
            r == self.states().len(),
    {
        self.states.len()
    }

    /// Takes the task at the front of the ready queue for polling.
    pub fn next_task(&mut self) -> (r: Option<Task>)
        requires
            old(self).wf(),
        ensures
            final(self).wf(),
            match r {
                Some(t) => old(self).queue().len() > 0 && t.id == old(self).queue()[0]
                    && final(self).queue() == old(self).queue().drop_first() && final(self).states()
                    == old(self).states().update(t.id as int, TaskState::Running),
                None => old(self).queue().len() == 0 && final(self).queue() == old(self).queue()
                    && final(self).states() == old(self).states(),
            },
    {
        match self.scheduled.pop_front() {
            Some(id) => {
                proof {
                    assert(old(self).scheduled@[0] == id);
                }
                self.states.set(id, TaskState::Running);
                proof {
                    assert forall|i: int|
                        0 <= i < self.scheduled@.len() implies (#[trigger] self.scheduled@[i])
                        < self.states@.len() && self.states@[self.scheduled@[i] as int]
                        == TaskState::Queued by {
                        assert(self.scheduled@[i] == old(self).scheduled@[i + 1]);
                        assert(old(self).scheduled@[0] != old(self).scheduled@[i + 1]);
                    }
                    assert forall|t: int|
                        0 <= t < self.states@.len() && #[trigger] self.states@[t]
                            == TaskState::Queued implies self.scheduled@.contains(t as usize) by {
                        assert(t != id as int);
                        assert(self.states@.len() <= usize::MAX);
                        assert((t as usize) as int == t);
                        assert(old(self).states@[t] == TaskState::Queued);
                        let k = choose|k: int|
                            0 <= k < old(self).scheduled@.len() && old(self).scheduled@[k]
                                == t as usize;
                        assert(k != 0);
                        assert(self.scheduled@[k - 1] == t as usize);
                    }
                }
                Some(Task { id })
            },
            None => None,
        }
    }

    /// Records the outcome of polling `task`: a completed task is done; a
    /// suspended one waits for a wake, unless a wake came during the poll, in
    /// which case it is queued again. A task that was not being polled is left
    /// as it is.
    pub fn finish(&mut self, task: Task, completed: bool)
        requires
            old(self).wf(),
        ensures
            final(self).wf(),
            task.id < old(self).states().len() && old(self).states()[task.id as int]
                == TaskState::Running ==> final(self).queue() == old(self).queue()
                && final(self).states() == old(self).states().update(
                task.id as int,
                if completed {
                    TaskState::Done
                } else {
                    TaskState::Suspended
                },
            ),
            task.id < old(self).states().len() && old(self).states()[task.id as int]
                == TaskState::Notified ==> if completed {
                final(self).queue() == old(self).queue() && final(self).states()
                    == old(self).states().update(task.id as int, TaskState::Done)
            } else {
                final(self).queue() == old(self).queue().push(task.id) && final(self).states()
                    == old(self).states().update(task.id as int, TaskState::Queued)
            },
            !(task.id < old(self).states().len() && (old(self).states()[task.id as int]
                == TaskState::Running || old(self).states()[task.id as int]
                == TaskState::Notified)) ==> final(self).queue() == old(self).queue()
                && final(self).states() == old(self).states(),
    {
        let id = task.id;
        if id >= self.states.len() {
            return;
        }
        let st = self.states[id];
        if st != TaskState::Running && st != TaskState::Notified {
            return;
        }
        if completed {
            self.states.set(id, TaskState::Done);
        } else if st == TaskState::Running {
            self.states.set(id, TaskState::Suspended);
        } else {
            self.states.set(id, TaskState::Queued);
            self.scheduled.push_back(id);
        }
        proof {
            assert forall|i: int|
                0 <= i < self.scheduled@.len() implies (#[trigger] self.scheduled@[i])
                < self.states@.len() && self.states@[self.scheduled@[i] as int]
                == TaskState::Queued by {
                if i < old(self).scheduled@.len() {
                    assert(self.scheduled@[i] == old(self).scheduled@[i]);
                }
            }
            assert forall|t: int|
                0 <= t < self.states@.len() && #[trigger] self.states@[t] == TaskState::Queued
                    implies self.scheduled@.contains(t as usize) by {
                if t != id {
                    let k = choose|k: int|
                        0 <= k < old(self).scheduled@.len() && old(self).scheduled@[k]
                            == t as usize;
                    assert(self.scheduled@[k] == t as usize);
                } else {
                    assert(self.scheduled@[self.scheduled@.len() - 1] == id);
                }
            }
        }
    }
}

/// Every task in the ready queue is queued, and waits there once; a suspended,
/// running or completed task is not in the queue, so it is polled again only
/// after a wake puts it back.
pub proof fn lemma_queue_holds_queued_tasks_once(rt: MiniTokio)
    requires
        rt.wf(),
    ensures
        forall|i: int, j: int|
            0 <= i < rt.queue().len() && 0 <= j < rt.queue().len() && i != j ==> rt.queue()[i]
                != rt.queue()[j],
        forall|t: int|
            0 <= t < rt.states().len() && #[trigger] rt.states()[t] != TaskState::Queued
                ==> !rt.queue().contains(t as usize),
{
    assert forall|i: int, j: int|
        0 <= i < rt.queue().len() && 0 <= j < rt.queue().len() && i != j implies rt.queue()[i]
        != rt.queue()[j] by {
        if i > j {
            assert(rt.scheduled@[j] != rt.scheduled@[i]);
        }
    }
    assert forall|t: int|
        0 <= t < rt.states().len() && #[trigger] rt.states()[t] != TaskState::Queued
            implies !rt.queue().contains(t as usize) by {
        if rt.queue().contains(t as usize) {
            let k = choose|k: int| 0 <= k < rt.scheduled@.len() && rt.scheduled@[k] == t as usize;
            assert(rt.states@[rt.scheduled@[k] as int] == TaskState::Queued);
        }
    }
}

impl Task {
    /// Wakes the task: a suspended task is queued for another poll; one being
    /// polled is queued again once that poll ends; one already queued or done
    /// is left as it is, so a task never waits in the queue twice.
    pub fn schedule(&self, rt: &mut MiniTokio)
        requires
            old(rt).wf(),
        ensures
            final(rt).wf(),
            self.id < old(rt).states().len() && old(rt).states()[self.id as int]
                == TaskState::Suspended ==> final(rt).queue() == old(rt).queue().push(self.id)
                && final(rt).states() == old(rt).states().update(
                self.id as int,
                TaskState::Queued,
            ),
            self.id < old(rt).states().len() && old(rt).states()[self.id as int]
                == TaskState::Running ==> final(rt).queue() == old(rt).queue() && final(rt).states()
                == old(rt).states().update(self.id as int, TaskState::Notified),
            !(self.id < old(rt).states().len() && (old(rt).states()[self.id as int]
                == TaskState::Suspended || old(rt).states()[self.id as int]
                == TaskState::Running)) ==> final(rt).queue() == old(rt).queue()
                && final(rt).states() == old(rt).states(),
    {
        let id = self.id;
        if id >= rt.states.len() {
            return;
        }
        let st = rt.states[id];
        if st == TaskState::Suspended {
            rt.states.set(id, TaskState::Queued);
            rt.scheduled.push_back(id);
        } else if st == TaskState::Running {
            rt.states.set(id, TaskState::Notified);
        } else {
            return;
        }
        proof {
            assert forall|i: int|
                0 <= i < rt.scheduled@.len() implies (#[trigger] rt.scheduled@[i])
                < rt.states@.len() && rt.states@[rt.scheduled@[i] as int]
                == TaskState::Queued by {
                if i < old(rt).scheduled@.len() {
                    assert(rt.scheduled@[i] == old(rt).scheduled@[i]);
                }
            }
            assert forall|t: int|
                0 <= t < rt.states@.len() && #[trigger] rt.states@[t] == TaskState::Queued
                    implies rt.scheduled@.contains(t as usize) by {
                if t != id {
                    let k = choose|k: int|
                        0 <= k < old(rt).scheduled@.len() && old(rt).scheduled@[k]
                            == t as usize;
                    assert(rt.scheduled@[k] == t as usize);
                } else {
                    assert(rt.scheduled@[rt.scheduled@.len() - 1] == id);
                }
            }
        }
    }
}

} // verus!
