//! The scheduler's rules: which tasks it knows, and how one task is paced.
//!
//! A task runs in a thread of its own, which the program starts. The thread
//! asks `TaskPacer` what to do after each step, and the program keeps its
//! thread handles by the identifiers that `ThreadManager` hands out.

use crate::keys::keys_of;
use std::collections::HashMap;
use vstd::prelude::*;

verus! {

pub type ThreadID = i32;

pub type TaskID = i32;

/// An activity that advances in steps. A step that returns `false` was the
/// last one.
pub trait Runnable: Send + 'static {
    fn step(&mut self) -> bool;
}

/// What the scheduler knows of a task in its table.
#[derive(Debug, PartialEq, Eq, Clone, Copy, Structural)]
pub struct ManagedTask {
    /// The time from one step to the next, in nanoseconds.
    pub period: u64,
    /// Whether the task has been told to stop.
    pub stop_sent: bool,
}

/// The table of the tasks that run.
pub struct ThreadManager {
    current_task_id: ThreadID,
    tasks: HashMap<ThreadID, ManagedTask>,
}

impl ThreadManager {
    /// The tasks in the table, by their identifiers.
    pub closed spec fn tasks(&self) -> Map<TaskID, ManagedTask> {
        self.tasks@
    }

    /// The identifier that the next task gets.
    pub closed spec fn next_id(&self) -> TaskID {
        self.current_task_id
    }

    /// Every identifier in use is below the next one.
    #[verifier::type_invariant]
    spec fn ids_below_next(self) -> bool {
        forall|id: TaskID| #[trigger] self.tasks@.contains_key(id) ==> id < self.current_task_id
    }

    pub fn new() -> (manager: Self)
        ensures
            manager.tasks() == Map::<TaskID, ManagedTask>::empty(),
            manager.next_id() == 0,
    {
        ThreadManager { current_task_id: 0, tasks: HashMap::new() }
    }

    /// Tells whether another task can be added: the identifiers are not used
    /// up.
    pub fn has_room(&self) -> (room: bool)
        ensures
            room == (self.next_id() < i32::MAX),
    {
        self.current_task_id < i32::MAX
    }

    /// Enters a new task with the period `period`, in nanoseconds, and
    /// gives it the next identifier. Identifiers grow by one from zero and
    /// are never used again.
    pub fn add_task(&mut self, period: u64) -> (id: TaskID)
        requires
            old(self).next_id() < i32::MAX,
        ensures
            id == old(self).next_id(),
            !old(self).tasks().contains_key(id),
            final(self).next_id() == id + 1,
            final(self).tasks() == old(self).tasks().insert(
                id,
                ManagedTask { period, stop_sent: false },
            ),
    {
        broadcast use vstd::std_specs::hash::group_hash_axioms;

        proof {
            use_type_invariant(&*self);
        }
        let id = self.current_task_id;
        let mut tasks: HashMap<ThreadID, ManagedTask> = HashMap::new();
        std::mem::swap(&mut self.tasks, &mut tasks);
        tasks.insert(id, ManagedTask { period, stop_sent: false });
        self.current_task_id = id + 1;
        std::mem::swap(&mut self.tasks, &mut tasks);
        id
    }

    /// Marks every task in the table as told to stop, and names those that had
    /// not been told before: each of them is to get the signal, once.
    pub fn stop_all_tasks(&mut self) -> (to_signal: Vec<TaskID>)
        ensures
            final(self).next_id() == old(self).next_id(),
            final(self).tasks().dom() == old(self).tasks().dom(),
            forall|id: TaskID| #[trigger]
                final(self).tasks().contains_key(id) ==> final(self).tasks()[id] == (ManagedTask {
                    period: old(self).tasks()[id].period,
                    stop_sent: true,
                }),
            to_signal@.no_duplicates(),
            forall|id: TaskID|
                to_signal@.contains(id) <==> old(self).tasks().contains_key(id) && !old(
                    self,
                ).tasks()[id].stop_sent,
    {
        broadcast use vstd::std_specs::hash::group_hash_axioms;

        proof {
            use_type_invariant(&*self);
        }
        let mut tasks: HashMap<ThreadID, ManagedTask> = HashMap::new();
        std::mem::swap(&mut self.tasks, &mut tasks);
        let ids = keys_of(&tasks);
        let mut to_signal: Vec<TaskID> = Vec::new();
        let mut at: usize = 0;
        while at < ids.len()
            invariant
                at <= ids.len(),
                ids@.to_set() == old(self).tasks().dom(),
                ids@.no_duplicates(),
                tasks@.dom() == old(self).tasks().dom(),
                forall|i: int|
                    0 <= i < at ==> #[trigger] tasks@[ids@[i]] == (ManagedTask {
                        period: old(self).tasks()[ids@[i]].period,
                        stop_sent: true,
                    }),
                forall|i: int|
                    at <= i < ids.len() ==> #[trigger] tasks@[ids@[i]] == old(self).tasks()[ids@[i]],
                to_signal@.no_duplicates(),
                forall|id: TaskID|
                    to_signal@.contains(id) <==> exists|i: int|
                        0 <= i < at && ids@[i] == id && !old(self).tasks()[id].stop_sent,
            decreases ids.len() - at,
        {
            let id = ids[at];
            assert(ids@.to_set().contains(ids@[at as int]));
            let ghost before = tasks@;
            let ghost signalled = to_signal@;
            match tasks.remove(&id) {
                Some(task) => {
                    if !task.stop_sent {
                        to_signal.push(id);
                    }
                    tasks.insert(id, ManagedTask { period: task.period, stop_sent: true });
                    proof {
                        assert(tasks@.dom() == before.dom());
                        assert forall|i: int| 0 <= i < at + 1 implies #[trigger] tasks@[ids@[i]]
                            == (ManagedTask {
                            period: old(self).tasks()[ids@[i]].period,
                            stop_sent: true,
                        }) by {
                            if i < at {
                                assert(ids@[i] != id);
                                assert(tasks@[ids@[i]] == before[ids@[i]]);
                            }
                        }
                        assert forall|i: int| at + 1 <= i < ids.len() implies #[trigger] tasks@[ids@[i]]
                            == old(self).tasks()[ids@[i]] by {
                            assert(ids@[i] != id);
                            assert(tasks@[ids@[i]] == before[ids@[i]]);
                        }
                        assert forall|other: TaskID| to_signal@.contains(other) <==> exists|i: int|
                            0 <= i < at + 1 && ids@[i] == other && !old(self).tasks()[other].stop_sent by {
                            if to_signal@.contains(other) {
                                if signalled.contains(other) {
                                    let i = choose|i: int|
                                        0 <= i < at && ids@[i] == other && !old(
                                            self,
                                        ).tasks()[other].stop_sent;
                                    assert(0 <= i < at + 1 && ids@[i] == other);
                                } else {
                                    let k = choose|k: int|
                                        0 <= k < to_signal@.len() && to_signal@[k] == other;
                                    if k < signalled.len() {
                                        assert(signalled[k] == other);
                                    }
                                    assert(other == id);
                                    assert(ids@[at as int] == other);
                                }
                            }
                            if exists|i: int|
                                0 <= i < at + 1 && ids@[i] == other && !old(
                                    self,
                                ).tasks()[other].stop_sent {
                                let i = choose|i: int|
                                    0 <= i < at + 1 && ids@[i] == other && !old(
                                        self,
                                    ).tasks()[other].stop_sent;
                                if i < at {
                                    assert(signalled.contains(other));
                                    let k = choose|k: int|
                                        0 <= k < signalled.len() && signalled[k] == other;
                                    assert(to_signal@[k] == other);
                                } else {
                                    assert(to_signal@[to_signal@.len() - 1] == other);
                                }
                            }
                        }
                        if !task.stop_sent {
                            assert forall|a: int, b: int|
                                0 <= a < b < to_signal@.len() implies to_signal@[a]
                                != to_signal@[b] by {
                                if b == signalled.len() {
                                    if signalled.contains(id) {
                                        let i = choose|i: int|
                                            0 <= i < at && ids@[i] == id && !old(
                                                self,
                                            ).tasks()[id].stop_sent;
                                        assert(ids@[i] != ids@[at as int]);
                                    }
                                    assert(signalled[a] == to_signal@[a]);
                                } else {
                                    assert(signalled[a] == to_signal@[a]);
                                    assert(signalled[b] == to_signal@[b]);
                                }
                            }
                        }
                    }
                },
                None => {},
            }
            at += 1;
        }
        proof {
            assert forall|id: TaskID| #[trigger] tasks@.contains_key(id) implies tasks@[id] == (ManagedTask {
                period: old(self).tasks()[id].period,
                stop_sent: true,
            }) by {
                assert(ids@.to_set().contains(id));
                let i = choose|i: int| 0 <= i < ids@.len() && ids@[i] == id;
                assert(tasks@[ids@[i]] == tasks@[id]);
            }
            assert forall|id: TaskID|
                to_signal@.contains(id) <==> old(self).tasks().contains_key(id) && !old(
                    self,
                ).tasks()[id].stop_sent by {
                if old(self).tasks().contains_key(id) && !old(self).tasks()[id].stop_sent {
                    assert(ids@.to_set().contains(id));
                    let i = choose|i: int| 0 <= i < ids@.len() && ids@[i] == id;
                    assert(0 <= i < at && ids@[i] == id);
                }
                if to_signal@.contains(id) {
                    let i = choose|i: int|
                        0 <= i < at && ids@[i] == id && !old(self).tasks()[id].stop_sent;
                    assert(ids@.to_set().contains(ids@[i]));
                }
            }
        }
        std::mem::swap(&mut self.tasks, &mut tasks);
        to_signal
    }

    /// Takes the task `task_id` out of the table, and tells whether it was there:
    /// if so, its thread is to be joined. An identifier that is not in
    /// the table changes nothing.
    pub fn wait_on_task_finish(&mut self, task_id: TaskID) -> (known: bool)
        ensures
            known == old(self).tasks().contains_key(task_id),
            final(self).tasks() == old(self).tasks().remove(task_id),
            final(self).next_id() == old(self).next_id(),
    {
        broadcast use vstd::std_specs::hash::group_hash_axioms;

        proof {
            use_type_invariant(&*self);
        }
        let mut tasks: HashMap<ThreadID, ManagedTask> = HashMap::new();
        std::mem::swap(&mut self.tasks, &mut tasks);
        let removed = tasks.remove(&task_id);
        std::mem::swap(&mut self.tasks, &mut tasks);
        removed.is_some()
    }

    /// Tells whether the task `task_id` is in the table.
    pub fn is_known(&self, task_id: TaskID) -> (known: bool)
        ensures
            known == self.tasks().contains_key(task_id),
    {
        broadcast use vstd::std_specs::hash::group_hash_axioms;

        self.tasks.contains_key(&task_id)
    }

    /// The number of tasks in the table.
    pub fn task_count(&self) -> (count: usize)
        ensures
            count == self.tasks().len(),
    {
        broadcast use vstd::std_specs::hash::group_hash_axioms;

        self.tasks.len()
    }
}

impl Default for ThreadManager {
    fn default() -> (manager: Self)
        ensures
            manager.tasks() == Map::<TaskID, ManagedTask>::empty(),
            manager.next_id() == 0,
    {
        ThreadManager::new()
    }
}

/// The table after it has waited for the tasks `ids`, one after the other.
pub open spec fn after_waits(tasks: Map<TaskID, ManagedTask>, ids: Seq<TaskID>) -> Map<
    TaskID,
    ManagedTask,
>
    decreases ids.len(),
{
    if ids.len() == 0 {
        tasks
    } else {
        after_waits(tasks.remove(ids[0]), ids.drop_first())
    }
}

/// Once the scheduler has waited for every task in its table, in any order
/// and however often, the table is empty.
pub proof fn lemma_waiting_for_all_empties(tasks: Map<TaskID, ManagedTask>, ids: Seq<TaskID>)
    requires
        forall|id: TaskID| #[trigger] tasks.contains_key(id) ==> ids.contains(id),
    ensures
        after_waits(tasks, ids) == Map::<TaskID, ManagedTask>::empty(),
    decreases ids.len(),
{
    if ids.len() == 0 {
        assert forall|id: TaskID| !tasks.contains_key(id) by {
            if tasks.contains_key(id) {
                assert(ids.contains(id));
            }
        }
        assert(tasks =~= Map::<TaskID, ManagedTask>::empty());
    } else {
        let rest = tasks.remove(ids[0]);
        assert forall|id: TaskID| #[trigger] rest.contains_key(id) implies ids.drop_first().contains(
            id,
        ) by {
            assert(tasks.contains_key(id));
            let i = choose|i: int| 0 <= i < ids.len() && ids[i] == id;
            assert(ids.drop_first()[i - 1] == id);
        }
        lemma_waiting_for_all_empties(rest, ids.drop_first());
    }
}

/// What the thread of a task does next.
#[derive(Debug, PartialEq, Eq, Clone, Copy, Structural)]
pub enum TaskAction {
    /// Call `step` of the task.
    Step,
    /// Wait for the signal to stop, but not beyond `deadline`.
    WaitUntil { deadline: u64 },
    /// Look whether the signal to stop has come, without waiting; give the
    /// processor away first if `yield_first` is set.
    Poll { yield_first: bool },
    /// End the thread.
    Finish,
}

/// The pace of one task: when its next step is due. Instants are
/// nanoseconds on a clock that never goes back.
#[derive(Debug, PartialEq, Eq, Clone, Copy, Structural)]
pub struct TaskPacer {
    pub next_run: u64,
    pub period: u64,
}

impl TaskPacer {
    /// A task that starts at `now`: its first step is due at once.
    pub fn new(period: u64, now: u64) -> (pacer: Self)
        ensures
            pacer == (TaskPacer { next_run: now, period }),
    {
        TaskPacer { next_run: now, period }
    }

    /// What follows a step that ended at `now` and returned `keep_going`.
    ///
    /// A task that is done ends. Else the next step is due one period after
    /// the last was due. If that lies ahead, the thread waits for it, or for
    /// the signal to stop. If it does not, the task has fallen behind: the
    /// next step is due now, the time lost is not made up, and the thread
    /// only looks for the signal. With a period of zero it gives the
    /// processor away before that.
    pub fn after_step(&mut self, keep_going: bool, now: u64) -> (action: TaskAction)
        requires
            old(self).next_run + old(self).period <= u64::MAX,
        ensures
            final(self).period == old(self).period,
            action == Self::action_after_step(*old(self), keep_going, now),
            final(self).next_run == Self::due_after_step(*old(self), keep_going, now),
    {
        if !keep_going {
            return TaskAction::Finish;
        }
        let due = self.next_run + self.period;
        if due > now {
            self.next_run = due;
            TaskAction::WaitUntil { deadline: due }
        } else {
            self.next_run = now;
            TaskAction::Poll { yield_first: self.period == 0 }
        }
    }

    /// What the thread does after a step.
    pub open spec fn action_after_step(pacer: TaskPacer, keep_going: bool, now: u64) -> TaskAction {
        if !keep_going {
            TaskAction::Finish
        } else if pacer.next_run + pacer.period > now {
            TaskAction::WaitUntil { deadline: (pacer.next_run + pacer.period) as u64 }
        } else {
            TaskAction::Poll { yield_first: pacer.period == 0 }
        }
    }

    /// When the next step is due after a step.
    pub open spec fn due_after_step(pacer: TaskPacer, keep_going: bool, now: u64) -> u64 {
        if !keep_going {
            pacer.next_run
        } else if pacer.next_run + pacer.period > now {
            (pacer.next_run + pacer.period) as u64
        } else {
            now
        }
    }

    /// Tells whether the next instant at which a step is due can be
    /// written: `after_step` asks for it.
    pub fn can_advance(&self) -> (fits: bool)
        ensures
            fits == (self.next_run + self.period <= u64::MAX),
    {
        self.next_run <= u64::MAX - self.period
    }

    /// What follows a wait or a look for the signal to stop: the signal
    /// ends the task, its absence lets it step.
    pub fn after_wait(stop_signalled: bool) -> (action: TaskAction)
        ensures
            action == if stop_signalled {
                TaskAction::Finish
            } else {
                TaskAction::Step
            },
    {
        if stop_signalled {
            TaskAction::Finish
        } else {
            TaskAction::Step
        }
    }
}

} // verus!
