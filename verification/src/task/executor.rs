//! The scheduler: a table of tasks, a queue of the tasks that are ready to
//! run, and the task that is running.
//!
//! Scheduling is round-robin and driven by the timer: every tick puts the
//! interrupted task at the back of the queue and resumes the task at the
//! front. Switching tasks means overwriting, in place, the trap frame and the
//! registers the interrupt will return to.

use vstd::prelude::*;
use vstd::bytes::spec_u64_to_le_bytes;
use std::collections::BTreeMap;
use std::collections::VecDeque;
use crate::concurrency::mutex::Mutex;
use crate::interrupts::user_interrupts::{attach_new_interrupt_handler, UserIntHandler};
use crate::interrupts::{InterruptFrame, InterruptIndex, StandardContext};
use crate::pic::{ChainedPics, PortWrite};
use crate::task::schedule::{
    completed,
    idle_schedule,
    preempted,
    reaped,
    resumption,
    schedule_well_formed,
    scheduled,
    spawn_number,
    spawned,
    started_task,
    ticked,
    Resumption,
    Schedule,
};
use crate::task::{
    is_entry_context,
    EntryPoints,
    PreemptiveTask,
    TaskId,
    TaskIds,
    RETURN_SLOT,
    STACK_SIZE,
};

verus! {

/// Number of the software interrupt a task raises when its entry function
/// has returned.
pub const TASK_DONE_INTERRUPT: u8 = 0;

/// Number of the software interrupt by which a task gives up the processor.
pub const YIELD_INTERRUPT: u8 = 1;

/// The scheduler's bookkeeping.
pub struct Executor<E> {
    tasks: BTreeMap<u64, Box<PreemptiveTask<E>>>,
    task_queue: VecDeque<TaskId>,
    active_task: Option<TaskId>,
    ids: TaskIds,
    entry_points: EntryPoints,
}

impl<E> Executor<E> {
    /// The bookkeeping as plain facts.
    pub closed spec fn schedule(&self) -> Schedule {
        Schedule {
            live: Set::new(|id: TaskId| self.tasks@.contains_key(id.0)),
            done: Set::new(
                |id: TaskId| self.tasks@.contains_key(id.0) && self.tasks@[id.0].is_complete(),
            ),
            saved: Map::new(
                |id: TaskId|
                    self.tasks@.contains_key(id.0) && self.tasks@[id.0].continuation() is Some,
                |id: TaskId| self.tasks@[id.0].continuation()->0,
            ),
            queue: self.task_queue@,
            active: self.active_task,
            upcoming: self.ids.upcoming(),
        }
    }

    /// The task that `id` names. Only meaningful for a task in the table.
    pub closed spec fn task(&self, id: TaskId) -> PreemptiveTask<E> {
        *self.tasks@[id.0]
    }

    /// The addresses every task starts and ends in.
    pub closed spec fn entry_points(&self) -> EntryPoints {
        self.entry_points
    }

    /// The table files every task under its own identity, every task owns a
    /// full stack, and the bookkeeping is sound. Every executor is created in
    /// this state and every operation keeps it.
    pub closed spec fn well_formed(&self) -> bool {
        &&& forall|number: u64| #[trigger]
            self.tasks@.contains_key(number) ==> self.tasks@[number].well_formed()
                && self.tasks@[number].id() == TaskId(number)
        &&& schedule_well_formed(self.schedule())
    }

    /// Whether every task of `earlier`, but for `except`, is still the same
    /// in `self`: same entry function, same stack.
    pub open spec fn same_tasks_but(&self, earlier: &Self, except: Option<TaskId>) -> bool {
        forall|id: TaskId|
            #![trigger self.task(id)]
            earlier.schedule().live.contains(id) && self.schedule().live.contains(id) && except
                != Some(id) ==> self.task(id).entry() == earlier.task(id).entry() && self.task(
                id,
            ).stack() == earlier.task(id).stack()
    }

    /// Whether the tasks of `earlier` are still the same in `self`, given
    /// that scheduling started the task `started`, if any: a task that was
    /// started has the address of `end_curr_task` in the return slot of its
    /// stack and is otherwise as it was, and every other task is as it was.
    pub open spec fn tasks_kept(&self, earlier: &Self, started: Option<TaskId>) -> bool {
        &&& self.same_tasks_but(earlier, started)
        &&& started is Some ==> {
            &&& self.task(started->0).entry() == earlier.task(started->0).entry()
            &&& self.task(started->0).stack() == earlier.task(started->0).stack().subrange(
                0,
                RETURN_SLOT as int,
            ) + spec_u64_to_le_bytes(earlier.entry_points().end_curr_task)
        }
    }

    /// An executor without any task.
    pub fn new(entry_points: EntryPoints) -> (executor: Self)
        ensures
            executor.well_formed(),
            executor.schedule() == idle_schedule(),
            executor.entry_points() == entry_points,
    {
        Executor::with_task_ids(entry_points, TaskIds::new())
    }

    /// An executor without any task that takes the identities of its tasks
    /// from `ids`.
    pub fn with_task_ids(entry_points: EntryPoints, ids: TaskIds) -> (executor: Self)
        ensures
            executor.well_formed(),
            executor.schedule() == (Schedule { upcoming: ids.upcoming(), ..idle_schedule() }),
            executor.entry_points() == entry_points,
    {
        let executor = Executor {
            tasks: BTreeMap::new(),
            task_queue: VecDeque::new(),
            active_task: None,
            ids,
            entry_points,
        };
        assert(executor.schedule().live =~= Set::empty());
        assert(executor.schedule().done =~= Set::empty());
        assert(executor.schedule().saved =~= Map::empty());
        executor
    }

    /// The task that is running, if any.
    pub fn active_task(&self) -> (active: Option<TaskId>)
        ensures
            active == self.schedule().active,
    {
        self.active_task
    }

    /// Number of tasks that are ready to run.
    pub fn ready_count(&self) -> (count: usize)
        ensures
            count == self.schedule().queue.len(),
    {
        self.task_queue.len()
    }

    /// Whether `id` has an entry in the table.
    pub fn contains(&self, id: TaskId) -> (present: bool)
        ensures
            present == self.schedule().live.contains(id),
    {
        self.tasks.contains_key(&id.0)
    }

    /// The task that `id` names, if it has an entry in the table.
    pub fn get(&self, id: TaskId) -> (found: Option<&PreemptiveTask<E>>)
        ensures
            found is Some <==> self.schedule().live.contains(id),
            found is Some ==> *found->0 == self.task(id),
            found is Some && self.well_formed() ==> found->0.id() == id,
    {
        match self.tasks.get(&id.0) {
            Some(task) => Some(&**task),
            None => None,
        }
    }

    /// Creates a task that will run `task`, files it in the table and puts
    /// it at the back of the queue. Returns the new task's identity, or
    /// `None` when every identity has been handed out.
    pub fn spawn(&mut self, task: E) -> (id: Option<TaskId>)
        requires
            old(self).well_formed(),
        ensures
            final(self).well_formed(),
            final(self).schedule() == spawned(old(self).schedule()),
            final(self).entry_points() == old(self).entry_points(),
            id == spawn_number(old(self).schedule()),
            final(self).same_tasks_but(old(self), None),
            id is Some ==> {
                &&& final(self).task(id->0).id() == id->0
                &&& final(self).task(id->0).entry() == task
                &&& final(self).task(id->0).stack() == Seq::new(STACK_SIZE as nat, |i: int| 0u8)
            },
    {
        if self.ids.peek() == u64::MAX {
            return None;
        }
        let id = TaskId::new(&mut self.ids);
        self.tasks.insert(id.0, Box::new(PreemptiveTask::new(id, task)));
        self.task_queue.push_back(id);
        proof {
            let before = old(self).schedule();
            let after = self.schedule();
            assert(after.live =~= before.live.insert(id));
            assert(after.done =~= before.done);
            assert(after.saved =~= before.saved);
            assert(after.queue =~= before.queue.push(id));
            assert(!before.queue.contains(id));
        }
        Some(id)
    }

    /// First half of a timer tick: the running task, interrupted in the state
    /// `interrupt_frame` and `ctx` describe, goes to the back of the queue
    /// and will continue in exactly that state.
    pub fn preempt(&mut self, interrupt_frame: &InterruptFrame, ctx: &StandardContext)
        requires
            old(self).well_formed(),
        ensures
            final(self).well_formed(),
            final(self).schedule() == preempted(old(self).schedule(), (*interrupt_frame, *ctx)),
            final(self).entry_points() == old(self).entry_points(),
            final(self).same_tasks_but(old(self), None),
    {
        let taken = self.active_task.take();
        if let Some(current_task) = taken {
            let removed = self.tasks.remove(&current_task.0);
            if let Some(mut task) = removed {
                task.suspend((*interrupt_frame, *ctx));
                self.tasks.insert(current_task.0, task);
                self.task_queue.push_back(current_task);
            }
        }
        proof {
            let before = old(self).schedule();
            let after = self.schedule();
            let target = preempted(before, (*interrupt_frame, *ctx));
            assert(after.live =~= target.live);
            assert(after.done =~= target.done);
            assert(after.saved =~= target.saved);
            assert(after.queue =~= target.queue);
        }
    }

    /// Second half of a timer tick: takes the head off the queue and, if
    /// that task can run, makes it the running task and overwrites
    /// `ictx` and `sctx` with the state the task continues in. With nothing
    /// to switch to, `ictx` and `sctx` are left as they are.
    pub fn scheduler_loop(&mut self, ictx: &mut InterruptFrame, sctx: &mut StandardContext)
        requires
            old(self).well_formed(),
        ensures
            final(self).well_formed(),
            final(self).schedule() == scheduled(old(self).schedule()),
            final(self).entry_points() == old(self).entry_points(),
            final(self).tasks_kept(old(self), started_task(old(self).schedule())),
            match resumption(old(self).schedule()) {
                Resumption::Continue => *final(ictx) == *old(ictx) && *final(sctx) == *old(sctx),
                Resumption::Resume(saved) => (*final(ictx), *final(sctx)) == saved,
                Resumption::Start => is_entry_context(
                    (*final(ictx), *final(sctx)),
                    old(self).entry_points().run_task,
                ),
            },
    {
        let popped = self.task_queue.pop_front();
        if let Some(next_task) = popped {
            let removed = self.tasks.remove(&next_task.0);
            if let Some(mut task) = removed {
                let polled = task.poll(&self.entry_points);
                self.tasks.insert(next_task.0, task);
                if let Some(ctx) = polled {
                    self.active_task = Some(next_task);
                    *ictx = ctx.0;
                    *sctx = ctx.1;
                }
            }
        }
        proof {
            let before = old(self).schedule();
            let after = self.schedule();
            let target = scheduled(before);
            assert(after.live =~= target.live);
            assert(after.done =~= target.done);
            assert(after.saved =~= target.saved);
            assert(after.queue =~= target.queue);
            if before.queue.len() > 0 {
                let next = before.queue.first();
                assert(before.queue[0] == next);
                assert forall|i: int| 0 <= i < target.queue.len() implies target.queue[i]
                    != next by {
                    assert(target.queue[i] == before.queue[i + 1]);
                }
            }
        }
    }

    /// A whole timer tick: the running task, interrupted in the state
    /// `interrupt_frame` and `ctx` describe, makes way for the task at the
    /// head of the queue.
    pub fn timer_tick(&mut self, interrupt_frame: &mut InterruptFrame, ctx: &mut StandardContext)
        requires
            old(self).well_formed(),
        ensures
            final(self).well_formed(),
            final(self).schedule() == ticked(
                old(self).schedule(),
                (*old(interrupt_frame), *old(ctx)),
            ),
            final(self).entry_points() == old(self).entry_points(),
            final(self).tasks_kept(
                old(self),
                started_task(preempted(old(self).schedule(), (*old(interrupt_frame), *old(ctx)))),
            ),
            match resumption(preempted(old(self).schedule(), (*old(interrupt_frame), *old(ctx)))) {
                Resumption::Continue => *final(interrupt_frame) == *old(interrupt_frame) && *final(ctx) == *old(ctx),
                Resumption::Resume(saved) => (*final(interrupt_frame), *final(ctx)) == saved,
                Resumption::Start => is_entry_context(
                    (*final(interrupt_frame), *final(ctx)),
                    old(self).entry_points().run_task,
                ),
            },
    {
        self.preempt(interrupt_frame, ctx);
        self.scheduler_loop(interrupt_frame, ctx);
    }

    /// Records that the entry function of the running task has returned, so
    /// that the task is never given the processor again.
    pub fn complete_active(&mut self)
        requires
            old(self).well_formed(),
        ensures
            final(self).well_formed(),
            final(self).schedule() == completed(old(self).schedule()),
            final(self).entry_points() == old(self).entry_points(),
            final(self).same_tasks_but(old(self), None),
    {
        if let Some(current_task) = self.active_task {
            let removed = self.tasks.remove(&current_task.0);
            if let Some(mut task) = removed {
                task.mark_complete();
                self.tasks.insert(current_task.0, task);
            }
        }
        proof {
            let before = old(self).schedule();
            let after = self.schedule();
            let target = completed(before);
            assert(after.live =~= target.live);
            assert(after.done =~= target.done);
            assert(after.saved =~= target.saved);
        }
    }

    /// Reaps the running task: its entry leaves the table, its stack is
    /// freed, and nobody is running until the next tick.
    pub fn on_task_done(&mut self)
        requires
            old(self).well_formed(),
        ensures
            final(self).well_formed(),
            final(self).schedule() == reaped(old(self).schedule()),
            final(self).entry_points() == old(self).entry_points(),
            final(self).same_tasks_but(old(self), None),
    {
        let taken = self.active_task.take();
        if let Some(task) = taken {
            self.tasks.remove(&task.0);
        }
        proof {
            let before = old(self).schedule();
            let after = self.schedule();
            let target = reaped(before);
            assert(after.live =~= target.live);
            assert(after.done =~= target.done);
            assert(after.saved =~= target.saved);
        }
    }
}

/// What the timer interrupt does to the scheduler behind `instance`, with
/// the interrupted state in `interrupt_frame` and `ctx`. Returns the bytes
/// that acknowledge the interrupt to the controllers `pics`.
///
/// Before the kernel is initialised the tick does nothing. Afterwards it
/// makes a single attempt to lock the scheduler: an interrupt that arrives
/// while the scheduler is locked must not wait for the lock, so it skips
/// scheduling and the interrupted code continues. The interrupt is
/// acknowledged in every case.
pub fn timer_interrupt_handler<E>(
    initialised: bool,
    instance: &mut Mutex<Executor<E>>,
    pics: &ChainedPics,
    interrupt_frame: &mut InterruptFrame,
    ctx: &mut StandardContext,
) -> (acknowledgement: Vec<PortWrite>)
    requires
        old(instance)@.well_formed(),
    ensures
        acknowledgement@ == pics.acknowledgement(InterruptIndex::Timer.vector()),
        final(instance)@.well_formed(),
        final(instance).available() == old(instance).available(),
        final(instance)@.entry_points() == old(instance)@.entry_points(),
        if initialised && !old(instance).is_locked() {
            &&& final(instance)@.schedule() == ticked(
                old(instance)@.schedule(),
                (*old(interrupt_frame), *old(ctx)),
            )
            &&& final(instance)@.tasks_kept(
                &old(instance)@,
                started_task(
                    preempted(old(instance)@.schedule(), (*old(interrupt_frame), *old(ctx))),
                ),
            )
            &&& match resumption(
                preempted(old(instance)@.schedule(), (*old(interrupt_frame), *old(ctx))),
            ) {
                Resumption::Continue => *final(interrupt_frame) == *old(interrupt_frame) && *final(ctx) == *old(ctx),
                Resumption::Resume(saved) => (*final(interrupt_frame), *final(ctx)) == saved,
                Resumption::Start => is_entry_context(
                    (*final(interrupt_frame), *final(ctx)),
                    old(instance)@.entry_points().run_task,
                ),
            }
        } else {
            &&& final(instance)@ == old(instance)@
            &&& *final(interrupt_frame) == *old(interrupt_frame)
            &&& *final(ctx) == *old(ctx)
        },
{
    if initialised {
        if let Some(guard) = instance.try_lock() {
            let executor = instance.get_mut(&guard);
            executor.timer_tick(interrupt_frame, ctx);
            instance.unlock(guard);
        }
    }
    pics.notify_end_of_interrupt(InterruptIndex::Timer.as_u8())
}

/// What the "task finished" interrupt does to the scheduler behind
/// `instance`: under the scheduler's lock, the running task is reaped. The
/// handler waits for the lock, so the scheduler must not be locked by the
/// code it interrupts.
pub fn task_done_handler<E>(instance: &mut Mutex<Executor<E>>)
    requires
        old(instance)@.well_formed(),
        !old(instance).is_locked(),
    ensures
        final(instance)@.well_formed(),
        final(instance).available() == old(instance).available(),
        final(instance)@.entry_points() == old(instance)@.entry_points(),
        final(instance)@.schedule() == reaped(old(instance)@.schedule()),
        final(instance)@.same_tasks_but(&old(instance)@, None),
{
    let guard = instance.lock();
    let executor = instance.get_mut(&guard);
    executor.on_task_done();
    instance.unlock(guard);
}

/// Sets the scheduler up: creates it behind its lock, and attaches
/// `task_done` and `timer` as the handlers of the "task finished" and the
/// yield interrupt. Both requests must still be free.
pub fn init<E, H: Copy>(
    handlers: &mut UserIntHandler<H>,
    task_done: H,
    timer: H,
    entry_points: EntryPoints,
) -> (instance: Mutex<Executor<E>>)
    requires
        old(handlers)@[TASK_DONE_INTERRUPT as int] is None,
        old(handlers)@[YIELD_INTERRUPT as int] is None,
    ensures
        final(handlers)@ == old(handlers)@.update(
            TASK_DONE_INTERRUPT as int,
            Some(task_done),
        ).update(YIELD_INTERRUPT as int, Some(timer)),
        !instance.is_locked(),
        instance@.well_formed(),
        instance@.schedule() == idle_schedule(),
        instance@.entry_points() == entry_points,
{
    let instance = Mutex::new(Executor::new(entry_points));
    proof {
        handlers.lemma_slots();
    }
    attach_new_interrupt_handler(handlers, TASK_DONE_INTERRUPT, task_done);
    attach_new_interrupt_handler(handlers, YIELD_INTERRUPT, timer);
    instance
}

} // verus!
