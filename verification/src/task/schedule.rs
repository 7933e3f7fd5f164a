//! Round-robin scheduling as a state machine: what the scheduler keeps track
//! of, what each of its moves does to that, and what follows.

use vstd::prelude::*;
use vstd::arithmetic::div_mod::{
    lemma_add_mod_noop,
    lemma_mod_add_multiples_vanish,
    lemma_mod_pos_bound,
    lemma_mod_twice,
    lemma_small_mod,
};
use crate::task::{ContextState, TaskId};

verus! {

/// The scheduler's bookkeeping, as the plain facts it amounts to.
pub struct Schedule {
    /// The tasks in the table.
    pub live: Set<TaskId>,
    /// The tasks in the table whose entry function has returned.
    pub done: Set<TaskId>,
    /// Where each interrupted task is to continue.
    pub saved: Map<TaskId, ContextState>,
    /// The tasks that are ready to run, next one first.
    pub queue: Seq<TaskId>,
    /// The task that is running.
    pub active: Option<TaskId>,
    /// The number the next task will get.
    pub upcoming: u64,
}

/// A schedule without any task.
pub open spec fn idle_schedule() -> Schedule {
    Schedule {
        live: Set::empty(),
        done: Set::empty(),
        saved: Map::empty(),
        queue: Seq::empty(),
        active: None,
        upcoming: 0,
    }
}

/// Whether `id` names a task that can still be given the processor.
pub open spec fn runnable(schedule: Schedule, id: TaskId) -> bool {
    schedule.live.contains(id) && !schedule.done.contains(id)
}

/// The bookkeeping is sound: whoever is queued or running has an entry in
/// the table, nobody is queued twice or queued while running, and no task
/// carries a number the counter has yet to reach.
pub open spec fn schedule_well_formed(schedule: Schedule) -> bool {
    &&& forall|i: int|
        0 <= i < schedule.queue.len() ==> schedule.live.contains(#[trigger] schedule.queue[i])
    &&& schedule.queue.no_duplicates()
    &&& schedule.active is Some ==> schedule.live.contains(schedule.active->0)
        && !schedule.queue.contains(schedule.active->0)
    &&& forall|id: TaskId| #[trigger] schedule.live.contains(id) ==> id.0 < schedule.upcoming
    &&& forall|id: TaskId| #[trigger] schedule.done.contains(id) ==> schedule.live.contains(id)
    &&& forall|id: TaskId| #[trigger]
        schedule.saved.contains_key(id) ==> schedule.live.contains(id)
}

/// The number a new task would get, or `None` when the counter is used up.
pub open spec fn spawn_number(schedule: Schedule) -> Option<TaskId> {
    if schedule.upcoming < u64::MAX {
        Some(TaskId(schedule.upcoming))
    } else {
        None
    }
}

/// The schedule after a task was spawned: the new task is in the table and
/// at the back of the queue. With the counter used up nothing changes.
pub open spec fn spawned(schedule: Schedule) -> Schedule {
    match spawn_number(schedule) {
        Some(id) => Schedule {
            live: schedule.live.insert(id),
            queue: schedule.queue.push(id),
            upcoming: (schedule.upcoming + 1) as u64,
            ..schedule
        },
        None => schedule,
    }
}

/// The schedule after the running task was interrupted in `context`: the
/// task goes to the back of the queue and will continue in `context`. A
/// running task that has no entry in the table is simply forgotten.
pub open spec fn preempted(schedule: Schedule, context: ContextState) -> Schedule {
    match schedule.active {
        Some(current) => if schedule.live.contains(current) {
            Schedule {
                saved: schedule.saved.insert(current, context),
                queue: schedule.queue.push(current),
                active: None,
                ..schedule
            }
        } else {
            Schedule { active: None, ..schedule }
        },
        None => schedule,
    }
}

/// The schedule after the head of the queue was taken off: it becomes the
/// running task if it can run, and is dropped otherwise.
pub open spec fn scheduled(schedule: Schedule) -> Schedule {
    if schedule.queue.len() == 0 {
        schedule
    } else {
        let next = schedule.queue.first();
        if runnable(schedule, next) {
            Schedule {
                saved: schedule.saved.remove(next),
                queue: schedule.queue.drop_first(),
                active: Some(next),
                ..schedule
            }
        } else {
            Schedule { queue: schedule.queue.drop_first(), ..schedule }
        }
    }
}

/// How the processor is to go on after scheduling.
pub enum Resumption {
    /// Nothing to switch to: the interrupted code continues.
    Continue,
    /// A task that was interrupted before continues in its saved context.
    Resume(ContextState),
    /// A task that has not run yet starts in a fresh context.
    Start,
}

/// What scheduling does to the interrupted context.
pub open spec fn resumption(schedule: Schedule) -> Resumption {
    if schedule.queue.len() > 0 && runnable(schedule, schedule.queue.first()) {
        if schedule.saved.contains_key(schedule.queue.first()) {
            Resumption::Resume(schedule.saved[schedule.queue.first()])
        } else {
            Resumption::Start
        }
    } else {
        Resumption::Continue
    }
}

/// The task that scheduling starts from its very beginning, if it starts one.
pub open spec fn started_task(schedule: Schedule) -> Option<TaskId> {
    if resumption(schedule) is Start {
        Some(schedule.queue.first())
    } else {
        None
    }
}

/// The schedule after one timer tick that interrupted the running task in
/// `context`.
pub open spec fn ticked(schedule: Schedule, context: ContextState) -> Schedule {
    scheduled(preempted(schedule, context))
}

/// The schedule after the running task's entry function returned.
pub open spec fn completed(schedule: Schedule) -> Schedule {
    match schedule.active {
        Some(current) => if schedule.live.contains(current) {
            Schedule { done: schedule.done.insert(current), ..schedule }
        } else {
            schedule
        },
        None => schedule,
    }
}

/// The schedule after the running task was reaped: it is gone from the
/// table, and nobody is running.
pub open spec fn reaped(schedule: Schedule) -> Schedule {
    match schedule.active {
        Some(current) => Schedule {
            live: schedule.live.remove(current),
            done: schedule.done.remove(current),
            saved: schedule.saved.remove(current),
            active: None,
            ..schedule
        },
        None => schedule,
    }
}

/// Something that happens to the scheduler.
pub enum SchedulerEvent {
    /// A task is spawned.
    Spawn,
    /// The timer interrupts the running code in the given context.
    Tick(ContextState),
    /// The entry function of the running task returns.
    Complete,
    /// The running task is reaped.
    Reap,
}

/// The effect of one event.
pub open spec fn schedule_step(before: Schedule, event: SchedulerEvent) -> Schedule {
    match event {
        SchedulerEvent::Spawn => spawned(before),
        SchedulerEvent::Tick(context) => ticked(before, context),
        SchedulerEvent::Complete => completed(before),
        SchedulerEvent::Reap => reaped(before),
    }
}

/// Where a scheduler that starts at `start` stands after `events`.
pub open spec fn schedule_run(start: Schedule, events: Seq<SchedulerEvent>) -> Schedule
    decreases events.len(),
{
    if events.len() == 0 {
        start
    } else {
        schedule_step(schedule_run(start, events.drop_last()), events.last())
    }
}

/// Where a scheduler that starts at `start` stands after one timer tick for
/// each of `contexts`.
pub open spec fn schedule_ticks(start: Schedule, contexts: Seq<ContextState>) -> Schedule
    decreases contexts.len(),
{
    if contexts.len() == 0 {
        start
    } else {
        ticked(schedule_ticks(start, contexts.drop_last()), contexts.last())
    }
}

/// Spawning keeps the bookkeeping sound.
pub proof fn lemma_spawned_well_formed(before: Schedule)
    requires
        schedule_well_formed(before),
    ensures
        schedule_well_formed(spawned(before)),
{
    if let Some(id) = spawn_number(before) {
        let after = spawned(before);
        assert(!before.live.contains(id));
        assert forall|i: int| 0 <= i < after.queue.len() implies after.live.contains(
            #[trigger] after.queue[i],
        ) by {
            if i < before.queue.len() {
                assert(after.queue[i] == before.queue[i]);
            }
        }
        assert(after.queue.no_duplicates()) by {
            assert forall|i: int, j: int|
                0 <= i < after.queue.len() && 0 <= j < after.queue.len() && i != j implies
                after.queue[i] != after.queue[j] by {
                if i < before.queue.len() {
                    assert(before.live.contains(before.queue[i]));
                }
                if j < before.queue.len() {
                    assert(before.live.contains(before.queue[j]));
                }
            }
        }
        if before.active is Some {
            let running = before.active->0;
            assert forall|i: int| 0 <= i < after.queue.len() implies after.queue[i]
                != running by {
                if i < before.queue.len() {
                    assert(before.queue[i] == after.queue[i]);
                    assert(before.queue.contains(before.queue[i]));
                }
            }
        }
    }
}

/// Interrupting the running task keeps the bookkeeping sound.
pub proof fn lemma_preempted_well_formed(before: Schedule, context: ContextState)
    requires
        schedule_well_formed(before),
    ensures
        schedule_well_formed(preempted(before, context)),
{
    if before.active is Some {
        let current = before.active->0;
        let after = preempted(before, context);
        assert forall|i: int| 0 <= i < after.queue.len() implies after.live.contains(
            #[trigger] after.queue[i],
        ) by {
            if i < before.queue.len() {
                assert(after.queue[i] == before.queue[i]);
            }
        }
        assert(after.queue.no_duplicates()) by {
            assert forall|i: int, j: int|
                0 <= i < after.queue.len() && 0 <= j < after.queue.len() && i != j implies
                after.queue[i] != after.queue[j] by {
                if i < before.queue.len() {
                    assert(before.queue.contains(before.queue[i]));
                }
                if j < before.queue.len() {
                    assert(before.queue.contains(before.queue[j]));
                }
            }
        }
    }
}

/// Taking the head off the queue keeps the bookkeeping sound.
pub proof fn lemma_scheduled_well_formed(before: Schedule)
    requires
        schedule_well_formed(before),
    ensures
        schedule_well_formed(scheduled(before)),
{
    if before.queue.len() > 0 {
        let after = scheduled(before);
        let next = before.queue.first();
        assert(before.queue[0] == next);
        assert forall|i: int| 0 <= i < after.queue.len() implies after.live.contains(
            #[trigger] after.queue[i],
        ) && after.queue[i] != next by {
            assert(after.queue[i] == before.queue[i + 1]);
        }
        assert(after.queue.no_duplicates()) by {
            assert forall|i: int, j: int|
                0 <= i < after.queue.len() && 0 <= j < after.queue.len() && i != j implies
                after.queue[i] != after.queue[j] by {
                assert(after.queue[i] == before.queue[i + 1]);
                assert(after.queue[j] == before.queue[j + 1]);
            }
        }
        if before.active is Some {
            let running = before.active->0;
            assert forall|i: int| 0 <= i < after.queue.len() implies after.queue[i]
                != running by {
                assert(after.queue[i] == before.queue[i + 1]);
                assert(before.queue.contains(before.queue[i + 1]));
            }
        }
    }
}

/// Reaping the running task keeps the bookkeeping sound.
pub proof fn lemma_reaped_well_formed(before: Schedule)
    requires
        schedule_well_formed(before),
    ensures
        schedule_well_formed(reaped(before)),
{
    if before.active is Some {
        let current = before.active->0;
        let after = reaped(before);
        assert forall|i: int| 0 <= i < after.queue.len() implies after.live.contains(
            #[trigger] after.queue[i],
        ) by {
            assert(before.queue.contains(before.queue[i]));
        }
    }
}

/// The bookkeeping stays sound whatever happens: whoever is queued or
/// running has an entry in the table, at every moment.
pub proof fn lemma_schedule_stays_well_formed(start: Schedule, events: Seq<SchedulerEvent>)
    requires
        schedule_well_formed(start),
    ensures
        schedule_well_formed(schedule_run(start, events)),
    decreases events.len(),
{
    if events.len() > 0 {
        lemma_schedule_stays_well_formed(start, events.drop_last());
        let before = schedule_run(start, events.drop_last());
        match events.last() {
            SchedulerEvent::Spawn => lemma_spawned_well_formed(before),
            SchedulerEvent::Tick(context) => {
                lemma_preempted_well_formed(before, context);
                lemma_scheduled_well_formed(preempted(before, context));
            },
            SchedulerEvent::Complete => {},
            SchedulerEvent::Reap => lemma_reaped_well_formed(before),
        }
    }
}

/// Of two tasks spawned on an idle scheduler, the first tick runs the one
/// that was spawned first, from its very beginning, and leaves the other one
/// waiting.
pub proof fn lemma_first_spawned_runs_first(start: Schedule, context: ContextState)
    requires
        schedule_well_formed(start),
        start.queue.len() == 0,
        start.active is None,
        start.upcoming + 1 < u64::MAX,
    ensures
        spawn_number(start) is Some,
        spawn_number(spawned(start)) is Some,
        ticked(spawned(spawned(start)), context).active == spawn_number(start),
        ticked(spawned(spawned(start)), context).queue == seq![spawn_number(spawned(start))->0],
        resumption(preempted(spawned(spawned(start)), context)) == Resumption::Start,
{
    let first = spawn_number(start)->0;
    let second = spawn_number(spawned(start))->0;
    let both = spawned(spawned(start));
    assert(both.queue =~= seq![first, second]);
    assert(!start.live.contains(first));
    assert(!start.done.contains(first));
    assert(!start.saved.contains_key(first));
    assert(both.queue.drop_first() =~= seq![second]);
}

/// A task that has been reaped is gone for good: whatever happens later, it
/// has no entry in the table and is never given the processor again.
pub proof fn lemma_reaped_task_never_runs(before: Schedule, events: Seq<SchedulerEvent>)
    requires
        schedule_well_formed(before),
        before.active is Some,
    ensures
        !schedule_run(reaped(before), events).live.contains(before.active->0),
        schedule_run(reaped(before), events).active != before.active,
        !schedule_run(reaped(before), events).queue.contains(before.active->0),
    decreases events.len(),
{
    let gone = before.active->0;
    lemma_reaped_well_formed(before);
    lemma_schedule_stays_well_formed(reaped(before), events);
    lemma_gone_stays_gone(reaped(before), gone, events);
    let now = schedule_run(reaped(before), events);
    if now.queue.contains(gone) {
        let i = choose|i: int| 0 <= i < now.queue.len() && now.queue[i] == gone;
        assert(now.live.contains(now.queue[i]));
    }
}

/// A number the counter has passed is never handed out again, so a task
/// that is missing from the table stays missing.
proof fn lemma_gone_stays_gone(start: Schedule, gone: TaskId, events: Seq<SchedulerEvent>)
    requires
        schedule_well_formed(start),
        !start.live.contains(gone),
        gone.0 < start.upcoming,
    ensures
        !schedule_run(start, events).live.contains(gone),
        gone.0 < schedule_run(start, events).upcoming,
    decreases events.len(),
{
    if events.len() > 0 {
        lemma_gone_stays_gone(start, gone, events.drop_last());
    }
}

/// The queue of `tasks` after the task at position `turn` was taken off it
/// for its turn: the tasks that follow it, then the tasks before it.
pub open spec fn queue_behind(tasks: Seq<TaskId>, turn: int) -> Seq<TaskId> {
    Seq::new((tasks.len() - 1) as nat, |i: int| tasks[(turn + 1 + i) % (tasks.len() as int)])
}

/// Round robin: when every task in the queue can run and each is interrupted
/// by the tick that follows the one that resumed it, the ticks resume the
/// tasks in the order of the queue, over and over.
pub proof fn lemma_round_robin(start: Schedule, contexts: Seq<ContextState>)
    requires
        schedule_well_formed(start),
        start.active is None,
        start.queue.len() > 0,
        forall|i: int| 0 <= i < start.queue.len() ==> !start.done.contains(#[trigger] start.queue[i]),
        contexts.len() > 0,
    ensures
        schedule_ticks(start, contexts).active == Some(
            start.queue[(contexts.len() - 1) % (start.queue.len() as int)],
        ),
        schedule_ticks(start, contexts).queue == queue_behind(
            start.queue,
            (contexts.len() - 1) % (start.queue.len() as int),
        ),
        schedule_ticks(start, contexts).live == start.live,
        schedule_ticks(start, contexts).done == start.done,
    decreases contexts.len(),
{
    let tasks = start.queue;
    let n = tasks.len() as int;
    let k = contexts.len() as int;
    let after = schedule_ticks(start, contexts);
    if k == 1 {
        assert(contexts.drop_last().len() == 0);
        assert(schedule_ticks(start, contexts.drop_last()) == start);
        lemma_small_mod(0, n as nat);
        assert(tasks.first() == tasks[0]);
        assert(after.queue =~= queue_behind(tasks, 0)) by {
            assert forall|i: int| 0 <= i < n - 1 implies tasks.drop_first()[i] == tasks[(0 + 1 + i)
                % n] by {
                lemma_small_mod((1 + i) as nat, n as nat);
            }
        }
    } else {
        let earlier = contexts.drop_last();
        lemma_round_robin(start, earlier);
        let before = schedule_ticks(start, earlier);
        let turn = (k - 2) % n;
        lemma_mod_pos_bound(k - 2, n);
        let interrupted = tasks[turn];
        assert(before.active == Some(interrupted));
        assert(before.live.contains(interrupted));
        let waiting = preempted(before, contexts.last());
        assert(waiting.queue == before.queue.push(interrupted));
        let next_turn = (k - 1) % n;
        assert(next_turn == (turn + 1) % n) by {
            lemma_turns_follow(k - 2, n);
        }
        assert(waiting.queue.first() == tasks[next_turn]) by {
            if n == 1 {
                assert(waiting.queue[0] == interrupted);
            } else {
                assert(waiting.queue[0] == before.queue[0]);
                assert(before.queue[0] == tasks[(turn + 1 + 0) % n]);
            }
        }
        assert(runnable(waiting, tasks[next_turn]));
        assert(after.queue =~= queue_behind(tasks, next_turn)) by {
            assert forall|i: int| 0 <= i < n - 1 implies waiting.queue.drop_first()[i]
                == tasks[(next_turn + 1 + i) % n] by {
                assert(waiting.queue.drop_first()[i] == waiting.queue[i + 1]);
                lemma_turn_offset(turn + 1, 1 + i, n);
                if i + 1 < n - 1 {
                    assert(waiting.queue[i + 1] == before.queue[i + 1]);
                    assert(before.queue[i + 1] == tasks[(turn + 1 + (i + 1)) % n]);
                } else {
                    assert(waiting.queue[i + 1] == interrupted);
                    assert(turn + 1 + 1 + i == n + turn);
                    lemma_mod_add_multiples_vanish(turn, n);
                    lemma_small_mod(turn as nat, n as nat);
                }
            }
        }
    }
}

/// The turn after turn `k` is turn `k + 1`, counted around the queue.
proof fn lemma_turns_follow(k: int, n: int)
    requires
        k >= 0,
        n > 0,
    ensures
        (k + 1) % n == ((k % n) + 1) % n,
{
    lemma_turn_offset(k, 1, n);
}

/// Counting `offset` places on from turn `k` gives the same place whether or
/// not `k` was first counted around the queue.
proof fn lemma_turn_offset(k: int, offset: int, n: int)
    requires
        k >= 0,
        offset >= 0,
        n > 0,
    ensures
        (k + offset) % n == ((k % n) + offset) % n,
{
    lemma_add_mod_noop(k, offset, n);
    lemma_add_mod_noop(k % n, offset, n);
    lemma_mod_twice(k, n);
}

/// A task continues exactly where it was interrupted: with nobody else
/// waiting, the tick that interrupts a task hands the processor straight back
/// to it, in the very context the tick found it in.
pub proof fn lemma_task_resumes_where_interrupted(before: Schedule, context: ContextState)
    requires
        schedule_well_formed(before),
        before.active is Some,
        !before.done.contains(before.active->0),
        before.queue.len() == 0,
    ensures
        resumption(preempted(before, context)) == Resumption::Resume(context),
        ticked(before, context).active == before.active,
{
    let current = before.active->0;
    let waiting = preempted(before, context);
    assert(waiting.queue =~= seq![current]);
    assert(waiting.queue.first() == current);
}

} // verus!
