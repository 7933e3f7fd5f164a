//! Tasks: an identity, a stack of their own, an entry point, and the place
//! where they were last interrupted.

use vstd::prelude::*;
use vstd::bytes::{spec_u64_to_le_bytes, u64_to_le_bytes};
use crate::arch::{address_of, buffer_address, code_segment_selector, stack_segment_selector};
use crate::interrupts::{InterruptFrame, StandardContext};

pub mod executor;
pub mod schedule;

verus! {

/// Size in bytes of the stack every task gets.
pub const STACK_SIZE: usize = 8192;

/// Offset into a task's stack of the slot that holds the address the task's
/// first function returns to. A fresh task starts with its stack pointer here.
pub const RETURN_SLOT: usize = 8184;

/// Everything needed to resume interrupted code: the trap frame and the
/// general-purpose registers.
pub type ContextState = (InterruptFrame, StandardContext);

/// The two pieces of code every task passes through, by address.
#[derive(Debug, Clone, Copy, PartialEq, Eq, Structural)]
pub struct EntryPoints {
    /// Where a task starts: enables interrupts, calls the task's entry
    /// function with the task in the first argument register, and marks the
    /// task complete.
    pub run_task: u64,
    /// Where a task ends up when its first function returns: raises the
    /// software interrupt that lets the scheduler reap the task.
    pub end_curr_task: u64,
}

/// Identity of a task: a number taken from a counter that only goes up.
#[derive(Debug, Clone, Copy, PartialEq, Eq, PartialOrd, Ord, Structural)]
pub struct TaskId(pub u64);

/// The number that follows `number`, wrapping at the width of the counter.
pub open spec fn number_after(number: u64) -> u64 {
    if number < u64::MAX {
        (number + 1) as u64
    } else {
        0
    }
}

/// The number the counter shows after `taken` identities were taken from a
/// counter that showed `start`.
pub open spec fn number_after_taking(start: u64, taken: nat) -> u64
    decreases taken,
{
    if taken == 0 {
        start
    } else {
        number_after(number_after_taking(start, (taken - 1) as nat))
    }
}

/// The counter that hands out task identities in increasing order.
#[derive(Debug)]
pub struct TaskIds {
    next: u64,
}

impl TaskIds {
    /// The number the next identity will carry.
    pub closed spec fn upcoming(&self) -> u64 {
        self.next
    }

    /// A counter that starts at zero.
    pub fn new() -> (ids: Self)
        ensures
            ids.upcoming() == 0,
    {
        TaskIds { next: 0 }
    }

    /// A counter that starts at `next`, for a kernel that has handed out the
    /// identities below it before.
    pub fn starting_at(next: u64) -> (ids: Self)
        ensures
            ids.upcoming() == next,
    {
        TaskIds { next }
    }

    /// The number the next identity will carry.
    pub fn peek(&self) -> (number: u64)
        ensures
            number == self.upcoming(),
    {
        self.next
    }
}

impl TaskId {
    /// The number this identity carries.
    pub fn as_u64(&self) -> (number: u64)
        ensures
            number == self.0,
    {
        self.0
    }

    /// Takes the next identity from `ids`.
    pub fn new(ids: &mut TaskIds) -> (id: TaskId)
        ensures
            id.0 == old(ids).upcoming(),
            final(ids).upcoming() == number_after(old(ids).upcoming()),
    {
        let number = ids.next;
        ids.next = number.wrapping_add(1);
        TaskId(number)
    }
}

/// Identities come out in increasing order, and so none comes out twice, for
/// as long as the counter has not run through all its values.
pub proof fn lemma_task_ids_increase(start: u64, earlier: nat, later: nat)
    requires
        earlier < later,
        start + later <= u64::MAX,
    ensures
        number_after_taking(start, earlier) == start + earlier,
        number_after_taking(start, later) == start + later,
        number_after_taking(start, earlier) < number_after_taking(start, later),
    decreases later,
{
    lemma_numbers_count_up(start, earlier);
    lemma_numbers_count_up(start, later);
}

/// Before the counter runs over, it simply counts.
proof fn lemma_numbers_count_up(start: u64, taken: nat)
    requires
        start + taken <= u64::MAX,
    ensures
        number_after_taking(start, taken) == start + taken,
    decreases taken,
{
    if taken > 0 {
        lemma_numbers_count_up(start, (taken - 1) as nat);
    }
}

/// The stack pointer of a task that has not run yet, for a stack that starts
/// at `stack_base`.
pub open spec fn initial_stack_pointer(stack_base: usize) -> u64 {
    if stack_base + RETURN_SLOT <= usize::MAX {
        (stack_base + RETURN_SLOT) as u64
    } else {
        (stack_base + RETURN_SLOT - usize::MAX - 1) as u64
    }
}

/// The context in which a task runs for the first time: it starts in
/// `run_task` with interrupts enabled, on top of its own stack, with its own
/// address in the first argument register and every other register cleared.
pub open spec fn entry_context(
    stack_base: usize,
    task_address: usize,
    run_task: u64,
    code_segment: u16,
    stack_segment: u16,
) -> ContextState {
    (
        InterruptFrame {
            instruction_pointer: run_task,
            stack_pointer: initial_stack_pointer(stack_base),
            ..InterruptFrame::starting_in(code_segment, stack_segment)
        },
        StandardContext { rdi: task_address, ..StandardContext::cleared() },
    )
}

/// Whether `context` is the first context of some task that starts in
/// `run_task`, wherever the task and its stack happen to live.
pub open spec fn is_entry_context(context: ContextState, run_task: u64) -> bool {
    exists|stack_base: usize, task_address: usize, code_segment: u16, stack_segment: u16|
        context == entry_context(stack_base, task_address, run_task, code_segment, stack_segment)
}

/// The context in which a task runs for the first time.
pub fn entry_context_at(
    stack_base: usize,
    task_address: usize,
    run_task: u64,
    code_segment: u16,
    stack_segment: u16,
) -> (context: ContextState)
    ensures
        context == entry_context(stack_base, task_address, run_task, code_segment, stack_segment),
{
    let frame = InterruptFrame::with_segments(code_segment, stack_segment);
    let stack_pointer = stack_base.wrapping_add(RETURN_SLOT);
    (
        InterruptFrame {
            instruction_pointer: run_task,
            code_segment: frame.code_segment,
            cpu_flags: frame.cpu_flags,
            stack_pointer: stack_pointer as u64,
            stack_segment: frame.stack_segment,
        },
        StandardContext {
            rax: 0,
            rbx: 0,
            rcx: 0,
            rdx: 0,
            rsi: 0,
            rdi: task_address,
            r8: 0,
            r9: 0,
            r10: 0,
            r11: 0,
            r12: 0,
            r13: 0,
            r14: 0,
            r15: 0,
        },
    )
}

/// A stack of `STACK_SIZE` zero bytes.
fn zeroed_stack() -> (stack: Vec<u8>)
    ensures
        stack@ == Seq::new(STACK_SIZE as nat, |i: int| 0u8),
{
    let stack = vec![0u8; STACK_SIZE];
    assert(stack@ =~= Seq::new(STACK_SIZE as nat, |i: int| 0u8));
    stack
}

/// A task that is scheduled by preemption.
#[derive(Debug)]
pub struct PreemptiveTask<E> {
    id: TaskId,
    complete: bool,
    stack: Vec<u8>,
    cont: Option<ContextState>,
    entrypoint: E,
}

impl<E> PreemptiveTask<E> {
    /// The task's identity.
    pub closed spec fn id(&self) -> TaskId {
        self.id
    }

    /// Whether the task's entry function has returned.
    pub closed spec fn is_complete(&self) -> bool {
        self.complete
    }

    /// The bytes of the task's stack.
    pub closed spec fn stack(&self) -> Seq<u8> {
        self.stack@
    }

    /// Where the task was last interrupted, if it has been interrupted since
    /// it last ran.
    pub closed spec fn continuation(&self) -> Option<ContextState> {
        self.cont
    }

    /// The function the task runs.
    pub closed spec fn entry(&self) -> E {
        self.entrypoint
    }

    /// The task owns a stack of the full size.
    pub open spec fn well_formed(&self) -> bool {
        self.stack().len() == STACK_SIZE
    }

    /// Creates the task `id` that will run `entrypoint`, on a fresh stack.
    pub fn new(id: TaskId, entrypoint: E) -> (task: Self)
        ensures
            task.well_formed(),
            task.id() == id,
            task.entry() == entrypoint,
            !task.is_complete(),
            task.continuation() is None,
            task.stack() == Seq::new(STACK_SIZE as nat, |i: int| 0u8),
    {
        Self { id, complete: false, entrypoint, stack: zeroed_stack(), cont: None }
    }

    /// The task's identity.
    pub fn task_id(&self) -> (id: TaskId)
        ensures
            id == self.id(),
    {
        self.id
    }

    /// The function the task runs.
    pub fn entrypoint(&self) -> (entry: &E)
        ensures
            *entry == self.entry(),
    {
        &self.entrypoint
    }

    /// Whether the task's entry function has returned.
    pub fn complete(&self) -> (complete: bool)
        ensures
            complete == self.is_complete(),
    {
        self.complete
    }

    /// The bytes of the task's stack.
    pub fn stack_bytes(&self) -> (bytes: &Vec<u8>)
        ensures
            bytes@ == self.stack(),
    {
        &self.stack
    }

    /// Records that the task's entry function has returned.
    pub fn mark_complete(&mut self)
        ensures
            final(self).is_complete(),
            final(self).id() == old(self).id(),
            final(self).stack() == old(self).stack(),
            final(self).continuation() == old(self).continuation(),
            final(self).entry() == old(self).entry(),
    {
        self.complete = true;
    }

    /// Records where the task was interrupted.
    pub fn suspend(&mut self, context: ContextState)
        ensures
            final(self).continuation() == Some(context),
            final(self).id() == old(self).id(),
            final(self).stack() == old(self).stack(),
            final(self).is_complete() == old(self).is_complete(),
            final(self).entry() == old(self).entry(),
    {
        self.cont = Some(context);
    }

    /// Prepares the task's first run: stores the address of `end_curr_task`
    /// in the return slot of the stack and builds the context that starts the
    /// task in `run_task`.
    fn entry_context_for(&mut self, entry_points: &EntryPoints) -> (context: ContextState)
        requires
            old(self).well_formed(),
        ensures
            final(self).well_formed(),
            is_entry_context(context, entry_points.run_task),
            final(self).stack() == old(self).stack().subrange(0, RETURN_SLOT as int)
                + spec_u64_to_le_bytes(entry_points.end_curr_task),
            final(self).id() == old(self).id(),
            final(self).is_complete() == old(self).is_complete(),
            final(self).continuation() == old(self).continuation(),
            final(self).entry() == old(self).entry(),
    {
        let return_address = u64_to_le_bytes(entry_points.end_curr_task);
        let ghost before = self.stack@;
        let mut i: usize = 0;
        while i < 8
            invariant
                i <= 8,
                return_address@.len() == 8,
                self.stack@.len() == STACK_SIZE,
                self.stack@.subrange(0, RETURN_SLOT as int) == before.subrange(
                    0,
                    RETURN_SLOT as int,
                ),
                forall|j: int| 0 <= j < i ==> self.stack@[RETURN_SLOT + j] == return_address@[j],
                self.id == old(self).id,
                self.complete == old(self).complete,
                self.cont == old(self).cont,
                self.entrypoint == old(self).entrypoint,
            decreases 8 - i,
        {
            let byte = return_address[i];
            self.stack[RETURN_SLOT + i] = byte;
            assert(self.stack@.subrange(0, RETURN_SLOT as int) =~= before.subrange(
                0,
                RETURN_SLOT as int,
            ));
            i = i + 1;
        }
        assert(self.stack@ =~= before.subrange(0, RETURN_SLOT as int) + return_address@);
        let stack_base = buffer_address(&self.stack);
        let task_address = address_of(&*self);
        let code_segment = code_segment_selector();
        let stack_segment = stack_segment_selector();
        entry_context_at(
            stack_base,
            task_address,
            entry_points.run_task,
            code_segment,
            stack_segment,
        )
    }

    /// Hands out the context in which the task is to continue, or `None` for
    /// a task that has run to completion. A task that was interrupted
    /// continues exactly where it was; a task that has not run yet starts in
    /// a freshly built context.
    pub fn poll(&mut self, entry_points: &EntryPoints) -> (context: Option<ContextState>)
        requires
            old(self).well_formed(),
        ensures
            final(self).well_formed(),
            final(self).id() == old(self).id(),
            final(self).is_complete() == old(self).is_complete(),
            final(self).entry() == old(self).entry(),
            old(self).is_complete() ==> context is None && final(self).continuation() == old(self).continuation() && final(self).stack() == old(self).stack(),
            !old(self).is_complete() ==> context is Some && final(self).continuation() is None,
            !old(self).is_complete() ==> match old(self).continuation() {
                Some(saved) => context == Some(saved) && final(self).stack() == old(self).stack(),
                None => is_entry_context(context->0, entry_points.run_task) && final(self).stack()
                    == old(self).stack().subrange(0, RETURN_SLOT as int) + spec_u64_to_le_bytes(
                    entry_points.end_curr_task,
                ),
            },
    {
        if self.complete {
            return None;
        }
        let new_ctx = match self.cont.take() {
            None => self.entry_context_for(entry_points),
            Some(ctx) => ctx,
        };
        Some(new_ctx)
    }
}

} // verus!
