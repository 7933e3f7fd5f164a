use barefuzz::interrupts::{InterruptFrame, StandardContext};
use barefuzz::task::{
    entry_context_at, EntryPoints, PreemptiveTask, TaskId, TaskIds, RETURN_SLOT, STACK_SIZE,
};

const POINTS: EntryPoints = EntryPoints { run_task: 0x1000, end_curr_task: 0x0123_4567_89ab_cdef };

fn nothing() {}

#[test]
fn task_ids_count_up_from_zero() {
    let mut ids = TaskIds::new();
    assert_eq!(ids.peek(), 0);
    let first = TaskId::new(&mut ids);
    let second = TaskId::new(&mut ids);
    let third = TaskId::new(&mut ids);
    assert_eq!(first.as_u64(), 0);
    assert_eq!(second.as_u64(), 1);
    assert_eq!(third.as_u64(), 2);
    assert!(first < second && second < third);
    assert_ne!(first, second);
    assert_eq!(ids.peek(), 3);
}

#[test]
fn stack_constants_fit_together() {
    assert_eq!(STACK_SIZE, 8192);
    assert_eq!(RETURN_SLOT, STACK_SIZE - 8);
}

#[test]
fn entry_context_starts_in_the_trampoline() {
    let (frame, ctx) = entry_context_at(0x7000_0000, 0x5555, 0x1000, 0x08, 0x10);
    assert_eq!(frame.instruction_pointer, 0x1000);
    assert_eq!(frame.stack_pointer, 0x7000_0000 + 8184);
    assert_eq!(frame.cpu_flags, 0x202);
    assert_eq!(frame.code_segment, 0x08);
    assert_eq!(frame.stack_segment, 0x10);
    assert_eq!(ctx, StandardContext { rdi: 0x5555, ..StandardContext::default() });
}

#[test]
fn entry_context_stack_pointer_wraps() {
    let (frame, _) = entry_context_at(usize::MAX, 0, 0, 0, 0);
    assert_eq!(frame.stack_pointer, 8183);
}

#[test]
fn new_task_has_a_zeroed_stack_and_no_continuation() {
    let task = PreemptiveTask::new(TaskId(4), nothing as fn());
    assert_eq!(task.task_id(), TaskId(4));
    assert!(!task.complete());
    assert_eq!(task.stack_bytes().len(), STACK_SIZE);
    assert!(task.stack_bytes().iter().all(|byte| *byte == 0));
    (task.entrypoint())();
}

#[test]
fn first_poll_builds_the_entry_context() {
    let mut task = Box::new(PreemptiveTask::new(TaskId(0), nothing as fn()));
    let (frame, ctx) = task.poll(&POINTS).expect("the task has not completed");
    let stack_base = task.stack_bytes().as_ptr() as usize;
    let task_address = std::ptr::from_ref(&*task) as usize;
    assert_eq!(frame.instruction_pointer, 0x1000);
    assert_eq!(frame.stack_pointer, (stack_base + RETURN_SLOT) as u64);
    assert_eq!(frame.cpu_flags, 0x202);
    assert_eq!(frame.code_segment, InterruptFrame::default().code_segment);
    assert_eq!(frame.stack_segment, InterruptFrame::default().stack_segment);
    assert_eq!(ctx, StandardContext { rdi: task_address, ..StandardContext::default() });
    let stack = task.stack_bytes();
    assert_eq!(&stack[RETURN_SLOT..], &0x0123_4567_89ab_cdefu64.to_le_bytes());
    assert!(stack[..RETURN_SLOT].iter().all(|byte| *byte == 0));
}

#[test]
fn later_poll_returns_the_saved_continuation() {
    let mut task = PreemptiveTask::new(TaskId(1), nothing as fn());
    let saved = (
        InterruptFrame {
            instruction_pointer: 0xdead,
            code_segment: 8,
            cpu_flags: 0x246,
            stack_pointer: 0xbeef,
            stack_segment: 16,
        },
        StandardContext { rax: 1, rbx: 2, r15: 15, ..StandardContext::default() },
    );
    task.suspend(saved);
    assert_eq!(task.poll(&POINTS), Some(saved));
    assert!(task.stack_bytes().iter().all(|byte| *byte == 0));
    let fresh = task.poll(&POINTS).expect("still running");
    assert_eq!(fresh.0.instruction_pointer, 0x1000);
}

#[test]
fn completed_task_is_never_polled_again() {
    let mut task = PreemptiveTask::new(TaskId(2), nothing as fn());
    let saved = (InterruptFrame::with_segments(1, 2), StandardContext::default());
    task.suspend(saved);
    task.mark_complete();
    assert!(task.complete());
    assert_eq!(task.poll(&POINTS), None);
    assert_eq!(task.poll(&POINTS), None);
}

#[test]
fn task_id_counter_wraps_at_the_end() {
    let mut ids = TaskIds::starting_at(u64::MAX);
    assert_eq!(TaskId::new(&mut ids), TaskId(u64::MAX));
    assert_eq!(ids.peek(), 0);
    assert_eq!(TaskId::new(&mut ids), TaskId(0));
}
