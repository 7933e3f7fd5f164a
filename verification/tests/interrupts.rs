use barefuzz::interrupts::user_interrupts::{
    attach_new_interrupt_handler, handle_user_interrupt, DispatchError, UserIntHandler,
    HANDLER_SLOTS, USER_INTERRUPT_VECTOR,
};
use barefuzz::interrupts::{
    InterruptFrame, InterruptIndex, StandardContext, INITIAL_FLAGS, PIC_1_OFFSET, PIC_2_OFFSET,
};

type Handler = fn(&mut InterruptFrame, &mut StandardContext);

fn set_rax(_: &mut InterruptFrame, ctx: &mut StandardContext) {
    ctx.rax = 1;
}

fn set_rbx(_: &mut InterruptFrame, ctx: &mut StandardContext) {
    ctx.rbx = 2;
}

#[test]
fn interrupt_vectors_follow_the_controller_offsets() {
    assert_eq!(PIC_1_OFFSET, 32);
    assert_eq!(PIC_2_OFFSET, 40);
    assert_eq!(InterruptIndex::Timer.as_u8(), 32);
    assert_eq!(InterruptIndex::Keyboard.as_u8(), 33);
    assert_eq!(InterruptIndex::Timer.as_usize(), 32);
    assert_eq!(InterruptIndex::Keyboard.as_usize(), 33);
    assert_eq!(USER_INTERRUPT_VECTOR, 0x80);
}

#[test]
fn default_registers_are_cleared() {
    let ctx = StandardContext::default();
    assert_eq!(ctx.rax, 0);
    assert_eq!(ctx.rdi, 0);
    assert_eq!(ctx.r15, 0);
    assert_eq!(ctx, StandardContext { rax: 0, rbx: 0, rcx: 0, rdx: 0, rsi: 0, rdi: 0, r8: 0,
        r9: 0, r10: 0, r11: 0, r12: 0, r13: 0, r14: 0, r15: 0 });
}

#[test]
fn frame_with_segments_enables_interrupts() {
    let frame = InterruptFrame::with_segments(0x08, 0x10);
    assert_eq!(frame.cpu_flags, 0x202);
    assert_eq!(frame.cpu_flags, INITIAL_FLAGS);
    assert_eq!(frame.code_segment, 0x08);
    assert_eq!(frame.stack_segment, 0x10);
    assert_eq!(frame.instruction_pointer, 0);
    assert_eq!(frame.stack_pointer, 0);
}

#[test]
fn default_frame_uses_the_current_segments() {
    let frame = InterruptFrame::default();
    assert_eq!(frame.cpu_flags, 0x202);
    assert_eq!(frame.instruction_pointer, 0);
    assert_eq!(frame.stack_pointer, 0);
    assert!(frame.code_segment <= 0xffff);
    assert!(frame.stack_segment <= 0xffff);
    assert_ne!(frame.code_segment, 0);
    assert_eq!(frame, InterruptFrame::default());
}

#[test]
fn empty_table_has_no_handlers() {
    let table: UserIntHandler<Handler> = UserIntHandler::new();
    for idx in 0..HANDLER_SLOTS {
        assert_eq!(table.lookup(idx).err(), Some(DispatchError::Unhandled));
    }
}

#[test]
fn lookup_beyond_the_table_is_rejected() {
    let table: UserIntHandler<Handler> = UserIntHandler::new();
    assert_eq!(table.lookup(256).err(), Some(DispatchError::IndexTooHigh));
    assert_eq!(table.lookup(usize::MAX).err(), Some(DispatchError::IndexTooHigh));
}

#[test]
fn second_handler_for_a_request_is_rejected() {
    let mut table: UserIntHandler<Handler> = UserIntHandler::new();
    assert!(table.set_handler(3, set_rax));
    assert!(!table.set_handler(3, set_rbx));
    let handler = table.lookup(3).expect("attached");
    let mut frame = InterruptFrame::with_segments(0, 0);
    let mut ctx = StandardContext::default();
    handler(&mut frame, &mut ctx);
    assert_eq!(ctx.rax, 1);
    assert_eq!(ctx.rbx, 0);
}

#[test]
fn attached_handler_is_the_one_dispatched() {
    let mut table: UserIntHandler<Handler> = UserIntHandler::new();
    attach_new_interrupt_handler(&mut table, 0, set_rax);
    attach_new_interrupt_handler(&mut table, 255, set_rbx);
    let mut frame = InterruptFrame::with_segments(0, 0);
    let mut ctx = StandardContext::default();
    handle_user_interrupt(&table, 255)(&mut frame, &mut ctx);
    assert_eq!((ctx.rax, ctx.rbx), (0, 2));
    handle_user_interrupt(&table, 0)(&mut frame, &mut ctx);
    assert_eq!((ctx.rax, ctx.rbx), (1, 2));
    assert_eq!(table.lookup(1).err(), Some(DispatchError::Unhandled));
}
