//! Software interrupts: one vector shared by up to 256 numbered requests,
//! each served by at most one handler.

use vstd::prelude::*;

verus! {

/// The vector on which software interrupts arrive.
pub const USER_INTERRUPT_VECTOR: u8 = 0x80;

/// Number of requests the handler table has room for.
pub const HANDLER_SLOTS: usize = 256;

/// Why a request could not be served.
#[derive(Debug, Clone, Copy, PartialEq, Eq, Structural)]
pub enum DispatchError {
    /// The request number is beyond the end of the table.
    IndexTooHigh,
    /// Nobody has attached a handler for this request.
    Unhandled,
}

/// The handlers for software interrupts, by request number.
pub struct UserIntHandler<H> {
    handlers: [Option<H>; 256],
}

impl<H: Copy> UserIntHandler<H> {
    /// The table as a sequence of `HANDLER_SLOTS` entries.
    pub closed spec fn view(&self) -> Seq<Option<H>> {
        self.handlers@
    }

    /// Every table has exactly `HANDLER_SLOTS` entries.
    pub proof fn lemma_slots(&self)
        ensures
            self@.len() == HANDLER_SLOTS,
    {
    }

    /// A table without any handler.
    pub fn new() -> (table: Self)
        ensures
            table@.len() == HANDLER_SLOTS,
            forall|idx: int| 0 <= idx < HANDLER_SLOTS ==> table@[idx] is None,
    {
        Self { handlers: [None;256] }
    }

    /// Attaches `handler` to request `idx` unless the request already has a
    /// handler, and says whether it did. A taken slot is never overwritten.
    pub fn set_handler(&mut self, idx: u8, handler: H) -> (attached: bool)
        ensures
            attached == (old(self)@[idx as int] is None),
            final(self)@ == if attached {
                old(self)@.update(idx as int, Some(handler))
            } else {
                old(self)@
            },
    {
        let slot = idx as usize;
        if self.handlers[slot].is_some() {
            return false;
        }
        self.handlers[slot] = Some(handler);
        true
    }

    /// Finds the handler for request `idx`, or says why there is none.
    pub fn lookup(&self, idx: usize) -> (found: Result<H, DispatchError>)
        ensures
            found == if idx >= HANDLER_SLOTS {
                Err::<H, DispatchError>(DispatchError::IndexTooHigh)
            } else {
                match self@[idx as int] {
                    Some(handler) => Ok(handler),
                    None => Err(DispatchError::Unhandled),
                }
            },
    {
        if idx >= HANDLER_SLOTS {
            return Err(DispatchError::IndexTooHigh);
        }
        match self.handlers[idx] {
            Some(handler) => Ok(handler),
            None => Err(DispatchError::Unhandled),
        }
    }
}

/// Attaches `handler` to request `idx`. Attaching a second handler to a
/// request is a fatal mistake, so the request must still be free.
pub fn attach_new_interrupt_handler<H: Copy>(table: &mut UserIntHandler<H>, idx: u8, handler: H)
    requires
        old(table)@[idx as int] is None,
    ensures
        final(table)@ == old(table)@.update(idx as int, Some(handler)),
{
    let attached = table.set_handler(idx, handler);
    assert(attached);
}

/// Picks the handler that serves request `idx`. A request beyond the table or
/// without a handler is a fatal mistake, so the request must be attached.
pub fn handle_user_interrupt<H: Copy>(table: &UserIntHandler<H>, idx: usize) -> (handler: H)
    requires
        idx < HANDLER_SLOTS,
        table@[idx as int] is Some,
    ensures
        table@[idx as int] == Some(handler),
{
    table.handlers[idx].unwrap()
}

} // verus!
