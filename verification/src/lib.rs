//! Preemptive multitasking core of a single-core kernel: the task scheduler
//! driven by the timer interrupt, and the permit-based locks it relies on.
//!
//! There is one core, so whatever looks concurrent is an interleaving of
//! steps, cut wherever an interrupt arrives. The types in this crate are the
//! states of the locks and of the scheduler, and their methods are the steps.
//! A step that would have to wait is a step whose precondition does not hold;
//! each such step has a sibling that makes a single attempt and reports
//! whether it got through.

use vstd::prelude::*;

mod arch;
pub mod concurrency;
pub mod interrupts;
pub mod pic;
pub mod task;

verus! {

/// Exit status reported to the emulator's debug-exit device.
#[derive(Debug, Clone, Copy, PartialEq, Eq, Structural)]
pub enum QemuExitCode {
    Success,
    Failed,
}

impl QemuExitCode {
    /// The value written to the debug-exit port for this status.
    pub open spec fn port_value(self) -> u32 {
        match self {
            QemuExitCode::Success => 0x10,
            QemuExitCode::Failed => 0x11,
        }
    }

    /// The value written to the debug-exit port for this status.
    pub fn code(self) -> (value: u32)
        ensures
            value == self.port_value(),
    {
        match self {
            QemuExitCode::Success => 0x10,
            QemuExitCode::Failed => 0x11,
        }
    }
}

/// A test the kernel's test runner can run.
pub trait Testable {
    /// Runs the test. Returns if the test passes.
    fn run(&self);
}

/// Whether `test` has run to its end, with whatever its own `run` promises
/// of that.
pub open spec fn has_run<T: Testable + ?Sized>(test: &T) -> bool {
    call_ensures(T::run, (test,), ())
}

/// Runs one test to its end.
fn run_one<T: Testable + ?Sized>(test: &T)
    ensures
        has_run(test),
{
    test.run();
}

/// Runs `tests` in order and reports the status to leave the emulator with.
/// A failing test does not return, so when the runner reports, every test has
/// run to its end and the status is success.
pub fn test_runner(tests: &[&dyn Testable]) -> (status: QemuExitCode)
    ensures
        status == QemuExitCode::Success,
        forall|i: int| 0 <= i < tests@.len() ==> #[trigger] has_run::<dyn Testable>(tests@[i]),
{
    let mut i: usize = 0;
    while i < tests.len()
        invariant
            i <= tests@.len(),
            forall|j: int| 0 <= j < i ==> #[trigger] has_run::<dyn Testable>(tests@[j]),
        decreases tests@.len() - i,
    {
        run_one::<dyn Testable>(tests[i]);
        i = i + 1;
    }
    QemuExitCode::Success
}

} // verus!
