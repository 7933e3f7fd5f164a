use barefuzz::concurrency::mutex::Mutex;
use barefuzz::concurrency::rcu::RCU;
use barefuzz::interrupts::{InterruptFrame, StandardContext};
use barefuzz::task::executor::Executor;
use barefuzz::task::{EntryPoints, TaskId};
use barefuzz::{test_runner, QemuExitCode, Testable};

type Entry = fn(&mut RCU<Vec<TaskId>>, TaskId);

fn append_own_id(log: &mut RCU<Vec<TaskId>>, id: TaskId) {
    let mut entries = log.read().get().clone();
    entries.push(id);
    log.update_and_get(entries);
}

#[test]
fn three_tasks_log_until_they_complete() {
    let mut log: RCU<Vec<TaskId>> = RCU::new(Vec::new());
    let mut executor: Executor<Entry> =
        Executor::new(EntryPoints { run_task: 0x10, end_curr_task: 0x20 });
    let a = executor.spawn(append_own_id).unwrap();
    let b = executor.spawn(append_own_id).unwrap();
    let c = executor.spawn(append_own_id).unwrap();
    let finishes_at_tick = [(a, 4usize), (b, 8), (c, 12)];
    let mut frame = InterruptFrame::with_segments(8, 16);
    let mut ctx = StandardContext::default();
    let mut log_length_at_completion = Vec::new();
    for tick in 1..=20usize {
        executor.timer_tick(&mut frame, &mut ctx);
        let Some(running) = executor.active_task() else {
            continue;
        };
        let entry = *executor.get(running).expect("the running task is live").entrypoint();
        entry(&mut log, running);
        let deadline = finishes_at_tick.iter().find(|(id, _)| *id == running).unwrap().1;
        if tick >= deadline {
            executor.complete_active();
            executor.on_task_done();
            log_length_at_completion.push((running, log.read().get().len()));
        }
    }
    let entries = log.read().get().clone();
    for id in [a, b, c] {
        assert!(entries.contains(&id));
        assert!(!executor.contains(id));
    }
    assert_eq!(log_length_at_completion.len(), 3);
    for (id, length) in log_length_at_completion {
        assert!(entries[..length].contains(&id));
        assert!(!entries[length..].contains(&id));
    }
    assert_eq!(executor.active_task(), None);
    assert_eq!(executor.ready_count(), 0);
}

#[test]
fn lock_succeeds_after_fault_and_force_unlock() {
    let mut mutex = Mutex::new(vec![1u8, 2, 3]);
    let held_by_faulting_task = mutex.lock();
    mutex.get_mut(&held_by_faulting_task).push(4);
    assert!(mutex.try_lock().is_none());
    mutex.force_unlock();
    assert_eq!(mutex.semaphore.available_permits(), 1);
    let guard = mutex.lock();
    assert_eq!(mutex.get(&guard), &vec![1u8, 2, 3, 4]);
    mutex.unlock(guard);
}

struct Recorder<'a> {
    name: u8,
    seen: &'a std::cell::RefCell<Vec<u8>>,
}

impl Testable for Recorder<'_> {
    fn run(&self) {
        self.seen.borrow_mut().push(self.name);
    }
}

#[test]
fn test_runner_runs_every_test_in_order() {
    let seen = std::cell::RefCell::new(Vec::new());
    let first = Recorder { name: 1, seen: &seen };
    let second = Recorder { name: 2, seen: &seen };
    let tests: [&dyn Testable; 2] = [&first, &second];
    let status = test_runner(&tests);
    assert_eq!(status, QemuExitCode::Success);
    assert_eq!(*seen.borrow(), vec![1, 2]);
    assert_eq!(test_runner(&[]), QemuExitCode::Success);
}

#[test]
fn exit_codes_match_the_debug_exit_device() {
    assert_eq!(QemuExitCode::Success.code(), 0x10);
    assert_eq!(QemuExitCode::Failed.code(), 0x11);
}
