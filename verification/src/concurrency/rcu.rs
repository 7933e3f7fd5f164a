//! Read-copy-update cell: readers take a snapshot without ever waiting, and
//! writers install a new snapshot one at a time.

use vstd::prelude::*;
use std::sync::Arc;
use crate::concurrency::mutex::{Mutex, MutexGuard};

verus! {

/// A shared value that is replaced as a whole, never changed in place.
pub struct RCU<T> {
    root: Arc<T>,
    swap_mutex: Mutex<()>,
    installed: Ghost<Seq<T>>,
}

/// A reader's hold on one snapshot. The snapshot stays alive, unchanged, for
/// as long as the guard does, whatever is installed in the cell meanwhile.
pub struct ReadGuard<T> {
    datum: Arc<T>,
}

/// A writer's turn: while it lasts, no other writer gets one. It ends when
/// the writer installs its snapshot with [`RCU::install`].
#[derive(Debug)]
pub struct WriterTurn {
    guard: MutexGuard,
}

impl<T> ReadGuard<T> {
    /// The snapshot this guard holds.
    pub closed spec fn view(&self) -> T {
        *self.datum
    }

    /// The snapshot this guard holds.
    pub fn get(&self) -> (value: &T)
        ensures
            *value == self@,
    {
        &*self.datum
    }
}

impl<T> RCU<T> {
    /// Every snapshot the cell has held, oldest first. The last one is the
    /// snapshot that is installed now.
    pub closed spec fn history(&self) -> Seq<T> {
        self.installed@
    }

    /// Whether a writer has taken its turn and not yet installed its
    /// snapshot.
    pub closed spec fn is_updating(&self) -> bool {
        self.swap_mutex.is_locked()
    }

    /// The cell holds a snapshot. Every cell is created in this state and
    /// every operation keeps it.
    pub closed spec fn well_formed(&self) -> bool {
        &&& self.installed@.len() > 0
        &&& self.installed@.last() == *self.root
        &&& self.swap_mutex.available() <= 1
    }

    /// The snapshot that is currently installed.
    pub open spec fn view(&self) -> T {
        self.history().last()
    }

    /// Creates a cell whose first snapshot is `value`.
    pub fn new(value: T) -> (rcu: Self)
        ensures
            rcu.well_formed(),
            !rcu.is_updating(),
            rcu.history() == seq![value],
    {
        let arc = Arc::new(value);
        Self { root: arc, swap_mutex: Mutex::new(()), installed: Ghost(Seq::empty().push(value)) }
    }

    /// Takes a hold on the current snapshot. Never waits, whether or not a
    /// writer is at work.
    pub fn read(&self) -> (guard: ReadGuard<T>)
        requires
            self.well_formed(),
        ensures
            guard@ == self@,
    {
        ReadGuard { datum: self.root.clone() }
    }

    /// A single attempt to take the writer's turn. Fails exactly when
    /// another writer has the turn, and changes nothing that readers see.
    pub fn try_begin_update(&mut self) -> (turn: Option<WriterTurn>)
        requires
            old(self).well_formed(),
        ensures
            final(self).well_formed(),
            turn is Some <==> !old(self).is_updating(),
            final(self).is_updating(),
            final(self).history() == old(self).history(),
    {
        match self.swap_mutex.try_lock() {
            Some(guard) => Some(WriterTurn { guard }),
            None => None,
        }
    }

    /// Ends the writer's turn: installs `new_value` as the current snapshot
    /// and returns the snapshot it replaces.
    pub fn install(&mut self, turn: WriterTurn, new_value: T) -> (previous: Arc<T>)
        requires
            old(self).well_formed(),
            old(self).is_updating(),
        ensures
            final(self).well_formed(),
            !final(self).is_updating(),
            final(self).history() == old(self).history().push(new_value),
            *previous == old(self)@,
    {
        let mut snapshot = Arc::new(new_value);
        std::mem::swap(&mut self.root, &mut snapshot);
        self.installed = Ghost(self.installed@.push(new_value));
        self.swap_mutex.unlock(turn.guard);
        snapshot
    }

    /// Installs `new_value` as the current snapshot and returns the snapshot
    /// it replaces. That snapshot lives on for as long as the caller, or any
    /// reader that took it earlier, keeps it. The caller must know that no
    /// other writer has the turn: with one at work and nobody else able to
    /// run, waiting never ends.
    pub fn update_and_get(&mut self, new_value: T) -> (previous: Arc<T>)
        requires
            old(self).well_formed(),
            !old(self).is_updating(),
        ensures
            final(self).well_formed(),
            !final(self).is_updating(),
            final(self).history() == old(self).history().push(new_value),
            *previous == old(self)@,
    {
        let guard = self.swap_mutex.lock();
        let turn = WriterTurn { guard };
        self.install(turn, new_value)
    }
}

impl<T: Default> Default for RCU<T> {
    /// A cell whose first snapshot is the default value of `T`.
    fn default() -> (rcu: Self)
        ensures
            rcu.well_formed(),
            !rcu.is_updating(),
            rcu.history().len() == 1,
            call_ensures(T::default, (), rcu@),
    {
        RCU::new(T::default())
    }
}

/// Right after an update the installed snapshot is the new value, and the
/// update has handed back the snapshot installed just before it: the value of
/// the previous update, or the value the cell was created with.
pub proof fn lemma_update_returns_previous<T>(before: RCU<T>, after: RCU<T>, new_value: T)
    requires
        before.well_formed(),
        after.history() == before.history().push(new_value),
    ensures
        after@ == new_value,
        after.history()[after.history().len() - 2] == before@,
{
    before.lemma_holds_a_snapshot();
}

/// Reads never go back in time: once a value has been installed, every later
/// state of the cell shows that value or one installed after it.
pub proof fn lemma_reads_never_go_back<T>(before: RCU<T>, after: RCU<T>)
    requires
        before.well_formed(),
        before.history().len() <= after.history().len(),
        after.history().subrange(0, before.history().len() as int) == before.history(),
    ensures
        exists|i: int|
            before.history().len() - 1 <= i < after.history().len() && after@
                == #[trigger] after.history()[i],
        after.history()[before.history().len() - 1] == before@,
{
    before.lemma_holds_a_snapshot();
    let last = after.history().len() - 1;
    assert(after@ == after.history()[last]);
    assert(after.history().subrange(0, before.history().len() as int)[before.history().len() - 1]
        == after.history()[before.history().len() - 1]);
}

impl<T> RCU<T> {
    /// A well-formed cell has held at least one snapshot.
    pub proof fn lemma_holds_a_snapshot(&self)
        requires
            self.well_formed(),
        ensures
            self.history().len() > 0,
    {
    }
}

} // verus!
