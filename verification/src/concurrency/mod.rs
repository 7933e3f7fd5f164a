//! Spin-lock family shared by the scheduler and its collaborators.

pub mod mutex;
pub mod rcu;
pub mod rwlock;
pub mod semaphore;
pub mod volatile;
