//! Synchronisation primitives for cooperatively scheduled tasks.
//!
//! No primitive blocks. An operation that cannot complete registers the calling
//! task and reports that it is pending; the operation that later frees the
//! resource commits it to the waiter at the head of the queue and returns that
//! waiter's identity so that the scheduler can resume it.
use vstd::prelude::*;

pub mod barrier;
pub mod condvar;
pub mod lazy;
pub mod mutex;
pub mod once;
pub mod rwlock;
pub mod waiter_queue;

pub use barrier::{Barrier, BarrierWaitFuture, BarrierWaitResult};
pub use condvar::{Condvar, CondvarWaitFuture};
pub use lazy::LazyLock;
pub use mutex::{Mutex, MutexGuard, MutexLockFuture, RawMutex};
pub use once::{Once, OnceLock};
pub use rwlock::{RwLock, RwLockReadFuture, RwLockReadGuard, RwLockWriteFuture, RwLockWriteGuard};
pub use waiter_queue::WaiterQueue;

verus! {

/// Identity of a suspended task, as the scheduler knows it.
pub type TaskId = u64;

} // verus!
