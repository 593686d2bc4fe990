//! Mutual exclusion for cooperatively scheduled tasks.
//!
//! [`RawMutex`] is the lock itself: a locked flag, the queue of suspended tasks and
//! the task, if any, to which the lock has been handed but which has not resumed
//! yet. [`Mutex`] puts a value behind it, [`MutexGuard`] is the token of a holder,
//! and [`MutexLockFuture`] is one pending acquisition, polled by the scheduler.
//!
//! Releasing a lock on which tasks wait does not unlock it. The lock stays locked
//! and is committed to the task at the head of the queue, so a task that arrives
//! in between cannot overtake it, and the task that is woken need not try again.
//!
//! The mutex keeps no record of who holds it. A task that asks for a lock which
//! it holds itself is therefore queued behind its own guard and waits for ever:
//! that is a fault of the caller which nothing here detects. Nor is a lock
//! poisoned by a task that fails while it holds it: a failure of that kind ends
//! the whole program.
//!
//! Every task that waits is known by a [`TaskId`] of its own, which the caller
//! chooses. Two acquisitions that are pending on one lock at the same time must
//! not share one.
use vstd::prelude::*;
use crate::sync::TaskId;
use crate::sync::waiter_queue::{
    WaiterQueue,
    lemma_position_after_pop,
    lemma_position_after_push,
    lemma_position_after_removal,
    lemma_position_of,
    lemma_without,
    position_of,
    without,
};

verus! {

/// What a mutex holds, as a mathematical value.
pub struct MutexState {
    /// Whether the lock is taken: held through a guard, or committed to `granted`.
    pub locked: bool,
    /// The task to which a release has handed the lock and which has not yet
    /// resumed to claim it.
    pub granted: Option<TaskId>,
    /// The suspended tasks, the one that has waited longest first.
    pub waiters: Seq<TaskId>,
}

impl MutexState {
    /// The state of a new mutex.
    pub open spec fn unlocked() -> MutexState {
        MutexState { locked: false, granted: None, waiters: Seq::empty() }
    }

    /// The states that a mutex can be in: no task waits twice, none waits for an
    /// unlocked mutex, and the task that has been granted the lock waits no more.
    pub open spec fn wf(self) -> bool {
        &&& self.waiters.no_duplicates()
        &&& (!self.locked ==> self.waiters.len() == 0 && self.granted is None)
        &&& (self.granted is Some ==> !self.waiters.contains(self.granted->0))
    }

    /// Whether a guard is outstanding.
    pub open spec fn held(self) -> bool {
        self.locked && self.granted is None
    }

    /// An attempt that does not suspend: it succeeds on an unlocked mutex only.
    pub open spec fn try_lock(self) -> (MutexState, bool) {
        if self.locked {
            (self, false)
        } else {
            (MutexState { locked: true, ..self }, true)
        }
    }

    /// One poll of the acquisition of `task`. The task acquires where the lock has
    /// been granted to it or is free; else it waits, behind the tasks that wait
    /// already.
    pub open spec fn poll_lock(self, task: TaskId) -> (MutexState, bool) {
        if self.granted == Some(task) {
            (MutexState { granted: None, ..self }, true)
        } else if !self.locked {
            (MutexState { locked: true, ..self }, true)
        } else if self.waiters.contains(task) {
            (self, false)
        } else {
            (MutexState { waiters: self.waiters.push(task), ..self }, false)
        }
    }

    /// The lock leaves its owner: it goes to the head of the queue, which is to be
    /// woken, or becomes free where nobody waits.
    pub open spec fn pass_on(self) -> (MutexState, Option<TaskId>) {
        if self.waiters.len() == 0 {
            (MutexState::unlocked(), None)
        } else {
            (
                MutexState {
                    locked: true,
                    granted: Some(self.waiters[0]),
                    waiters: self.waiters.drop_first(),
                },
                Some(self.waiters[0]),
            )
        }
    }

    /// The release of the outstanding guard.
    pub open spec fn unlock(self) -> (MutexState, Option<TaskId>) {
        if self.held() {
            self.pass_on()
        } else {
            (self, None)
        }
    }

    /// `task` gives up its pending acquisition. Where the lock had been granted to
    /// it already, the lock is passed on.
    pub open spec fn cancel(self, task: TaskId) -> (MutexState, Option<TaskId>) {
        if self.granted == Some(task) {
            self.pass_on()
        } else {
            (MutexState { waiters: without(self.waiters, task), ..self }, None)
        }
    }
}

/// The lock without data: a state machine that never fails.
pub struct RawMutex {
    locked: bool,
    granted: Option<TaskId>,
    waiters: WaiterQueue,
}

impl RawMutex {
    /// The state of the mutex.
    pub closed spec fn view(&self) -> MutexState {
        MutexState { locked: self.locked, granted: self.granted, waiters: self.waiters@ }
    }

    /// The mutex is in one of the states that its operations can reach.
    pub open spec fn wf(&self) -> bool {
        self@.wf()
    }

    /// An unlocked mutex on which nobody waits.
    pub fn new() -> (mutex: Self)
        ensures
            mutex.wf(),
            mutex@ == MutexState::unlocked(),
    {
        RawMutex { locked: false, granted: None, waiters: WaiterQueue::new() }
    }

    /// Whether the lock is taken.
    pub fn is_locked(&self) -> (locked: bool)
        ensures
            locked == self@.locked,
    {
        self.locked
    }

    /// Whether a guard is outstanding: the lock is taken and not merely
    /// committed to a task that has yet to resume.
    pub fn is_held(&self) -> (held: bool)
        ensures
            held == self@.held(),
    {
        self.locked && self.granted.is_none()
    }

    /// Number of suspended tasks.
    pub fn waiting(&self) -> (n: usize)
        ensures
            n == self@.waiters.len(),
    {
        self.waiters.len()
    }

    /// Takes the lock if it is free. Never suspends and never queues.
    pub fn try_lock(&mut self) -> (acquired: bool)
        requires
            old(self).wf(),
        ensures
            final(self).wf(),
            (final(self)@, acquired) == old(self)@.try_lock(),
            acquired == !old(self)@.locked,
            acquired ==> final(self)@.held(),
    {
        if self.locked {
            false
        } else {
            self.locked = true;
            true
        }
    }

    /// One poll of the acquisition of `task`. Returns whether `task` now holds the
    /// lock; where it does not, `task` stands in the queue.
    pub fn poll_lock(&mut self, task: TaskId) -> (acquired: bool)
        requires
            old(self).wf(),
        ensures
            final(self).wf(),
            (final(self)@, acquired) == old(self)@.poll_lock(task),
            acquired ==> !old(self)@.held() && final(self)@.held(),
            !acquired ==> final(self)@.waiters.contains(task),
    {
        if self.granted == Some(task) {
            self.granted = None;
            true
        } else if !self.locked {
            self.locked = true;
            true
        } else {
            let added = self.waiters.push_back(task);
            proof {
                if added {
                    assert(self.waiters@.last() == task);
                    if self.granted is Some {
                        let g = self.granted->0;
                        if self.waiters@.contains(g) {
                            let k = choose|k: int| 0 <= k < self.waiters@.len() && self.waiters@[k] == g;
                            assert(old(self).waiters@[k] == g);
                        }
                    }
                }
            }
            false
        }
    }

    fn pass_on(&mut self) -> (wake: Option<TaskId>)
        requires
            old(self).wf(),
        ensures
            final(self).wf(),
            (final(self)@, wake) == old(self)@.pass_on(),
    {
        let head = self.waiters.pop_front();
        proof {
            if head is Some {
                let rest = old(self).waiters@.drop_first();
                assert forall|k: int| 0 <= k < rest.len() implies rest[k] != head->0 by {
                    assert(rest[k] == old(self).waiters@[k + 1]);
                }
            }
        }
        match head {
            Some(task) => {
                self.locked = true;
                self.granted = Some(task);
            },
            None => {
                self.locked = false;
                self.granted = None;
                assert(self.waiters@ =~= Seq::<TaskId>::empty());
            },
        }
        head
    }

    /// Releases the lock. Where tasks wait, the lock stays locked and goes to the
    /// one that has waited longest; that task is returned and is to be woken.
    pub fn unlock(&mut self) -> (wake: Option<TaskId>)
        requires
            old(self).wf(),
            old(self)@.held(),
        ensures
            final(self).wf(),
            (final(self)@, wake) == old(self)@.unlock(),
            wake == if old(self)@.waiters.len() == 0 {
                None
            } else {
                Some(old(self)@.waiters[0])
            },
            !final(self)@.held(),
            final(self)@.locked == wake is Some,
    {
        self.pass_on()
    }

    /// Withdraws the pending acquisition of `task`. The task waits no more; a lock
    /// that had been granted to it goes to the next waiter, which is returned and
    /// is to be woken.
    pub fn cancel(&mut self, task: TaskId) -> (wake: Option<TaskId>)
        requires
            old(self).wf(),
        ensures
            final(self).wf(),
            (final(self)@, wake) == old(self)@.cancel(task),
            !final(self)@.waiters.contains(task),
            final(self)@.granted != Some(task),
            final(self)@.held() == old(self)@.held(),
    {
        if self.granted == Some(task) {
            let wake = self.pass_on();
            proof {
                if wake is Some {
                    let rest = old(self).waiters@.drop_first();
                    if rest.contains(task) {
                        let k = choose|k: int| 0 <= k < rest.len() && rest[k] == task;
                        assert(old(self).waiters@[k + 1] == task);
                    }
                }
            }
            wake
        } else {
            proof {
                lemma_without(self.waiters@, task);
            }
            self.waiters.remove(task);
            None
        }
    }
}

/// Token of the task that holds a [`Mutex`]. It is made by a successful
/// acquisition only and is used up by the release.
pub struct MutexGuard {
    held: (),
}

/// A value that only the holder of the lock may reach.
pub struct Mutex<T> {
    raw: RawMutex,
    value: T,
}

impl<T> Mutex<T> {
    /// The state of the lock.
    pub closed spec fn state(&self) -> MutexState {
        self.raw@
    }

    /// The protected value.
    pub closed spec fn value(&self) -> T {
        self.value
    }

    /// The lock is in one of the states that its operations can reach.
    pub open spec fn wf(&self) -> bool {
        self.state().wf()
    }

    /// An unlocked mutex around `value`.
    pub fn new(value: T) -> (mutex: Self)
        ensures
            mutex.wf(),
            mutex.state() == MutexState::unlocked(),
            mutex.value() == value,
    {
        Mutex { raw: RawMutex::new(), value }
    }

    /// Whether the lock is taken.
    pub fn is_locked(&self) -> (locked: bool)
        ensures
            locked == self.state().locked,
    {
        self.raw.is_locked()
    }

    /// Whether a guard is outstanding: the lock is taken and not merely
    /// committed to a task that has yet to resume.
    pub fn is_held(&self) -> (held: bool)
        ensures
            held == self.state().held(),
    {
        self.raw.is_held()
    }

    /// Number of suspended tasks.
    pub fn waiting(&self) -> (n: usize)
        ensures
            n == self.state().waiters.len(),
    {
        self.raw.waiting()
    }

    /// Takes the lock if it is free and returns the guard; `None` says that the
    /// caller would have to wait. Never suspends and never queues.
    pub fn try_lock(&mut self) -> (guard: Option<MutexGuard>)
        requires
            old(self).wf(),
        ensures
            final(self).wf(),
            (final(self).state(), guard is Some) == old(self).state().try_lock(),
            guard is Some == !old(self).state().locked,
            guard is Some ==> final(self).state().held(),
            final(self).value() == old(self).value(),
    {
        if self.raw.try_lock() {
            Some(MutexGuard { held: () })
        } else {
            None
        }
    }

    /// One poll of the acquisition of `task`. Returns the guard where `task` now
    /// holds the lock; where it does not, `task` stands in the queue.
    pub fn poll_lock(&mut self, task: TaskId) -> (guard: Option<MutexGuard>)
        requires
            old(self).wf(),
        ensures
            final(self).wf(),
            (final(self).state(), guard is Some) == old(self).state().poll_lock(task),
            guard is Some ==> !old(self).state().held() && final(self).state().held(),
            guard is None ==> final(self).state().waiters.contains(task),
            final(self).value() == old(self).value(),
    {
        if self.raw.poll_lock(task) {
            Some(MutexGuard { held: () })
        } else {
            None
        }
    }

    /// Withdraws the pending acquisition of `task`. The task waits no more; a lock
    /// that had been granted to it goes to the next waiter, which is returned and
    /// is to be woken.
    pub fn cancel_lock(&mut self, task: TaskId) -> (wake: Option<TaskId>)
        requires
            old(self).wf(),
        ensures
            final(self).wf(),
            (final(self).state(), wake) == old(self).state().cancel(task),
            !final(self).state().waiters.contains(task),
            final(self).state().granted != Some(task),
            final(self).state().held() == old(self).state().held(),
            final(self).value() == old(self).value(),
    {
        self.raw.cancel(task)
    }

    /// Starts an acquisition on behalf of `task`. Nothing happens to the mutex
    /// before the first poll.
    pub fn lock(&self, task: TaskId) -> (future: MutexLockFuture)
        ensures
            future.task() == task,
            !future.is_done(),
    {
        MutexLockFuture { task, done: false }
    }

    /// Releases the lock, using up the guard. Where tasks wait, the lock goes to
    /// the one that has waited longest; that task is returned and is to be woken.
    pub fn unlock(&mut self, guard: MutexGuard) -> (wake: Option<TaskId>)
        requires
            old(self).wf(),
            old(self).state().held(),
        ensures
            final(self).wf(),
            (final(self).state(), wake) == old(self).state().unlock(),
            wake == if old(self).state().waiters.len() == 0 {
                None
            } else {
                Some(old(self).state().waiters[0])
            },
            !final(self).state().held(),
            final(self).value() == old(self).value(),
    {
        self.raw.unlock()
    }

    /// The value, for the holder of the guard.
    pub fn get(&self, guard: &MutexGuard) -> (value: &T)
        ensures
            *value == self.value(),
    {
        &self.value
    }

    /// Write access to the value, for the holder of the guard.
    pub fn get_mut(&mut self, guard: &mut MutexGuard) -> (value: &mut T)
        ensures
            *value == old(self).value(),
            final(self).value() == *final(value),
            final(self).state() == old(self).state(),
    {
        &mut self.value
    }

    /// Puts `value` in place of the protected value and returns the old one.
    pub fn replace(&mut self, guard: &mut MutexGuard, value: T) -> (previous: T)
        ensures
            previous == old(self).value(),
            final(self).value() == value,
            final(self).state() == old(self).state(),
    {
        let mut value = value;
        std::mem::swap(&mut self.value, &mut value);
        value
    }

    /// Takes the mutex apart and returns the value.
    pub fn into_inner(self) -> (value: T)
        ensures
            value == self.value(),
    {
        self.value
    }
}

/// One pending acquisition of a [`Mutex`]: the state that the scheduler polls
/// until the task holds the lock.
pub struct MutexLockFuture {
    task: TaskId,
    done: bool,
}

impl MutexLockFuture {
    /// The task that acquires.
    pub closed spec fn task(&self) -> TaskId {
        self.task
    }

    /// Whether the guard has been handed out.
    pub closed spec fn is_done(&self) -> bool {
        self.done
    }

    /// Whether the guard has been handed out.
    pub fn is_completed(&self) -> (done: bool)
        ensures
            done == self.is_done(),
    {
        self.done
    }

    /// Polls the acquisition. Returns the guard as soon as the task holds the
    /// lock: at once where the lock is free, else at the poll that follows the
    /// release that woke the task. A completed acquisition stays completed and
    /// yields nothing more.
    pub fn poll<T>(&mut self, mutex: &mut Mutex<T>) -> (guard: Option<MutexGuard>)
        requires
            old(mutex).wf(),
        ensures
            final(mutex).wf(),
            final(self).task() == old(self).task(),
            final(mutex).value() == old(mutex).value(),
            old(self).is_done() ==> guard is None && final(self).is_done() && final(mutex).state()
                == old(mutex).state(),
            !old(self).is_done() ==> (final(mutex).state(), guard is Some) == old(
                mutex,
            ).state().poll_lock(old(self).task()) && final(self).is_done() == guard is Some,
            guard is Some ==> !old(mutex).state().held() && final(mutex).state().held(),
    {
        if self.done {
            None
        } else {
            let guard = mutex.poll_lock(self.task);
            self.done = guard.is_some();
            guard
        }
    }

    /// Gives the acquisition up, as when the polling task is dropped. The task
    /// waits no more; a lock that had been granted to it goes to the next waiter,
    /// which is returned and is to be woken. A completed acquisition has handed
    /// its guard out, so nothing is left to give up.
    pub fn cancel<T>(self, mutex: &mut Mutex<T>) -> (wake: Option<TaskId>)
        requires
            old(mutex).wf(),
        ensures
            final(mutex).wf(),
            final(mutex).value() == old(mutex).value(),
            self.is_done() ==> wake is None && final(mutex).state() == old(mutex).state(),
            !self.is_done() ==> (final(mutex).state(), wake) == old(mutex).state().cancel(
                self.task(),
            ),
            final(mutex).state().held() == old(mutex).state().held(),
    {
        if self.done {
            None
        } else {
            mutex.cancel_lock(self.task)
        }
    }
}

/// One thing that a task can do to a mutex.
pub enum MutexEvent {
    /// An attempt that does not suspend.
    TryLock,
    /// One poll of the pending acquisition of a task.
    PollLock(TaskId),
    /// The release of a guard.
    Unlock,
    /// A task gives up its pending acquisition.
    Cancel(TaskId),
}

/// A mutex and the number of guards that were handed out and not yet released.
pub struct MutexRun {
    /// The state of the mutex.
    pub state: MutexState,
    /// Guards handed out less guards released.
    pub guards: nat,
}

impl MutexRun {
    /// A new mutex, no guard handed out.
    pub open spec fn start() -> MutexRun {
        MutexRun { state: MutexState::unlocked(), guards: 0 }
    }

    /// The effect of one event. An acquisition that succeeds hands out a guard.
    /// Only a guard can be released, so a release without a guard changes nothing.
    pub open spec fn step(self, event: MutexEvent) -> MutexRun {
        match event {
            MutexEvent::TryLock => {
                let (state, acquired) = self.state.try_lock();
                MutexRun { state, guards: if acquired { self.guards + 1 } else { self.guards } }
            },
            MutexEvent::PollLock(task) => {
                let (state, acquired) = self.state.poll_lock(task);
                MutexRun { state, guards: if acquired { self.guards + 1 } else { self.guards } }
            },
            MutexEvent::Unlock => {
                if self.guards == 0 {
                    self
                } else {
                    MutexRun { state: self.state.unlock().0, guards: (self.guards - 1) as nat }
                }
            },
            MutexEvent::Cancel(task) => MutexRun { state: self.state.cancel(task).0, ..self },
        }
    }

    /// The effect of a sequence of events, the first one first.
    pub open spec fn run(self, events: Seq<MutexEvent>) -> MutexRun
        decreases events.len(),
    {
        if events.len() == 0 {
            self
        } else {
            self.run(events.drop_last()).step(events.last())
        }
    }

    /// The guards counted are the guards that the state knows of.
    pub open spec fn consistent(self) -> bool {
        &&& self.state.wf()
        &&& self.guards == if self.state.held() { 1nat } else { 0nat }
    }
}

/// Every operation leaves a mutex in a well-formed state.
pub proof fn lemma_mutex_transitions_keep_wf(state: MutexState, task: TaskId)
    requires
        state.wf(),
    ensures
        state.try_lock().0.wf(),
        state.poll_lock(task).0.wf(),
        state.pass_on().0.wf(),
        state.unlock().0.wf(),
        state.cancel(task).0.wf(),
{
    let polled = state.poll_lock(task).0;
    if polled.waiters != state.waiters {
        assert(polled.waiters.last() == task);
        if polled.granted is Some && polled.waiters.contains(polled.granted->0) {
            let g = polled.granted->0;
            let k = choose|k: int| 0 <= k < polled.waiters.len() && polled.waiters[k] == g;
            assert(state.waiters[k] == g);
        }
    }
    let passed = state.pass_on().0;
    if state.waiters.len() > 0 {
        let rest = state.waiters.drop_first();
        assert forall|k: int| 0 <= k < rest.len() implies rest[k] != state.waiters[0] by {
            assert(rest[k] == state.waiters[k + 1]);
        }
        assert(passed.waiters == rest);
    }
    lemma_without(state.waiters, task);
}

/// Mutual exclusion: whatever tasks do to a mutex, and in whatever order, at most
/// one guard is outstanding at any time, and the mutex knows whether one is.
pub proof fn lemma_mutual_exclusion(events: Seq<MutexEvent>)
    ensures
        MutexRun::start().run(events).guards <= 1,
        MutexRun::start().run(events).consistent(),
    decreases events.len(),
{
    if events.len() > 0 {
        lemma_mutual_exclusion(events.drop_last());
        let before = MutexRun::start().run(events.drop_last());
        match events.last() {
            MutexEvent::TryLock => {
                lemma_mutex_transitions_keep_wf(before.state, 0);
            },
            MutexEvent::PollLock(task) => {
                lemma_mutex_transitions_keep_wf(before.state, task);
            },
            MutexEvent::Unlock => {
                lemma_mutex_transitions_keep_wf(before.state, 0);
            },
            MutexEvent::Cancel(task) => {
                lemma_mutex_transitions_keep_wf(before.state, task);
            },
        }
    }
}

/// No acquisition succeeds while a guard is outstanding.
pub proof fn lemma_held_mutex_admits_nobody(state: MutexState, task: TaskId)
    requires
        state.wf(),
        state.held(),
    ensures
        !state.try_lock().1,
        !state.poll_lock(task).1,
        state.poll_lock(task).0.held(),
        state.cancel(task).0.held(),
{
}

/// No waiter is lost or overtaken. A task that waits for a mutex keeps or
/// improves its place under everything that other tasks do; a release moves it
/// up by one place or grants it the lock; and once the lock is granted to it,
/// it stays granted until the task polls, and that poll acquires.
pub proof fn lemma_waiter_is_not_lost(state: MutexState, task: TaskId, other: TaskId)
    requires
        state.wf(),
        other != task,
        state.waiters.contains(task) || state.granted == Some(task),
    ensures
        state.waiters.contains(task) ==> {
            let place = position_of(state.waiters, task);
            &&& state.try_lock().0.waiters == state.waiters
            &&& position_of(state.poll_lock(other).0.waiters, task) == place
            &&& state.poll_lock(other).0.waiters.contains(task)
            &&& state.poll_lock(task).0 == state
            &&& state.cancel(other).0.waiters.contains(task) || state.cancel(other).0.granted
                == Some(task)
            &&& state.cancel(other).0.waiters.contains(task) ==> position_of(
                state.cancel(other).0.waiters,
                task,
            ) <= place
            &&& state.held() && place == 0 ==> state.unlock() == (
                state.unlock().0,
                Some(task),
            ) && state.unlock().0.granted == Some(task)
            &&& state.held() && place > 0 ==> state.unlock().0.waiters.contains(task)
                && position_of(state.unlock().0.waiters, task) == place - 1
        },
        state.granted == Some(task) ==> {
            &&& state.try_lock().0.granted == Some(task)
            &&& state.poll_lock(other).0.granted == Some(task)
            &&& state.cancel(other).0.granted == Some(task)
            &&& state.unlock().0.granted == Some(task)
            &&& state.poll_lock(task).1
            &&& state.poll_lock(task).0.held()
        },
{
    lemma_position_of(state.waiters, task);
    if state.waiters.contains(task) {
        let place = position_of(state.waiters, task);
        lemma_position_after_push(state.waiters, task, other);
        lemma_position_after_removal(state.waiters, task, other);
        if state.waiters[0] != task {
            lemma_position_after_pop(state.waiters, task);
        }
    }
}

/// The state after `n` releases, each followed by the resumption of the task that
/// the release woke.
pub open spec fn after_handovers(state: MutexState, n: nat) -> MutexState
    decreases n,
{
    if n == 0 {
        state
    } else {
        let before = after_handovers(state, (n - 1) as nat);
        let (released, wake) = before.unlock();
        match wake {
            Some(task) => released.poll_lock(task).0,
            None => released,
        }
    }
}

/// First come, first served, and no wakeup is lost: on a held mutex, the `i`-th
/// release wakes the `i`-th task of the queue, and that task acquires at its next
/// poll, however many tasks wait behind it.
pub proof fn lemma_fifo_handover(state: MutexState, i: nat)
    requires
        state.wf(),
        state.held(),
        i < state.waiters.len(),
    ensures
        after_handovers(state, i).wf(),
        after_handovers(state, i).held(),
        after_handovers(state, i).waiters == state.waiters.skip(i as int),
        after_handovers(state, i).unlock().1 == Some(state.waiters[i as int]),
        after_handovers(state, i).unlock().0.poll_lock(state.waiters[i as int]).1,
    decreases i,
{
    if i > 0 {
        lemma_fifo_handover(state, (i - 1) as nat);
        let before = after_handovers(state, (i - 1) as nat);
        lemma_mutex_transitions_keep_wf(before, 0);
        let (released, wake) = before.unlock();
        lemma_mutex_transitions_keep_wf(released, wake->0);
        assert(before.waiters.drop_first() =~= state.waiters.skip(i as int));
    }
    assert(state.waiters.skip(i as int)[0] == state.waiters[i as int]);
}

/// The state after each of `tasks` has polled its acquisition once, in order.
pub open spec fn after_polls(state: MutexState, tasks: Seq<TaskId>) -> MutexState
    decreases tasks.len(),
{
    if tasks.len() == 0 {
        state
    } else {
        after_polls(state, tasks.drop_last()).poll_lock(tasks.last()).0
    }
}

/// Tasks that find a mutex held queue up in the order in which they arrive.
pub proof fn lemma_arrivals_queue_in_order(state: MutexState, tasks: Seq<TaskId>)
    requires
        state.wf(),
        state.held(),
        tasks.no_duplicates(),
        forall|k: int| 0 <= k < tasks.len() ==> !state.waiters.contains(#[trigger] tasks[k]),
    ensures
        after_polls(state, tasks).wf(),
        after_polls(state, tasks).held(),
        after_polls(state, tasks).waiters == state.waiters + tasks,
    decreases tasks.len(),
{
    if tasks.len() == 0 {
        assert(state.waiters + tasks =~= state.waiters);
    } else {
        let earlier = tasks.drop_last();
        lemma_arrivals_queue_in_order(state, earlier);
        let before = after_polls(state, earlier);
        let last = tasks.last();
        lemma_mutex_transitions_keep_wf(before, last);
        if before.waiters.contains(last) {
            let k = choose|k: int| 0 <= k < before.waiters.len() && before.waiters[k] == last;
            if k < state.waiters.len() {
                assert(state.waiters[k] == last);
            } else {
                assert(earlier[k - state.waiters.len()] == last);
                assert(tasks[k - state.waiters.len()] == last);
            }
        }
        assert(before.waiters.push(last) =~= state.waiters + tasks);
    }
}

} // verus!
