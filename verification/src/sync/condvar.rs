//! Condition variables for cooperatively scheduled tasks.
//!
//! A task that waits gives its guard to the condition variable. The first poll of
//! the wait releases the mutex and queues the task, in one step that no other task
//! can observe half done. A notification moves tasks from the queue to the
//! notified ones; a notified task acquires the mutex again, waiting its turn like
//! any other task, and gets a fresh guard. A task is woken by a notification only,
//! but what the mutex protects may have changed again by the time the task holds
//! the lock, so the caller checks its condition anew.
//!
//! A condition variable goes with one mutex. The identity under which a task
//! waits is queued on the condition variable first and on the mutex later; no
//! other pending operation on either may use it at the same time.
use vstd::prelude::*;
use crate::sync::TaskId;
use crate::sync::waiter_queue::{
    WaiterQueue,
    lemma_position_after_pop,
    lemma_position_after_push,
    lemma_position_after_removal,
    lemma_position_of,
    lemma_without,
    position_of,
    without,
};
use crate::sync::mutex::{Mutex, MutexGuard, MutexState, lemma_mutex_transitions_keep_wf};

verus! {

/// What a condition variable holds, as a mathematical value.
pub struct CondvarState {
    /// The tasks that wait for a notification, the one that has waited longest first.
    pub waiters: Seq<TaskId>,
    /// The tasks that were notified and have not resumed yet.
    pub notified: Seq<TaskId>,
}

impl CondvarState {
    /// The state of a new condition variable.
    pub open spec fn empty() -> CondvarState {
        CondvarState { waiters: Seq::empty(), notified: Seq::empty() }
    }

    /// No task is recorded twice.
    pub open spec fn wf(self) -> bool {
        &&& self.waiters.no_duplicates()
        &&& self.notified.no_duplicates()
        &&& forall|i: int| 0 <= i < self.waiters.len() ==> !self.notified.contains(#[trigger] self.waiters[i])
    }

    /// `task` starts to wait.
    pub open spec fn enqueue(self, task: TaskId) -> CondvarState {
        if self.waiters.contains(task) || self.notified.contains(task) {
            self
        } else {
            CondvarState { waiters: self.waiters.push(task), ..self }
        }
    }

    /// The task that has waited longest is notified and is to be woken.
    pub open spec fn notify_one(self) -> (CondvarState, Option<TaskId>) {
        if self.waiters.len() == 0 {
            (self, None)
        } else {
            (
                CondvarState {
                    waiters: self.waiters.drop_first(),
                    notified: self.notified.push(self.waiters[0]),
                },
                Some(self.waiters[0]),
            )
        }
    }

    /// Every waiting task is notified and is to be woken.
    pub open spec fn notify_all(self) -> (CondvarState, Seq<TaskId>) {
        (
            CondvarState { waiters: Seq::empty(), notified: self.notified + self.waiters },
            self.waiters,
        )
    }

    /// A notified task resumes.
    pub open spec fn resume(self, task: TaskId) -> CondvarState {
        CondvarState { notified: without(self.notified, task), ..self }
    }

    /// `task` gives up waiting.
    pub open spec fn cancel(self, task: TaskId) -> CondvarState {
        CondvarState {
            waiters: without(self.waiters, task),
            notified: without(self.notified, task),
        }
    }
}

/// How far a wait has come.
#[derive(Debug, Clone, Copy, PartialEq, Eq)]
pub enum WaitStage {
    /// The wait holds the guard; the mutex is still locked.
    Armed,
    /// The mutex is released and the task waits for a notification.
    Waiting,
    /// The task was notified and waits for the mutex.
    Relocking,
    /// The task holds the mutex again and has its guard.
    Done,
}

/// The effect of one poll of a wait.
pub struct WaitStep {
    /// The stage after the poll.
    pub stage: WaitStage,
    /// The condition variable after the poll.
    pub condvar: CondvarState,
    /// The mutex after the poll.
    pub mutex: MutexState,
    /// Whether the poll hands the guard back.
    pub acquired: bool,
    /// The task to which the poll has passed the mutex.
    pub wake: Option<TaskId>,
}

/// One poll of the wait of `task` at `stage`.
pub open spec fn wait_poll(
    stage: WaitStage,
    task: TaskId,
    condvar: CondvarState,
    mutex: MutexState,
) -> WaitStep {
    match stage {
        WaitStage::Armed => {
            let (released, wake) = mutex.unlock();
            WaitStep {
                stage: WaitStage::Waiting,
                condvar: condvar.enqueue(task),
                mutex: released,
                acquired: false,
                wake,
            }
        },
        WaitStage::Waiting => {
            if condvar.notified.contains(task) {
                let (polled, acquired) = mutex.poll_lock(task);
                WaitStep {
                    stage: if acquired {
                        WaitStage::Done
                    } else {
                        WaitStage::Relocking
                    },
                    condvar: condvar.resume(task),
                    mutex: polled,
                    acquired,
                    wake: None,
                }
            } else {
                WaitStep { stage, condvar, mutex, acquired: false, wake: None }
            }
        },
        WaitStage::Relocking => {
            let (polled, acquired) = mutex.poll_lock(task);
            WaitStep {
                stage: if acquired {
                    WaitStage::Done
                } else {
                    WaitStage::Relocking
                },
                condvar,
                mutex: polled,
                acquired,
                wake: None,
            }
        },
        WaitStage::Done => WaitStep { stage, condvar, mutex, acquired: false, wake: None },
    }
}

/// A wait that is given up at `stage`: what becomes of the condition variable and
/// of the mutex, and which task is to be woken.
pub open spec fn wait_cancel(
    stage: WaitStage,
    task: TaskId,
    condvar: CondvarState,
    mutex: MutexState,
) -> (CondvarState, MutexState, Option<TaskId>) {
    match stage {
        WaitStage::Armed => (condvar, mutex.unlock().0, mutex.unlock().1),
        WaitStage::Waiting => (condvar.cancel(task), mutex, None),
        WaitStage::Relocking => (condvar, mutex.cancel(task).0, mutex.cancel(task).1),
        WaitStage::Done => (condvar, mutex, None),
    }
}

/// Where a wait that has released the mutex stands.
enum Progress {
    Waiting,
    Relocking,
    Done,
}

/// A rendezvous of tasks around a mutex.
pub struct Condvar {
    waiters: WaiterQueue,
    notified: WaiterQueue,
}

impl Condvar {
    /// The state of the condition variable.
    pub closed spec fn view(&self) -> CondvarState {
        CondvarState { waiters: self.waiters@, notified: self.notified@ }
    }

    /// The condition variable is in one of the states that its operations can reach.
    pub open spec fn wf(&self) -> bool {
        self@.wf()
    }

    /// A condition variable on which nobody waits.
    pub fn new() -> (condvar: Self)
        ensures
            condvar.wf(),
            condvar@ == CondvarState::empty(),
    {
        Condvar { waiters: WaiterQueue::new(), notified: WaiterQueue::new() }
    }

    /// Number of tasks that wait for a notification.
    pub fn waiting(&self) -> (n: usize)
        ensures
            n == self@.waiters.len(),
    {
        self.waiters.len()
    }

    /// Starts a wait on behalf of `task`, which gives its guard away. Nothing
    /// happens to the mutex before the first poll.
    pub fn wait(&self, guard: MutexGuard, task: TaskId) -> (future: CondvarWaitFuture)
        ensures
            future.task() == task,
            future.stage() == WaitStage::Armed,
    {
        CondvarWaitFuture { task, guard: Some(guard), progress: Progress::Waiting }
    }

    /// Notifies the task that has waited longest, if any. It is returned and is to
    /// be woken.
    pub fn notify_one(&mut self) -> (wake: Option<TaskId>)
        requires
            old(self).wf(),
        ensures
            final(self).wf(),
            (final(self)@, wake) == old(self)@.notify_one(),
            wake == if old(self)@.waiters.len() == 0 {
                None
            } else {
                Some(old(self)@.waiters[0])
            },
    {
        let head = self.waiters.pop_front();
        match head {
            Some(task) => {
                proof {
                    lemma_condvar_transitions_keep_wf(old(self)@, task);
                    assert(old(self)@.waiters[0] == task);
                }
                self.notified.push_back(task);
            },
            None => {},
        }
        head
    }

    /// Notifies every task that waits now. They are returned in the order in which
    /// they waited and are to be woken.
    pub fn notify_all(&mut self) -> (wake: Vec<TaskId>)
        requires
            old(self).wf(),
        ensures
            final(self).wf(),
            final(self)@ == old(self)@.notify_all().0,
            wake@ == old(self)@.waiters,
    {
        let wake = self.waiters.drain();
        let mut i: usize = 0;
        while i < wake.len()
            invariant
                i <= wake@.len(),
                wake@ == old(self)@.waiters,
                old(self)@.wf(),
                self.notified.wf(),
                self.waiters@ == Seq::<TaskId>::empty(),
                self.notified@ == old(self)@.notified + wake@.take(i as int),
            decreases wake@.len() - i,
        {
            let task = wake[i];
            proof {
                let so_far = old(self)@.notified + wake@.take(i as int);
                if so_far.contains(task) {
                    let k = choose|k: int| 0 <= k < so_far.len() && so_far[k] == task;
                    if k < old(self)@.notified.len() {
                        assert(old(self)@.notified[k] == task);
                    } else {
                        assert(wake@[k - old(self)@.notified.len()] == task);
                    }
                }
                assert(so_far.push(task) =~= old(self)@.notified + wake@.take(i + 1));
            }
            self.notified.push_back(task);
            i = i + 1;
        }
        proof {
            assert(wake@.take(wake@.len() as int) =~= wake@);
        }
        wake
    }
}

/// What one poll of a wait gives back.
pub struct WaitPoll {
    /// The fresh guard, once the task holds the mutex again.
    pub guard: Option<MutexGuard>,
    /// The task to which the poll has passed the mutex and which is to be woken.
    pub wake: Option<TaskId>,
}

/// One pending wait on a [`Condvar`]: the state that the scheduler polls until
/// the task has been notified and holds the mutex again.
pub struct CondvarWaitFuture {
    task: TaskId,
    guard: Option<MutexGuard>,
    progress: Progress,
}

impl CondvarWaitFuture {
    /// The task that waits.
    pub closed spec fn task(&self) -> TaskId {
        self.task
    }

    /// How far the wait has come.
    pub closed spec fn stage(&self) -> WaitStage {
        if self.guard is Some {
            WaitStage::Armed
        } else {
            match self.progress {
                Progress::Waiting => WaitStage::Waiting,
                Progress::Relocking => WaitStage::Relocking,
                Progress::Done => WaitStage::Done,
            }
        }
    }

    /// How far the wait has come.
    pub fn current_stage(&self) -> (stage: WaitStage)
        ensures
            stage == self.stage(),
    {
        if self.guard.is_some() {
            WaitStage::Armed
        } else {
            match self.progress {
                Progress::Waiting => WaitStage::Waiting,
                Progress::Relocking => WaitStage::Relocking,
                Progress::Done => WaitStage::Done,
            }
        }
    }

    /// Polls the wait. The first poll releases the mutex and queues the task. A
    /// poll of a task that has not been notified changes nothing. A poll of a
    /// notified task tries to take the mutex and hands the guard back as soon as
    /// the task holds it.
    pub fn poll<T>(&mut self, condvar: &mut Condvar, mutex: &mut Mutex<T>) -> (out: WaitPoll)
        requires
            old(condvar).wf(),
            old(mutex).wf(),
            old(self).stage() == WaitStage::Armed ==> old(mutex).state().held(),
        ensures
            final(condvar).wf(),
            final(mutex).wf(),
            final(self).task() == old(self).task(),
            final(mutex).value() == old(mutex).value(),
            wait_poll(old(self).stage(), old(self).task(), old(condvar)@, old(mutex).state())
                == (WaitStep {
                stage: final(self).stage(),
                condvar: final(condvar)@,
                mutex: final(mutex).state(),
                acquired: out.guard is Some,
                wake: out.wake,
            }),
            out.guard is Some ==> final(mutex).state().held() && !old(mutex).state().held(),
    {
        proof {
            lemma_condvar_transitions_keep_wf(condvar@, self.task);
        }
        match self.guard.take() {
            Some(guard) => {
                let wake = mutex.unlock(guard);
                if !condvar.notified.contains(self.task) {
                    condvar.waiters.push_back(self.task);
                }
                self.progress = Progress::Waiting;
                WaitPoll { guard: None, wake }
            },
            None => {
                match self.progress {
                    Progress::Waiting => {
                        if condvar.notified.remove(self.task) {
                            let guard = mutex.poll_lock(self.task);
                            self.progress = if guard.is_some() {
                                Progress::Done
                            } else {
                                Progress::Relocking
                            };
                            WaitPoll { guard, wake: None }
                        } else {
                            WaitPoll { guard: None, wake: None }
                        }
                    },
                    Progress::Relocking => {
                        let guard = mutex.poll_lock(self.task);
                        if guard.is_some() {
                            self.progress = Progress::Done;
                        }
                        WaitPoll { guard, wake: None }
                    },
                    Progress::Done => WaitPoll { guard: None, wake: None },
                }
            },
        }
    }

    /// Gives the wait up, as when the polling task is dropped. A wait that still
    /// holds the guard releases the mutex; a task that waits for a notification or
    /// for the mutex waits no more, and a mutex that had been granted to it is
    /// passed on. Returns the task that is to be woken.
    pub fn cancel<T>(self, condvar: &mut Condvar, mutex: &mut Mutex<T>) -> (wake: Option<TaskId>)
        requires
            old(condvar).wf(),
            old(mutex).wf(),
            self.stage() == WaitStage::Armed ==> old(mutex).state().held(),
        ensures
            final(condvar).wf(),
            final(mutex).wf(),
            final(mutex).value() == old(mutex).value(),
            (final(condvar)@, final(mutex).state(), wake) == wait_cancel(
                self.stage(),
                self.task(),
                old(condvar)@,
                old(mutex).state(),
            ),
    {
        proof {
            lemma_condvar_transitions_keep_wf(condvar@, self.task);
        }
        let CondvarWaitFuture { task, guard, progress } = self;
        match guard {
            Some(guard) => mutex.unlock(guard),
            None => {
                match progress {
                    Progress::Waiting => {
                        condvar.waiters.remove(task);
                        condvar.notified.remove(task);
                        None
                    },
                    Progress::Relocking => mutex.cancel_lock(task),
                    Progress::Done => None,
                }
            },
        }
    }
}

/// Every operation leaves a condition variable in a well-formed state.
pub proof fn lemma_condvar_transitions_keep_wf(state: CondvarState, task: TaskId)
    requires
        state.wf(),
    ensures
        state.enqueue(task).wf(),
        state.notify_one().0.wf(),
        state.notify_all().0.wf(),
        state.resume(task).wf(),
        state.cancel(task).wf(),
{
    lemma_without(state.waiters, task);
    lemma_without(state.notified, task);
    let queued = state.enqueue(task);
    if queued.waiters != state.waiters {
        assert(queued.waiters.last() == task);
        assert forall|i: int| 0 <= i < queued.waiters.len() implies !queued.notified.contains(
            #[trigger] queued.waiters[i],
        ) by {
            if i < state.waiters.len() {
                assert(queued.waiters[i] == state.waiters[i]);
            }
        }
    }
    if state.waiters.len() > 0 {
        let one = state.notify_one().0;
        let head = state.waiters[0];
        assert forall|i: int| 0 <= i < one.waiters.len() implies !one.notified.contains(
            #[trigger] one.waiters[i],
        ) by {
            assert(one.waiters[i] == state.waiters[i + 1]);
            if one.notified.contains(one.waiters[i]) {
                let k = choose|k: int| 0 <= k < one.notified.len() && one.notified[k] == one.waiters[i];
                if k < state.notified.len() {
                    assert(state.notified[k] == one.waiters[i]);
                }
            }
        }
        assert forall|i: int, j: int|
            0 <= i < one.waiters.len() && 0 <= j < one.waiters.len() && i != j implies one.waiters[i]
            != one.waiters[j] by {
            assert(one.waiters[i] == state.waiters[i + 1]);
            assert(one.waiters[j] == state.waiters[j + 1]);
        }
        assert forall|i: int, j: int|
            0 <= i < one.notified.len() && 0 <= j < one.notified.len() && i != j implies one.notified[i]
            != one.notified[j] by {
            if i == state.notified.len() {
                assert(state.notified[j] == one.notified[j]);
            } else if j == state.notified.len() {
                assert(state.notified[i] == one.notified[i]);
            }
        }
    }
    let all = state.notify_all().0;
    assert forall|i: int, j: int|
        0 <= i < all.notified.len() && 0 <= j < all.notified.len() && i != j implies all.notified[i]
        != all.notified[j] by {
        let n = state.notified.len();
        if i < n && j >= n {
            assert(state.notified[i] == all.notified[i]);
            assert(state.waiters[j - n] == all.notified[j]);
        } else if j < n && i >= n {
            assert(state.notified[j] == all.notified[j]);
            assert(state.waiters[i - n] == all.notified[i]);
        }
    }
    let resumed = state.resume(task);
    assert forall|i: int| 0 <= i < resumed.waiters.len() implies !resumed.notified.contains(
        #[trigger] resumed.waiters[i],
    ) by {
        assert(!state.notified.contains(state.waiters[i]));
    }
    let cancelled = state.cancel(task);
    assert forall|i: int| 0 <= i < cancelled.waiters.len() implies !cancelled.notified.contains(
        #[trigger] cancelled.waiters[i],
    ) by {
        let w = cancelled.waiters[i];
        assert(cancelled.waiters.contains(w));
        assert(state.waiters.contains(w));
        let k = choose|k: int| 0 <= k < state.waiters.len() && state.waiters[k] == w;
        assert(!state.notified.contains(state.waiters[k]));
    }
}

/// A wait hands its guard back only together with the lock: the poll that returns
/// the guard finds the mutex without a holder and leaves it held, and the wait is
/// done.
pub proof fn lemma_wait_returns_holding_the_lock(
    stage: WaitStage,
    task: TaskId,
    condvar: CondvarState,
    mutex: MutexState,
)
    requires
        condvar.wf(),
        mutex.wf(),
    ensures
        wait_poll(stage, task, condvar, mutex).condvar.wf(),
        wait_poll(stage, task, condvar, mutex).mutex.wf(),
        wait_poll(stage, task, condvar, mutex).acquired ==> {
            &&& !mutex.held()
            &&& wait_poll(stage, task, condvar, mutex).mutex.held()
            &&& wait_poll(stage, task, condvar, mutex).stage == WaitStage::Done
            &&& stage != WaitStage::Armed
            &&& stage == WaitStage::Waiting ==> condvar.notified.contains(task)
        },
{
    lemma_condvar_transitions_keep_wf(condvar, task);
    lemma_mutex_transitions_keep_wf(mutex, task);
}

/// Tasks woken by one notification take turns. When all waiting tasks are
/// notified, both of any two of them are woken; whichever polls first, they never
/// hold the mutex together, and the one that does not get it stands in the queue
/// of the mutex, from which the release of the other will reach it.
pub proof fn lemma_notified_tasks_take_turns(
    condvar: CondvarState,
    mutex: MutexState,
    first: TaskId,
    second: TaskId,
)
    requires
        condvar.wf(),
        mutex.wf(),
        first != second,
        condvar.waiters.contains(first),
        condvar.waiters.contains(second),
    ensures
        condvar.notify_all().1.contains(first),
        condvar.notify_all().1.contains(second),
        ({
            let notified = condvar.notify_all().0;
            let one = wait_poll(WaitStage::Waiting, first, notified, mutex);
            let two = wait_poll(WaitStage::Waiting, second, one.condvar, one.mutex);
            &&& one.stage != WaitStage::Waiting
            &&& two.stage != WaitStage::Waiting
            &&& !(one.acquired && two.acquired)
            &&& one.acquired ==> two.mutex.held()
            &&& !one.acquired ==> two.mutex.waiters.contains(first)
            &&& !two.acquired ==> two.mutex.waiters.contains(second)
            &&& !one.acquired && !two.acquired && !mutex.waiters.contains(first)
                && !mutex.waiters.contains(second) ==> two.mutex.waiters == mutex.waiters.push(
                first,
            ).push(second)
        }),
{
    let notified = condvar.notify_all().0;
    lemma_condvar_transitions_keep_wf(condvar, first);
    let i = choose|i: int| 0 <= i < condvar.waiters.len() && condvar.waiters[i] == first;
    let j = choose|j: int| 0 <= j < condvar.waiters.len() && condvar.waiters[j] == second;
    assert(notified.notified[condvar.notified.len() + i] == first);
    assert(notified.notified[condvar.notified.len() + j] == second);
    let one = wait_poll(WaitStage::Waiting, first, notified, mutex);
    lemma_without(notified.notified, first);
    assert(one.condvar.notified.contains(second));
    lemma_mutex_transitions_keep_wf(mutex, first);
    if !one.acquired {
        assert(one.mutex.waiters.contains(first)) by {
            if !mutex.waiters.contains(first) {
                assert(one.mutex.waiters.last() == first);
            }
        }
        let k = choose|k: int| 0 <= k < one.mutex.waiters.len() && one.mutex.waiters[k] == first;
        let two = wait_poll(WaitStage::Waiting, second, one.condvar, one.mutex);
        assert(two.mutex.waiters[k] == first);
    }
    let two = wait_poll(WaitStage::Waiting, second, one.condvar, one.mutex);
    if !two.acquired {
        if !one.mutex.waiters.contains(second) {
            assert(two.mutex.waiters.last() == second);
        }
    }
    if !mutex.waiters.contains(first) && !mutex.waiters.contains(second) && !one.acquired {
        if one.mutex.waiters.contains(second) {
            let k = choose|k: int| 0 <= k < one.mutex.waiters.len() && one.mutex.waiters[k] == second;
            if k < mutex.waiters.len() {
                assert(mutex.waiters[k] == second);
            }
        }
    }
}

/// The state after `n` single notifications.
pub open spec fn after_notifications(state: CondvarState, n: nat) -> CondvarState
    decreases n,
{
    if n == 0 {
        state
    } else {
        after_notifications(state, (n - 1) as nat).notify_one().0
    }
}

/// Single notifications wake the waiting tasks in the order in which they began
/// to wait, one task each, and none is passed over.
pub proof fn lemma_notifications_wake_in_order(state: CondvarState, i: nat)
    requires
        state.wf(),
        i < state.waiters.len(),
    ensures
        after_notifications(state, i).wf(),
        after_notifications(state, i).waiters == state.waiters.skip(i as int),
        after_notifications(state, i).notify_one().1 == Some(state.waiters[i as int]),
        after_notifications(state, i).notify_one().0.notified.contains(state.waiters[i as int]),
    decreases i,
{
    if i > 0 {
        lemma_notifications_wake_in_order(state, (i - 1) as nat);
        let before = after_notifications(state, (i - 1) as nat);
        lemma_condvar_transitions_keep_wf(before, 0);
        assert(before.waiters.drop_first() =~= state.waiters.skip(i as int));
    }
    let now = after_notifications(state, i);
    assert(now.waiters[0] == state.waiters[i as int]);
    assert(now.notify_one().0.notified.last() == state.waiters[i as int]);
}

/// No waiter is lost or overtaken. A task that waits for a notification keeps or
/// improves its place under everything that other tasks do; a single
/// notification moves it up by one place or notifies it; a notification of all
/// notifies it. Once it is notified it stays notified until it polls, and that
/// poll takes it on to the mutex.
pub proof fn lemma_condvar_waiter_is_not_lost(
    state: CondvarState,
    mutex: MutexState,
    task: TaskId,
    other: TaskId,
)
    requires
        state.wf(),
        other != task,
        state.waiters.contains(task) || state.notified.contains(task),
    ensures
        state.waiters.contains(task) ==> {
            let place = position_of(state.waiters, task);
            &&& state.enqueue(other).waiters.contains(task)
            &&& position_of(state.enqueue(other).waiters, task) == place
            &&& state.enqueue(task) == state
            &&& state.resume(other).waiters == state.waiters
            &&& state.cancel(other).waiters.contains(task)
            &&& position_of(state.cancel(other).waiters, task) <= place
            &&& place == 0 ==> state.notify_one().1 == Some(task)
                && state.notify_one().0.notified.contains(task)
            &&& place > 0 ==> state.notify_one().0.waiters.contains(task) && position_of(
                state.notify_one().0.waiters,
                task,
            ) == place - 1
            &&& state.notify_all().1.contains(task)
            &&& state.notify_all().0.notified.contains(task)
            &&& wait_poll(WaitStage::Waiting, task, state, mutex).stage == WaitStage::Waiting
        },
        state.notified.contains(task) ==> {
            &&& state.enqueue(other).notified.contains(task)
            &&& state.notify_one().0.notified.contains(task)
            &&& state.notify_all().0.notified.contains(task)
            &&& state.resume(other).notified.contains(task)
            &&& state.cancel(other).notified.contains(task)
            &&& wait_poll(WaitStage::Waiting, task, state, mutex).stage != WaitStage::Waiting
            &&& !wait_poll(WaitStage::Waiting, task, state, mutex).acquired ==> wait_poll(
                WaitStage::Waiting,
                task,
                state,
                mutex,
            ).mutex.waiters.contains(task)
        },
{
    lemma_position_of(state.waiters, task);
    lemma_without(state.notified, other);
    lemma_without(state.waiters, other);
    if state.waiters.contains(task) {
        let k = choose|k: int| 0 <= k < state.waiters.len() && state.waiters[k] == task;
        assert(!state.notified.contains(state.waiters[k]));
        lemma_position_after_push(state.waiters, task, other);
        lemma_position_after_removal(state.waiters, task, other);
        if state.waiters[0] != task {
            lemma_position_after_pop(state.waiters, task);
        } else {
            assert(state.notify_one().0.notified.last() == task);
        }
        assert(state.notify_all().0.notified[state.notified.len() + k] == task);
    }
    if state.notified.contains(task) {
        let k = choose|k: int| 0 <= k < state.notified.len() && state.notified[k] == task;
        if state.waiters.len() > 0 {
            assert(state.notify_one().0.notified[k] == task);
        }
        assert(state.notify_all().0.notified[k] == task);
        let polled = mutex.poll_lock(task);
        if !polled.1 && !mutex.waiters.contains(task) {
            assert(polled.0.waiters.last() == task);
        }
    }
}

} // verus!
