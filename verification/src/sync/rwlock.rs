//! Shared and exclusive access for cooperatively scheduled tasks.
//!
//! Many readers or one writer hold the lock. Writers have priority: while a
//! writer waits, no new reader is admitted, and when the lock becomes free it goes
//! to the writer that has waited longest; only where no writer waits are the
//! waiting readers admitted, all of them together. As with the mutex, a release
//! commits the lock to the tasks that it wakes.
//!
//! Read access cannot be turned into write access: a reader that wants to write
//! releases its guard and asks anew, and what it has read may have changed by
//! then. The readers are counted in a machine word; a reader for whom the count
//! has no room is made to wait like one that finds a writer.
use vstd::prelude::*;
use crate::sync::TaskId;
use crate::sync::waiter_queue::{WaiterQueue, without, lemma_without};

verus! {

/// What a reader-writer lock holds, as a mathematical value.
pub struct RwLockState {
    /// Read accesses that are held through a guard or committed to a woken reader.
    pub readers: nat,
    /// Whether write access is held through a guard or committed to a woken writer.
    pub writer: bool,
    /// The readers that were admitted by a release and have not resumed yet.
    pub granted_readers: Seq<TaskId>,
    /// The writer that was admitted by a release and has not resumed yet.
    pub granted_writer: Option<TaskId>,
    /// The suspended writers, the one that has waited longest first.
    pub waiting_writers: Seq<TaskId>,
    /// The suspended readers, the one that has waited longest first.
    pub waiting_readers: Seq<TaskId>,
}

impl RwLockState {
    /// The state of a new lock.
    pub open spec fn unlocked() -> RwLockState {
        RwLockState {
            readers: 0,
            writer: false,
            granted_readers: Seq::empty(),
            granted_writer: None,
            waiting_writers: Seq::empty(),
            waiting_readers: Seq::empty(),
        }
    }

    /// Neither read nor write access is held or committed.
    pub open spec fn is_unlocked(self) -> bool {
        self.readers == 0 && !self.writer
    }

    /// Number of read guards that are outstanding.
    pub open spec fn read_guards(self) -> int {
        self.readers - self.granted_readers.len()
    }

    /// Whether the write guard is outstanding.
    pub open spec fn write_held(self) -> bool {
        self.writer && self.granted_writer is None
    }

    /// No task is recorded twice among the readers, nor among the writers.
    pub open spec fn queues_wf(self) -> bool {
        &&& self.granted_readers.no_duplicates()
        &&& self.waiting_readers.no_duplicates()
        &&& self.waiting_writers.no_duplicates()
        &&& forall|i: int|
            0 <= i < self.granted_readers.len() ==> !self.waiting_readers.contains(
                #[trigger] self.granted_readers[i],
            )
        &&& (self.granted_writer is Some ==> !self.waiting_writers.contains(self.granted_writer->0))
    }

    /// The states that a lock can be in: readers and a writer exclude each other,
    /// what is committed is counted as taken, and nobody waits for a free lock.
    pub open spec fn wf(self) -> bool {
        &&& self.queues_wf()
        &&& !(self.writer && self.readers > 0)
        &&& (self.granted_writer is Some ==> self.writer)
        &&& self.granted_readers.len() <= self.readers
        &&& (self.is_unlocked() ==> self.waiting_writers.len() == 0 && self.waiting_readers.len()
            == 0)
    }

    /// Whether a reader that arrives now gets in: no writer holds the lock or
    /// waits for it, and the count of readers has room.
    pub open spec fn admits_reader(self) -> bool {
        !self.writer && self.waiting_writers.len() == 0 && self.readers < usize::MAX
    }

    /// An attempt to read that does not suspend.
    pub open spec fn try_read(self) -> (RwLockState, bool) {
        if self.admits_reader() {
            (RwLockState { readers: self.readers + 1, ..self }, true)
        } else {
            (self, false)
        }
    }

    /// One poll of the pending read access of `task`.
    pub open spec fn poll_read(self, task: TaskId) -> (RwLockState, bool) {
        if self.granted_readers.contains(task) {
            (RwLockState { granted_readers: without(self.granted_readers, task), ..self }, true)
        } else if self.admits_reader() {
            (
                RwLockState {
                    readers: self.readers + 1,
                    waiting_readers: without(self.waiting_readers, task),
                    ..self
                },
                true,
            )
        } else if self.waiting_readers.contains(task) {
            (self, false)
        } else {
            (RwLockState { waiting_readers: self.waiting_readers.push(task), ..self }, false)
        }
    }

    /// An attempt to write that does not suspend.
    pub open spec fn try_write(self) -> (RwLockState, bool) {
        if self.is_unlocked() {
            (RwLockState { writer: true, ..self }, true)
        } else {
            (self, false)
        }
    }

    /// One poll of the pending write access of `task`.
    pub open spec fn poll_write(self, task: TaskId) -> (RwLockState, bool) {
        if self.granted_writer == Some(task) {
            (RwLockState { granted_writer: None, ..self }, true)
        } else if self.is_unlocked() {
            (RwLockState { writer: true, ..self }, true)
        } else if self.waiting_writers.contains(task) {
            (self, false)
        } else {
            (RwLockState { waiting_writers: self.waiting_writers.push(task), ..self }, false)
        }
    }

    /// A lock that has just become free goes to the next party: to the writer that
    /// has waited longest, or, where no writer waits, to all waiting readers. The
    /// tasks that it goes to are to be woken.
    pub open spec fn hand_over(self) -> (RwLockState, Seq<TaskId>) {
        if self.waiting_writers.len() > 0 {
            (
                RwLockState {
                    writer: true,
                    granted_writer: Some(self.waiting_writers[0]),
                    waiting_writers: self.waiting_writers.drop_first(),
                    ..self
                },
                seq![self.waiting_writers[0]],
            )
        } else {
            (
                RwLockState {
                    readers: self.waiting_readers.len(),
                    granted_readers: self.waiting_readers,
                    waiting_readers: Seq::empty(),
                    ..self
                },
                self.waiting_readers,
            )
        }
    }

    /// One read access ends, and the lock is handed over if it was the last.
    pub open spec fn drop_reader(self) -> (RwLockState, Seq<TaskId>) {
        let fewer = RwLockState { readers: (self.readers - 1) as nat, ..self };
        if fewer.readers == 0 {
            fewer.hand_over()
        } else {
            (fewer, Seq::empty())
        }
    }

    /// The release of a read guard.
    pub open spec fn release_read(self) -> (RwLockState, Seq<TaskId>) {
        if self.read_guards() > 0 {
            self.drop_reader()
        } else {
            (self, Seq::empty())
        }
    }

    /// The release of the write guard.
    pub open spec fn release_write(self) -> (RwLockState, Seq<TaskId>) {
        if self.write_held() {
            RwLockState { writer: false, ..self }.hand_over()
        } else {
            (self, Seq::empty())
        }
    }

    /// `task` gives up its pending read access. Access that had been granted to it
    /// already ends like any other.
    pub open spec fn cancel_read(self, task: TaskId) -> (RwLockState, Seq<TaskId>) {
        if self.granted_readers.contains(task) {
            RwLockState { granted_readers: without(self.granted_readers, task), ..self }.drop_reader()
        } else {
            (
                RwLockState { waiting_readers: without(self.waiting_readers, task), ..self },
                Seq::empty(),
            )
        }
    }

    /// `task` gives up its pending write access. Access that had been granted to
    /// it already is handed over.
    pub open spec fn cancel_write(self, task: TaskId) -> (RwLockState, Seq<TaskId>) {
        if self.granted_writer == Some(task) {
            RwLockState { writer: false, granted_writer: None, ..self }.hand_over()
        } else {
            (
                RwLockState { waiting_writers: without(self.waiting_writers, task), ..self },
                Seq::empty(),
            )
        }
    }
}

/// Every operation leaves a reader-writer lock in a well-formed state.
pub proof fn lemma_rwlock_transitions_keep_wf(state: RwLockState, task: TaskId)
    requires
        state.wf(),
    ensures
        state.try_read().0.wf(),
        state.poll_read(task).0.wf(),
        state.try_write().0.wf(),
        state.poll_write(task).0.wf(),
        state.release_read().0.wf(),
        state.release_write().0.wf(),
        state.cancel_read(task).0.wf(),
        state.cancel_write(task).0.wf(),
{
    lemma_without(state.granted_readers, task);
    lemma_without(state.waiting_readers, task);
    lemma_without(state.waiting_writers, task);
    assert(state.poll_read(task).0.wf()) by {
        let next = state.poll_read(task).0;
        if state.granted_readers.contains(task) {
            assert forall|i: int| 0 <= i < next.granted_readers.len() implies !next.waiting_readers.contains(
                #[trigger] next.granted_readers[i],
            ) by {
                lemma_member(next.granted_readers, i);
                lemma_index_of_member(state.granted_readers, next.granted_readers[i]);
            }
        } else if state.admits_reader() {
            assert forall|i: int| 0 <= i < next.granted_readers.len() implies !next.waiting_readers.contains(
                #[trigger] next.granted_readers[i],
            ) by {
                assert(!state.waiting_readers.contains(state.granted_readers[i]));
            }
        } else if !state.waiting_readers.contains(task) {
            lemma_push_keeps_queue(state.waiting_readers, task);
            assert forall|i: int| 0 <= i < next.granted_readers.len() implies !next.waiting_readers.contains(
                #[trigger] next.granted_readers[i],
            ) by {
                assert(!state.waiting_readers.contains(state.granted_readers[i]));
                lemma_member(state.granted_readers, i);
            }
        }
    }
    assert(state.poll_write(task).0.wf()) by {
        if state.granted_writer != Some(task) && !state.is_unlocked()
            && !state.waiting_writers.contains(task) {
            lemma_push_keeps_queue(state.waiting_writers, task);
        }
    }
    if state.read_guards() > 0 && state.readers == 1 {
        lemma_hand_over_keeps_wf(RwLockState { readers: 0, ..state });
    }
    if state.write_held() {
        lemma_hand_over_keeps_wf(RwLockState { writer: false, ..state });
    }
    if state.granted_writer == Some(task) {
        lemma_hand_over_keeps_wf(RwLockState { writer: false, granted_writer: None, ..state });
    }
    assert(state.cancel_read(task).0.wf()) by {
        let next = state.cancel_read(task).0;
        if state.granted_readers.contains(task) {
            let fewer = RwLockState { granted_readers: without(state.granted_readers, task), ..state };
            assert forall|i: int| 0 <= i < fewer.granted_readers.len() implies !fewer.waiting_readers.contains(
                #[trigger] fewer.granted_readers[i],
            ) by {
                lemma_member(fewer.granted_readers, i);
                lemma_index_of_member(state.granted_readers, fewer.granted_readers[i]);
            }
            lemma_without(state.granted_readers, task);
            if state.readers == 1 {
                assert(fewer.granted_readers.len() == 0);
                lemma_hand_over_keeps_wf(RwLockState { readers: 0, ..fewer });
            }
        } else {
            assert forall|i: int| 0 <= i < next.granted_readers.len() implies !next.waiting_readers.contains(
                #[trigger] next.granted_readers[i],
            ) by {
                assert(!state.waiting_readers.contains(state.granted_readers[i]));
            }
        }
    }
}

/// An element of a sequence is contained in it.
proof fn lemma_member(queue: Seq<TaskId>, i: int)
    requires
        0 <= i < queue.len(),
    ensures
        queue.contains(queue[i]),
{
}

/// A contained task stands at some index.
proof fn lemma_index_of_member(queue: Seq<TaskId>, task: TaskId)
    requires
        queue.contains(task),
    ensures
        0 <= queue.index_of(task) < queue.len(),
        queue[queue.index_of(task)] == task,
{
}

/// A new task joins a queue without duplicates; the others stay.
proof fn lemma_push_keeps_queue(queue: Seq<TaskId>, task: TaskId)
    requires
        queue.no_duplicates(),
        !queue.contains(task),
    ensures
        queue.push(task).no_duplicates(),
        forall|other: TaskId|
            #[trigger] queue.push(task).contains(other) <==> other == task || queue.contains(other),
{
    let pushed = queue.push(task);
    assert(pushed.last() == task);
    assert forall|other: TaskId| #[trigger] pushed.contains(other) implies other == task
        || queue.contains(other) by {
        let k = choose|k: int| 0 <= k < pushed.len() && pushed[k] == other;
        if k < queue.len() {
            assert(queue[k] == other);
        }
    }
    assert forall|other: TaskId| queue.contains(other) implies #[trigger] pushed.contains(other) by {
        let k = choose|k: int| 0 <= k < queue.len() && queue[k] == other;
        assert(pushed[k] == other);
    }
}

/// Handing a free lock over gives a well-formed state.
proof fn lemma_hand_over_keeps_wf(state: RwLockState)
    requires
        state.queues_wf(),
        state.is_unlocked(),
        state.granted_readers.len() == 0,
        state.granted_writer is None,
    ensures
        state.hand_over().0.wf(),
{
    let next = state.hand_over().0;
    if state.waiting_writers.len() > 0 {
        let rest = state.waiting_writers.drop_first();
        assert forall|k: int| 0 <= k < rest.len() implies rest[k] != state.waiting_writers[0] by {
            assert(rest[k] == state.waiting_writers[k + 1]);
        }
    }
}

/// Token of a task that holds read access to an [`RwLock`].
pub struct RwLockReadGuard {
    held: (),
}

/// Token of the task that holds write access to an [`RwLock`].
pub struct RwLockWriteGuard {
    held: (),
}

/// A value that many tasks may read together or one task may write.
pub struct RwLock<T> {
    readers: usize,
    writer: bool,
    granted_readers: WaiterQueue,
    granted_writer: Option<TaskId>,
    waiting_writers: WaiterQueue,
    waiting_readers: WaiterQueue,
    value: T,
}

impl<T> RwLock<T> {
    /// The state of the lock.
    pub closed spec fn state(&self) -> RwLockState {
        RwLockState {
            readers: self.readers as nat,
            writer: self.writer,
            granted_readers: self.granted_readers@,
            granted_writer: self.granted_writer,
            waiting_writers: self.waiting_writers@,
            waiting_readers: self.waiting_readers@,
        }
    }

    /// The protected value.
    pub closed spec fn value(&self) -> T {
        self.value
    }

    /// The lock is in one of the states that its operations can reach.
    pub open spec fn wf(&self) -> bool {
        self.state().wf()
    }

    /// An unlocked lock around `value`.
    pub fn new(value: T) -> (lock: Self)
        ensures
            lock.wf(),
            lock.state() == RwLockState::unlocked(),
            lock.value() == value,
    {
        RwLock {
            readers: 0,
            writer: false,
            granted_readers: WaiterQueue::new(),
            granted_writer: None,
            waiting_writers: WaiterQueue::new(),
            waiting_readers: WaiterQueue::new(),
            value,
        }
    }

    /// Number of read accesses that are held or committed.
    pub fn reader_count(&self) -> (n: usize)
        ensures
            n == self.state().readers,
    {
        self.readers
    }

    /// Whether write access is held or committed.
    pub fn is_write_locked(&self) -> (locked: bool)
        ensures
            locked == self.state().writer,
    {
        self.writer
    }

    /// Number of read guards that are outstanding.
    pub fn read_guards(&self) -> (n: usize)
        requires
            self.wf(),
        ensures
            n == self.state().read_guards(),
    {
        self.readers - self.granted_readers.len()
    }

    /// Whether the write guard is outstanding.
    pub fn is_write_held(&self) -> (held: bool)
        ensures
            held == self.state().write_held(),
    {
        self.writer && self.granted_writer.is_none()
    }

    fn admits_reader(&self) -> (admitted: bool)
        ensures
            admitted == self.state().admits_reader(),
    {
        !self.writer && self.waiting_writers.is_empty() && self.readers < usize::MAX
    }

    /// Takes read access if a reader is admitted now and returns the guard; `None`
    /// says that the caller would have to wait. Never suspends and never queues.
    pub fn try_read(&mut self) -> (guard: Option<RwLockReadGuard>)
        requires
            old(self).wf(),
        ensures
            final(self).wf(),
            (final(self).state(), guard is Some) == old(self).state().try_read(),
            guard is Some == old(self).state().admits_reader(),
            guard is Some ==> !final(self).state().writer && final(self).state().read_guards()
                == old(self).state().read_guards() + 1,
            final(self).value() == old(self).value(),
    {
        proof {
            lemma_rwlock_transitions_keep_wf(self.state(), 0);
        }
        if self.admits_reader() {
            self.readers = self.readers + 1;
            Some(RwLockReadGuard { held: () })
        } else {
            None
        }
    }

    /// One poll of the pending read access of `task`. Returns the guard where
    /// `task` now reads; where it does not, `task` stands among the waiting
    /// readers.
    pub fn poll_read(&mut self, task: TaskId) -> (guard: Option<RwLockReadGuard>)
        requires
            old(self).wf(),
        ensures
            final(self).wf(),
            (final(self).state(), guard is Some) == old(self).state().poll_read(task),
            guard is Some ==> !final(self).state().writer && final(self).state().read_guards()
                == old(self).state().read_guards() + 1,
            guard is None ==> final(self).state().waiting_readers.contains(task),
            final(self).value() == old(self).value(),
    {
        proof {
            lemma_rwlock_transitions_keep_wf(self.state(), task);
            lemma_without(self.granted_readers@, task);
        }
        if self.granted_readers.remove(task) {
            Some(RwLockReadGuard { held: () })
        } else if self.admits_reader() {
            self.readers = self.readers + 1;
            self.waiting_readers.remove(task);
            Some(RwLockReadGuard { held: () })
        } else {
            let added = self.waiting_readers.push_back(task);
            proof {
                if added {
                    assert(self.waiting_readers@.last() == task);
                }
            }
            None
        }
    }

    /// Takes write access if the lock is free and returns the guard; `None` says
    /// that the caller would have to wait. Never suspends and never queues.
    pub fn try_write(&mut self) -> (guard: Option<RwLockWriteGuard>)
        requires
            old(self).wf(),
        ensures
            final(self).wf(),
            (final(self).state(), guard is Some) == old(self).state().try_write(),
            guard is Some == old(self).state().is_unlocked(),
            guard is Some ==> final(self).state().write_held() && final(self).state().readers == 0,
            final(self).value() == old(self).value(),
    {
        proof {
            lemma_rwlock_transitions_keep_wf(self.state(), 0);
        }
        if self.readers == 0 && !self.writer {
            self.writer = true;
            Some(RwLockWriteGuard { held: () })
        } else {
            None
        }
    }

    /// One poll of the pending write access of `task`. Returns the guard where
    /// `task` now writes; where it does not, `task` stands among the waiting
    /// writers.
    pub fn poll_write(&mut self, task: TaskId) -> (guard: Option<RwLockWriteGuard>)
        requires
            old(self).wf(),
        ensures
            final(self).wf(),
            (final(self).state(), guard is Some) == old(self).state().poll_write(task),
            guard is Some ==> final(self).state().write_held() && final(self).state().readers == 0
                && !old(self).state().write_held() && old(self).state().read_guards() == 0,
            guard is None ==> final(self).state().waiting_writers.contains(task),
            final(self).value() == old(self).value(),
    {
        proof {
            lemma_rwlock_transitions_keep_wf(self.state(), task);
        }
        if self.granted_writer == Some(task) {
            self.granted_writer = None;
            Some(RwLockWriteGuard { held: () })
        } else if self.readers == 0 && !self.writer {
            self.writer = true;
            Some(RwLockWriteGuard { held: () })
        } else {
            let added = self.waiting_writers.push_back(task);
            proof {
                if added {
                    assert(self.waiting_writers@.last() == task);
                }
            }
            None
        }
    }

    fn hand_over(&mut self) -> (wake: Vec<TaskId>)
        requires
            old(self).state().queues_wf(),
            old(self).state().is_unlocked(),
            old(self).state().granted_readers.len() == 0,
            old(self).state().granted_writer is None,
        ensures
            (final(self).state(), wake@) == old(self).state().hand_over(),
            final(self).value() == old(self).value(),
    {
        match self.waiting_writers.pop_front() {
            Some(task) => {
                self.writer = true;
                self.granted_writer = Some(task);
                let mut wake: Vec<TaskId> = Vec::new();
                wake.push(task);
                assert(wake@ =~= seq![task]);
                wake
            },
            None => {
                std::mem::swap(&mut self.granted_readers, &mut self.waiting_readers);
                let wake = self.granted_readers.to_vec();
                self.readers = wake.len();
                assert(self.waiting_readers@ =~= Seq::<TaskId>::empty());
                wake
            },
        }
    }

    /// Releases read access, using up the guard. The last reader to leave hands
    /// the lock over; the tasks that it goes to are returned and are to be woken.
    pub fn release_read(&mut self, guard: RwLockReadGuard) -> (wake: Vec<TaskId>)
        requires
            old(self).wf(),
            old(self).state().read_guards() > 0,
        ensures
            final(self).wf(),
            (final(self).state(), wake@) == old(self).state().release_read(),
            final(self).state().read_guards() == old(self).state().read_guards() - 1,
            final(self).value() == old(self).value(),
    {
        proof {
            lemma_rwlock_transitions_keep_wf(self.state(), 0);
        }
        self.readers = self.readers - 1;
        if self.readers == 0 {
            self.hand_over()
        } else {
            Vec::new()
        }
    }

    /// Releases write access, using up the guard, and hands the lock over. The
    /// tasks that it goes to are returned and are to be woken.
    pub fn release_write(&mut self, guard: RwLockWriteGuard) -> (wake: Vec<TaskId>)
        requires
            old(self).wf(),
            old(self).state().write_held(),
        ensures
            final(self).wf(),
            (final(self).state(), wake@) == old(self).state().release_write(),
            !final(self).state().write_held(),
            final(self).value() == old(self).value(),
    {
        proof {
            lemma_rwlock_transitions_keep_wf(self.state(), 0);
        }
        self.writer = false;
        self.hand_over()
    }

    /// Withdraws the pending read access of `task`. The task waits no more; access
    /// that had been granted to it ends, and if it was the last the lock is handed
    /// over. Returns the tasks that are to be woken.
    pub fn cancel_read(&mut self, task: TaskId) -> (wake: Vec<TaskId>)
        requires
            old(self).wf(),
        ensures
            final(self).wf(),
            (final(self).state(), wake@) == old(self).state().cancel_read(task),
            final(self).state().read_guards() == old(self).state().read_guards(),
            final(self).state().write_held() == old(self).state().write_held(),
            final(self).value() == old(self).value(),
    {
        proof {
            lemma_rwlock_transitions_keep_wf(self.state(), task);
            lemma_without(self.granted_readers@, task);
        }
        if self.granted_readers.remove(task) {
            self.readers = self.readers - 1;
            if self.readers == 0 {
                self.hand_over()
            } else {
                Vec::new()
            }
        } else {
            self.waiting_readers.remove(task);
            Vec::new()
        }
    }

    /// Withdraws the pending write access of `task`. The task waits no more;
    /// access that had been granted to it is handed over. Returns the tasks that
    /// are to be woken.
    pub fn cancel_write(&mut self, task: TaskId) -> (wake: Vec<TaskId>)
        requires
            old(self).wf(),
        ensures
            final(self).wf(),
            (final(self).state(), wake@) == old(self).state().cancel_write(task),
            final(self).state().read_guards() == old(self).state().read_guards(),
            final(self).state().write_held() == old(self).state().write_held(),
            final(self).value() == old(self).value(),
    {
        proof {
            lemma_rwlock_transitions_keep_wf(self.state(), task);
        }
        if self.granted_writer == Some(task) {
            self.writer = false;
            self.granted_writer = None;
            self.hand_over()
        } else {
            self.waiting_writers.remove(task);
            Vec::new()
        }
    }

    /// Starts a read access on behalf of `task`. Nothing happens to the lock
    /// before the first poll.
    pub fn read(&self, task: TaskId) -> (future: RwLockReadFuture)
        ensures
            future.task() == task,
            !future.is_done(),
    {
        RwLockReadFuture { task, done: false }
    }

    /// Starts a write access on behalf of `task`. Nothing happens to the lock
    /// before the first poll.
    pub fn write(&self, task: TaskId) -> (future: RwLockWriteFuture)
        ensures
            future.task() == task,
            !future.is_done(),
    {
        RwLockWriteFuture { task, done: false }
    }

    /// The value, for the holder of a read guard.
    pub fn get(&self, guard: &RwLockReadGuard) -> (value: &T)
        ensures
            *value == self.value(),
    {
        &self.value
    }

    /// The value, for the holder of the write guard.
    pub fn peek(&self, guard: &RwLockWriteGuard) -> (value: &T)
        ensures
            *value == self.value(),
    {
        &self.value
    }

    /// Write access to the value, for the holder of the write guard.
    pub fn get_mut(&mut self, guard: &mut RwLockWriteGuard) -> (value: &mut T)
        ensures
            *value == old(self).value(),
            final(self).value() == *final(value),
            final(self).state() == old(self).state(),
    {
        &mut self.value
    }

    /// Puts `value` in place of the protected value and returns the old one.
    pub fn replace(&mut self, guard: &mut RwLockWriteGuard, value: T) -> (previous: T)
        ensures
            previous == old(self).value(),
            final(self).value() == value,
            final(self).state() == old(self).state(),
    {
        let mut value = value;
        std::mem::swap(&mut self.value, &mut value);
        value
    }

    /// Takes the lock apart and returns the value.
    pub fn into_inner(self) -> (value: T)
        ensures
            value == self.value(),
    {
        self.value
    }
}

/// One pending read access to an [`RwLock`]: the state that the scheduler polls
/// until the task reads.
pub struct RwLockReadFuture {
    task: TaskId,
    done: bool,
}

impl RwLockReadFuture {
    /// The task that wants to read.
    pub closed spec fn task(&self) -> TaskId {
        self.task
    }

    /// Whether the guard has been handed out.
    pub closed spec fn is_done(&self) -> bool {
        self.done
    }

    /// Whether the guard has been handed out.
    pub fn is_completed(&self) -> (done: bool)
        ensures
            done == self.is_done(),
    {
        self.done
    }

    /// Polls the access. Returns the guard as soon as the task reads. A completed
    /// access stays completed and yields nothing more.
    pub fn poll<T>(&mut self, lock: &mut RwLock<T>) -> (guard: Option<RwLockReadGuard>)
        requires
            old(lock).wf(),
        ensures
            final(lock).wf(),
            final(self).task() == old(self).task(),
            final(lock).value() == old(lock).value(),
            old(self).is_done() ==> guard is None && final(self).is_done() && final(lock).state()
                == old(lock).state(),
            !old(self).is_done() ==> (final(lock).state(), guard is Some) == old(
                lock,
            ).state().poll_read(old(self).task()) && final(self).is_done() == guard is Some,
            guard is Some ==> !final(lock).state().writer,
    {
        if self.done {
            None
        } else {
            let guard = lock.poll_read(self.task);
            self.done = guard.is_some();
            guard
        }
    }

    /// Gives the access up, as when the polling task is dropped. Returns the
    /// tasks that are to be woken. A completed access has handed its guard out, so
    /// nothing is left to give up.
    pub fn cancel<T>(self, lock: &mut RwLock<T>) -> (wake: Vec<TaskId>)
        requires
            old(lock).wf(),
        ensures
            final(lock).wf(),
            final(lock).value() == old(lock).value(),
            self.is_done() ==> wake@.len() == 0 && final(lock).state() == old(lock).state(),
            !self.is_done() ==> (final(lock).state(), wake@) == old(lock).state().cancel_read(
                self.task(),
            ),
    {
        if self.done {
            Vec::new()
        } else {
            lock.cancel_read(self.task)
        }
    }
}

/// One pending write access to an [`RwLock`]: the state that the scheduler polls
/// until the task writes.
pub struct RwLockWriteFuture {
    task: TaskId,
    done: bool,
}

impl RwLockWriteFuture {
    /// The task that wants to write.
    pub closed spec fn task(&self) -> TaskId {
        self.task
    }

    /// Whether the guard has been handed out.
    pub closed spec fn is_done(&self) -> bool {
        self.done
    }

    /// Whether the guard has been handed out.
    pub fn is_completed(&self) -> (done: bool)
        ensures
            done == self.is_done(),
    {
        self.done
    }

    /// Polls the access. Returns the guard as soon as the task writes. A
    /// completed access stays completed and yields nothing more.
    pub fn poll<T>(&mut self, lock: &mut RwLock<T>) -> (guard: Option<RwLockWriteGuard>)
        requires
            old(lock).wf(),
        ensures
            final(lock).wf(),
            final(self).task() == old(self).task(),
            final(lock).value() == old(lock).value(),
            old(self).is_done() ==> guard is None && final(self).is_done() && final(lock).state()
                == old(lock).state(),
            !old(self).is_done() ==> (final(lock).state(), guard is Some) == old(
                lock,
            ).state().poll_write(old(self).task()) && final(self).is_done() == guard is Some,
            guard is Some ==> final(lock).state().write_held() && final(lock).state().readers == 0,
    {
        if self.done {
            None
        } else {
            let guard = lock.poll_write(self.task);
            self.done = guard.is_some();
            guard
        }
    }

    /// Gives the access up, as when the polling task is dropped. Returns the
    /// tasks that are to be woken. A completed access has handed its guard out, so
    /// nothing is left to give up.
    pub fn cancel<T>(self, lock: &mut RwLock<T>) -> (wake: Vec<TaskId>)
        requires
            old(lock).wf(),
        ensures
            final(lock).wf(),
            final(lock).value() == old(lock).value(),
            self.is_done() ==> wake@.len() == 0 && final(lock).state() == old(lock).state(),
            !self.is_done() ==> (final(lock).state(), wake@) == old(lock).state().cancel_write(
                self.task(),
            ),
    {
        if self.done {
            Vec::new()
        } else {
            lock.cancel_write(self.task)
        }
    }
}

/// One thing that a task can do to a reader-writer lock.
pub enum RwLockEvent {
    /// An attempt to read that does not suspend.
    TryRead,
    /// One poll of the pending read access of a task.
    PollRead(TaskId),
    /// An attempt to write that does not suspend.
    TryWrite,
    /// One poll of the pending write access of a task.
    PollWrite(TaskId),
    /// The release of a read guard.
    ReleaseRead,
    /// The release of the write guard.
    ReleaseWrite,
    /// A task gives up its pending read access.
    CancelRead(TaskId),
    /// A task gives up its pending write access.
    CancelWrite(TaskId),
}

/// A lock and the guards that were handed out and not yet released.
pub struct RwLockRun {
    /// The state of the lock.
    pub state: RwLockState,
    /// Read guards handed out less read guards released.
    pub read_guards: nat,
    /// Write guards handed out less write guards released.
    pub write_guards: nat,
}

impl RwLockRun {
    /// A new lock, no guard handed out.
    pub open spec fn start() -> RwLockRun {
        RwLockRun { state: RwLockState::unlocked(), read_guards: 0, write_guards: 0 }
    }

    /// The effect of one event. An access that succeeds hands out a guard. Only a
    /// guard can be released, so a release without a guard changes nothing.
    pub open spec fn step(self, event: RwLockEvent) -> RwLockRun {
        match event {
            RwLockEvent::TryRead => {
                let (state, acquired) = self.state.try_read();
                RwLockRun {
                    state,
                    read_guards: if acquired {
                        self.read_guards + 1
                    } else {
                        self.read_guards
                    },
                    ..self
                }
            },
            RwLockEvent::PollRead(task) => {
                let (state, acquired) = self.state.poll_read(task);
                RwLockRun {
                    state,
                    read_guards: if acquired {
                        self.read_guards + 1
                    } else {
                        self.read_guards
                    },
                    ..self
                }
            },
            RwLockEvent::TryWrite => {
                let (state, acquired) = self.state.try_write();
                RwLockRun {
                    state,
                    write_guards: if acquired {
                        self.write_guards + 1
                    } else {
                        self.write_guards
                    },
                    ..self
                }
            },
            RwLockEvent::PollWrite(task) => {
                let (state, acquired) = self.state.poll_write(task);
                RwLockRun {
                    state,
                    write_guards: if acquired {
                        self.write_guards + 1
                    } else {
                        self.write_guards
                    },
                    ..self
                }
            },
            RwLockEvent::ReleaseRead => {
                if self.read_guards == 0 {
                    self
                } else {
                    RwLockRun {
                        state: self.state.release_read().0,
                        read_guards: (self.read_guards - 1) as nat,
                        ..self
                    }
                }
            },
            RwLockEvent::ReleaseWrite => {
                if self.write_guards == 0 {
                    self
                } else {
                    RwLockRun {
                        state: self.state.release_write().0,
                        write_guards: (self.write_guards - 1) as nat,
                        ..self
                    }
                }
            },
            RwLockEvent::CancelRead(task) => RwLockRun {
                state: self.state.cancel_read(task).0,
                ..self
            },
            RwLockEvent::CancelWrite(task) => RwLockRun {
                state: self.state.cancel_write(task).0,
                ..self
            },
        }
    }

    /// The effect of a sequence of events, the first one first.
    pub open spec fn run(self, events: Seq<RwLockEvent>) -> RwLockRun
        decreases events.len(),
    {
        if events.len() == 0 {
            self
        } else {
            self.run(events.drop_last()).step(events.last())
        }
    }

    /// The guards counted are the guards that the state knows of.
    pub open spec fn consistent(self) -> bool {
        &&& self.state.wf()
        &&& self.read_guards == self.state.read_guards()
        &&& self.write_guards == if self.state.write_held() {
            1nat
        } else {
            0nat
        }
    }
}

/// How each operation changes the number of outstanding guards: an access that
/// succeeds adds one of its kind, a release takes one away, and nothing else
/// changes either number, not even a hand-over.
pub proof fn lemma_rwlock_guard_counts(state: RwLockState, task: TaskId)
    requires
        state.wf(),
    ensures
        state.try_read().0.read_guards() == state.read_guards() + if state.try_read().1 {
            1int
        } else {
            0int
        },
        state.try_read().0.write_held() == state.write_held(),
        state.poll_read(task).0.read_guards() == state.read_guards() + if state.poll_read(task).1 {
            1int
        } else {
            0int
        },
        state.poll_read(task).0.write_held() == state.write_held(),
        state.try_write().0.read_guards() == state.read_guards(),
        state.try_write().1 ==> !state.write_held() && state.try_write().0.write_held(),
        !state.try_write().1 ==> state.try_write().0.write_held() == state.write_held(),
        state.poll_write(task).0.read_guards() == state.read_guards(),
        state.poll_write(task).1 ==> !state.write_held() && state.poll_write(task).0.write_held(),
        !state.poll_write(task).1 ==> state.poll_write(task).0.write_held() == state.write_held(),
        state.read_guards() > 0 ==> state.release_read().0.read_guards() == state.read_guards() - 1
            && !state.release_read().0.write_held() && !state.write_held(),
        state.write_held() ==> !state.release_write().0.write_held()
            && state.release_write().0.read_guards() == 0 && state.read_guards() == 0,
        state.cancel_read(task).0.read_guards() == state.read_guards(),
        state.cancel_read(task).0.write_held() == state.write_held(),
        state.cancel_write(task).0.read_guards() == state.read_guards(),
        state.cancel_write(task).0.write_held() == state.write_held(),
        state.read_guards() >= 0,
        state.write_held() ==> state.read_guards() == 0,
{
    lemma_without(state.granted_readers, task);
    lemma_without(state.waiting_readers, task);
    lemma_without(state.waiting_writers, task);
}

/// Readers and a writer exclude each other: whatever tasks do to a lock, and in
/// whatever order, at most one write guard is outstanding at any time, and never
/// together with a read guard.
pub proof fn lemma_readers_and_writer_exclude(events: Seq<RwLockEvent>)
    ensures
        RwLockRun::start().run(events).write_guards <= 1,
        RwLockRun::start().run(events).write_guards == 1 ==> RwLockRun::start().run(
            events,
        ).read_guards == 0,
        RwLockRun::start().run(events).consistent(),
    decreases events.len(),
{
    if events.len() > 0 {
        lemma_readers_and_writer_exclude(events.drop_last());
        let before = RwLockRun::start().run(events.drop_last());
        let task = match events.last() {
            RwLockEvent::PollRead(task) => task,
            RwLockEvent::PollWrite(task) => task,
            RwLockEvent::CancelRead(task) => task,
            RwLockEvent::CancelWrite(task) => task,
            _ => 0,
        };
        lemma_rwlock_transitions_keep_wf(before.state, task);
        lemma_rwlock_guard_counts(before.state, task);
    } else {
        lemma_rwlock_guard_counts(RwLockState::unlocked(), 0);
    }
}

/// The state after `n` attempts to read.
pub open spec fn after_reads(state: RwLockState, n: nat) -> RwLockState
    decreases n,
{
    if n == 0 {
        state
    } else {
        after_reads(state, (n - 1) as nat).try_read().0
    }
}

/// Readers share the lock: as long as no writer holds it or waits for it, every
/// reader that arrives is admitted, however many read already.
pub proof fn lemma_readers_share(state: RwLockState, n: nat)
    requires
        state.wf(),
        !state.writer,
        state.waiting_writers.len() == 0,
        state.readers + n <= usize::MAX,
    ensures
        after_reads(state, n).wf(),
        after_reads(state, n).read_guards() == state.read_guards() + n,
        after_reads(state, n) == (RwLockState { readers: state.readers + n, ..state }),
        n > 0 ==> after_reads(state, (n - 1) as nat).try_read().1,
    decreases n,
{
    if n > 0 {
        lemma_readers_share(state, (n - 1) as nat);
        lemma_rwlock_transitions_keep_wf(after_reads(state, (n - 1) as nat), 0);
    }
}

/// Writers have priority. While a writer waits, no reader is admitted that has
/// not been admitted before, and a release wakes no reader: the lock goes to the
/// writer that has waited longest, as soon as the last guard is released.
pub proof fn lemma_writer_priority(state: RwLockState, reader: TaskId)
    requires
        state.wf(),
        state.waiting_writers.len() > 0,
        !state.granted_readers.contains(reader),
    ensures
        !state.try_read().1,
        !state.poll_read(reader).1,
        state.poll_read(reader).0.waiting_readers.contains(reader),
        state.poll_read(reader).0.waiting_writers == state.waiting_writers,
        state.release_read().0.waiting_readers == state.waiting_readers,
        state.release_write().0.waiting_readers == state.waiting_readers,
        state.release_read().0.granted_readers == state.granted_readers,
        state.release_write().0.granted_readers == state.granted_readers,
        state.write_held() ==> state.release_write().1 == seq![state.waiting_writers[0]]
            && state.release_write().0.granted_writer == Some(state.waiting_writers[0]),
        state.read_guards() == 1 && state.readers == 1 ==> state.release_read().1
            == seq![state.waiting_writers[0]] && state.release_read().0.granted_writer == Some(
            state.waiting_writers[0],
        ),
{
    if !state.waiting_readers.contains(reader) {
        assert(state.waiting_readers.push(reader).last() == reader);
    }
}

/// No wakeup is lost. The release that frees the lock commits it at once: to the
/// writer at the head of its queue, or, where no writer waits, to every waiting
/// reader. Each task that is woken acquires at its next poll; where nobody
/// waits, the lock is left free.
pub proof fn lemma_release_reaches_waiters(state: RwLockState, task: TaskId)
    requires
        state.wf(),
        state.write_held() || (state.readers == 1 && state.read_guards() == 1),
    ensures
        ({
            let (next, wake) = if state.write_held() {
                state.release_write()
            } else {
                state.release_read()
            };
            &&& next.wf()
            &&& state.waiting_writers.len() > 0 ==> wake == seq![state.waiting_writers[0]]
                && next.poll_write(state.waiting_writers[0]).1
            &&& state.waiting_writers.len() == 0 ==> wake == state.waiting_readers
            &&& state.waiting_writers.len() == 0 && state.waiting_readers.contains(task)
                ==> next.poll_read(task).1
            &&& state.waiting_writers.len() == 0 && state.waiting_readers.len() == 0
                ==> next.is_unlocked()
        }),
{
    lemma_rwlock_transitions_keep_wf(state, task);
}

/// Access that a release has committed to a task stays committed, whatever other
/// tasks do, until the task polls, and that poll acquires.
pub proof fn lemma_granted_access_is_kept(state: RwLockState, task: TaskId, other: TaskId)
    requires
        state.wf(),
        other != task,
    ensures
        state.granted_readers.contains(task) ==> {
            &&& state.poll_read(task).1
            &&& state.try_read().0.granted_readers.contains(task)
            &&& state.try_write().0.granted_readers.contains(task)
            &&& state.poll_read(other).0.granted_readers.contains(task)
            &&& state.poll_write(other).0.granted_readers.contains(task)
            &&& state.release_read().0.granted_readers.contains(task)
            &&& state.release_write().0.granted_readers.contains(task)
            &&& state.cancel_read(other).0.granted_readers.contains(task)
            &&& state.cancel_write(other).0.granted_readers.contains(task)
        },
        state.granted_writer == Some(task) ==> {
            &&& state.poll_write(task).1
            &&& state.try_read().0.granted_writer == Some(task)
            &&& state.try_write().0.granted_writer == Some(task)
            &&& state.poll_read(other).0.granted_writer == Some(task)
            &&& state.poll_write(other).0.granted_writer == Some(task)
            &&& state.release_read().0.granted_writer == Some(task)
            &&& state.release_write().0.granted_writer == Some(task)
            &&& state.cancel_read(other).0.granted_writer == Some(task)
            &&& state.cancel_write(other).0.granted_writer == Some(task)
        },
{
    lemma_without(state.granted_readers, other);
    if state.granted_readers.contains(task) {
        assert(state.readers >= 1);
        if state.granted_readers.contains(other) {
            assert(without(state.granted_readers, other).contains(task));
            lemma_two_members(state.granted_readers, task, other);
        }
    }
}

/// Two different tasks in a queue without duplicates make its length two at least.
proof fn lemma_two_members(queue: Seq<TaskId>, a: TaskId, b: TaskId)
    requires
        queue.contains(a),
        queue.contains(b),
        a != b,
    ensures
        queue.len() >= 2,
{
    let i = choose|i: int| 0 <= i < queue.len() && queue[i] == a;
    let j = choose|j: int| 0 <= j < queue.len() && queue[j] == b;
    assert(i != j);
}

/// No waiter is lost. A task that waits for access goes on waiting, whatever
/// other tasks do, until a hand-over commits access to it.
pub proof fn lemma_rwlock_waiter_is_not_lost(state: RwLockState, task: TaskId, other: TaskId)
    requires
        state.wf(),
        other != task,
    ensures
        state.waiting_writers.contains(task) ==> {
            &&& state.try_read().0.waiting_writers.contains(task)
            &&& state.try_write().0.waiting_writers.contains(task)
            &&& state.poll_read(other).0.waiting_writers.contains(task)
            &&& state.poll_write(other).0.waiting_writers.contains(task)
            &&& state.poll_write(task).0 == state
            &&& state.cancel_read(other).0.waiting_writers.contains(task) || state.cancel_read(
                other,
            ).0.granted_writer == Some(task)
            &&& state.cancel_write(other).0.waiting_writers.contains(task) || state.cancel_write(
                other,
            ).0.granted_writer == Some(task)
            &&& state.release_read().0.waiting_writers.contains(task)
                || state.release_read().0.granted_writer == Some(task)
            &&& state.release_write().0.waiting_writers.contains(task)
                || state.release_write().0.granted_writer == Some(task)
        },
        state.waiting_readers.contains(task) ==> {
            &&& state.try_read().0.waiting_readers.contains(task)
            &&& state.try_write().0.waiting_readers.contains(task)
            &&& state.poll_read(other).0.waiting_readers.contains(task)
            &&& state.poll_write(other).0.waiting_readers.contains(task)
            &&& state.cancel_read(other).0.waiting_readers.contains(task) || state.cancel_read(
                other,
            ).0.granted_readers.contains(task)
            &&& state.cancel_write(other).0.waiting_readers.contains(task) || state.cancel_write(
                other,
            ).0.granted_readers.contains(task)
            &&& state.release_read().0.waiting_readers.contains(task)
                || state.release_read().0.granted_readers.contains(task)
            &&& state.release_write().0.waiting_readers.contains(task)
                || state.release_write().0.granted_readers.contains(task)
        },
{
    lemma_without(state.waiting_writers, other);
    lemma_without(state.waiting_readers, other);
    lemma_without(state.granted_readers, other);
    if state.waiting_writers.contains(task) {
        let k = choose|k: int| 0 <= k < state.waiting_writers.len() && state.waiting_writers[k] == task;
        if !state.waiting_writers.contains(other) {
            assert(state.waiting_writers.push(other)[k] == task);
        }
        if k > 0 {
            assert(state.waiting_writers.drop_first()[k - 1] == task);
        }
    }
    if state.waiting_readers.contains(task) {
        let k = choose|k: int| 0 <= k < state.waiting_readers.len() && state.waiting_readers[k] == task;
        if !state.waiting_readers.contains(other) {
            assert(state.waiting_readers.push(other)[k] == task);
        }
    }
}

} // verus!
