//! One-time initialisation for cooperatively scheduled tasks.
//!
//! A [`Once`] is uninitialised, initialising or initialised. The one task that
//! finds it uninitialised gets the ticket to run the initialiser; tasks that
//! arrive while it runs are suspended and woken when it completes; tasks that
//! arrive later pass at once. Where the initialiser fails, the state goes back to
//! uninitialised and the suspended tasks are woken, so that none waits for ever
//! and the next task to ask runs the initialiser again.
//!
//! [`OnceLock`] keeps the value that the initialiser produced.
use vstd::prelude::*;
use crate::sync::TaskId;
use crate::sync::waiter_queue::{WaiterQueue, without, lemma_without};

verus! {

/// How far an initialisation has come.
#[derive(Debug, Clone, Copy, PartialEq, Eq)]
pub enum OnceStage {
    /// No initialiser has run to its end.
    Uninitialized,
    /// One task runs the initialiser.
    Initializing,
    /// The initialiser has run.
    Initialized,
}

/// What a task that asks for the initialisation is told.
#[derive(Debug, Clone, Copy, PartialEq, Eq)]
pub enum OnceAnswer {
    /// The task is the one to run the initialiser.
    Run,
    /// Another task runs the initialiser; the task is suspended.
    Wait,
    /// The initialiser has run.
    Done,
}

/// What a `Once` holds, as a mathematical value.
pub struct OnceState {
    /// How far the initialisation has come.
    pub stage: OnceStage,
    /// The tasks that wait for the running initialiser, in the order of arrival.
    pub waiters: Seq<TaskId>,
}

impl OnceState {
    /// The state of a new `Once`.
    pub open spec fn uninitialized() -> OnceState {
        OnceState { stage: OnceStage::Uninitialized, waiters: Seq::empty() }
    }

    /// The state of a `Once` whose initialiser has run.
    pub open spec fn initialized() -> OnceState {
        OnceState { stage: OnceStage::Initialized, waiters: Seq::empty() }
    }

    /// The states that a `Once` can be in: tasks wait only while the initialiser
    /// runs, and none waits twice.
    pub open spec fn wf(self) -> bool {
        &&& self.waiters.no_duplicates()
        &&& (self.stage != OnceStage::Initializing ==> self.waiters.len() == 0)
    }

    /// `task` asks for the initialisation.
    pub open spec fn begin(self, task: TaskId) -> (OnceState, OnceAnswer) {
        match self.stage {
            OnceStage::Uninitialized => (
                OnceState { stage: OnceStage::Initializing, ..self },
                OnceAnswer::Run,
            ),
            OnceStage::Initializing => (
                if self.waiters.contains(task) {
                    self
                } else {
                    OnceState { waiters: self.waiters.push(task), ..self }
                },
                OnceAnswer::Wait,
            ),
            OnceStage::Initialized => (self, OnceAnswer::Done),
        }
    }

    /// An attempt to start the initialiser that does not suspend: it succeeds on
    /// an uninitialised `Once` only, and nobody is made to wait.
    pub open spec fn try_begin(self) -> (OnceState, bool) {
        if self.stage == OnceStage::Uninitialized {
            (OnceState { stage: OnceStage::Initializing, ..self }, true)
        } else {
            (self, false)
        }
    }

    /// The running initialiser ends with `stage`: every suspended task is to be
    /// woken.
    pub open spec fn finish(self, stage: OnceStage) -> (OnceState, Seq<TaskId>) {
        if self.stage == OnceStage::Initializing {
            (OnceState { stage, waiters: Seq::empty() }, self.waiters)
        } else {
            (self, Seq::empty())
        }
    }

    /// The running initialiser has done its work.
    pub open spec fn complete(self) -> (OnceState, Seq<TaskId>) {
        self.finish(OnceStage::Initialized)
    }

    /// The running initialiser has failed.
    pub open spec fn fail(self) -> (OnceState, Seq<TaskId>) {
        self.finish(OnceStage::Uninitialized)
    }

    /// `task` gives up waiting.
    pub open spec fn cancel(self, task: TaskId) -> OnceState {
        OnceState { waiters: without(self.waiters, task), ..self }
    }
}

/// Every operation leaves a `Once` in a well-formed state.
pub proof fn lemma_once_transitions_keep_wf(state: OnceState, task: TaskId)
    requires
        state.wf(),
    ensures
        state.begin(task).0.wf(),
        state.try_begin().0.wf(),
        state.complete().0.wf(),
        state.fail().0.wf(),
        state.cancel(task).wf(),
{
    lemma_without(state.waiters, task);
    if state.stage == OnceStage::Initializing && !state.waiters.contains(task) {
        let pushed = state.waiters.push(task);
        assert(pushed.last() == task);
    }
}

/// Token of the task that runs the initialiser. It is made by [`Once::begin`]
/// only and is used up when the initialiser ends.
pub struct OnceTicket {
    held: (),
}

/// What [`Once::begin`] gives back.
pub enum OnceBegin {
    /// The task is the one to run the initialiser, and this is its ticket.
    Run(OnceTicket),
    /// Another task runs the initialiser; the task is suspended.
    Wait,
    /// The initialiser has run.
    Done,
}

impl OnceBegin {
    /// The answer without the ticket.
    pub open spec fn answer(&self) -> OnceAnswer {
        match self {
            OnceBegin::Run(_) => OnceAnswer::Run,
            OnceBegin::Wait => OnceAnswer::Wait,
            OnceBegin::Done => OnceAnswer::Done,
        }
    }
}

/// An initialisation that happens once.
pub struct Once {
    stage: OnceStage,
    waiters: WaiterQueue,
}

impl Once {
    /// The state of the `Once`.
    pub closed spec fn view(&self) -> OnceState {
        OnceState { stage: self.stage, waiters: self.waiters@ }
    }

    /// The `Once` is in one of the states that its operations can reach.
    pub open spec fn wf(&self) -> bool {
        self@.wf()
    }

    /// An uninitialised `Once`.
    pub fn new() -> (once: Self)
        ensures
            once.wf(),
            once@ == OnceState::uninitialized(),
    {
        Once { stage: OnceStage::Uninitialized, waiters: WaiterQueue::new() }
    }

    /// How far the initialisation has come.
    pub fn stage(&self) -> (stage: OnceStage)
        ensures
            stage == self@.stage,
    {
        self.stage
    }

    /// Whether the initialiser has run.
    pub fn is_completed(&self) -> (done: bool)
        ensures
            done == (self@.stage == OnceStage::Initialized),
    {
        match self.stage {
            OnceStage::Initialized => true,
            _ => false,
        }
    }

    /// `task` asks for the initialisation. Exactly the task that finds the `Once`
    /// uninitialised is told to run the initialiser; a task that arrives while
    /// the initialiser runs is suspended.
    pub fn begin(&mut self, task: TaskId) -> (out: OnceBegin)
        requires
            old(self).wf(),
        ensures
            final(self).wf(),
            (final(self)@, out.answer()) == old(self)@.begin(task),
            out.answer() == OnceAnswer::Run <==> old(self)@.stage == OnceStage::Uninitialized,
            out.answer() == OnceAnswer::Wait ==> final(self)@.waiters.contains(task),
    {
        proof {
            lemma_once_transitions_keep_wf(self@, task);
        }
        match self.stage {
            OnceStage::Uninitialized => {
                self.stage = OnceStage::Initializing;
                OnceBegin::Run(OnceTicket { held: () })
            },
            OnceStage::Initializing => {
                let added = self.waiters.push_back(task);
                proof {
                    if added {
                        assert(self.waiters@.last() == task);
                    }
                }
                OnceBegin::Wait
            },
            OnceStage::Initialized => OnceBegin::Done,
        }
    }

    /// Hands out the ticket to run the initialiser if the `Once` is
    /// uninitialised; `None` says that an initialiser runs or has run. Never
    /// suspends and never queues.
    pub fn try_begin(&mut self) -> (ticket: Option<OnceTicket>)
        requires
            old(self).wf(),
        ensures
            final(self).wf(),
            (final(self)@, ticket is Some) == old(self)@.try_begin(),
            ticket is Some <==> old(self)@.stage == OnceStage::Uninitialized,
    {
        match self.stage {
            OnceStage::Uninitialized => {
                self.stage = OnceStage::Initializing;
                Some(OnceTicket { held: () })
            },
            _ => None,
        }
    }

    /// The initialiser has done its work. The tasks that waited for it are
    /// returned and are to be woken; each of them passes at its next poll.
    pub fn complete(&mut self, ticket: OnceTicket) -> (wake: Vec<TaskId>)
        requires
            old(self).wf(),
            old(self)@.stage == OnceStage::Initializing,
        ensures
            final(self).wf(),
            (final(self)@, wake@) == old(self)@.complete(),
            final(self)@.stage == OnceStage::Initialized,
            wake@ == old(self)@.waiters,
    {
        self.stage = OnceStage::Initialized;
        self.waiters.drain()
    }

    /// The initialiser has failed. The `Once` is uninitialised again; the tasks
    /// that waited are returned and are to be woken, and the first task that asks
    /// again runs the initialiser.
    pub fn fail(&mut self, ticket: OnceTicket) -> (wake: Vec<TaskId>)
        requires
            old(self).wf(),
            old(self)@.stage == OnceStage::Initializing,
        ensures
            final(self).wf(),
            (final(self)@, wake@) == old(self)@.fail(),
            final(self)@ == OnceState::uninitialized(),
            wake@ == old(self)@.waiters,
    {
        self.stage = OnceStage::Uninitialized;
        self.waiters.drain()
    }

    /// Withdraws the wait of `task`.
    pub fn cancel(&mut self, task: TaskId)
        requires
            old(self).wf(),
        ensures
            final(self).wf(),
            final(self)@ == old(self)@.cancel(task),
    {
        proof {
            lemma_once_transitions_keep_wf(self@, task);
        }
        self.waiters.remove(task);
    }

    /// Runs `init` unless an initialiser has run or runs. Returns whether the
    /// `Once` is initialised now; where it is not, another task runs the
    /// initialiser and `task` is suspended until that one completes. The
    /// initialiser runs without suspension, so no task can come to wait for it.
    pub fn call_once<F: FnOnce() -> ()>(&mut self, task: TaskId, init: F) -> (done: bool)
        requires
            old(self).wf(),
            old(self)@.stage == OnceStage::Uninitialized ==> call_requires(init, ()),
        ensures
            final(self).wf(),
            old(self)@.stage == OnceStage::Uninitialized ==> done && call_ensures(init, (), ())
                && final(self)@ == OnceState::initialized(),
            old(self)@.stage != OnceStage::Uninitialized ==> final(self)@ == old(self)@.begin(
                task,
            ).0,
            done == (old(self)@.stage != OnceStage::Initializing),
            done == (final(self)@.stage == OnceStage::Initialized),
    {
        match self.begin(task) {
            OnceBegin::Run(ticket) => {
                init();
                let wake = self.complete(ticket);
                true
            },
            OnceBegin::Wait => false,
            OnceBegin::Done => true,
        }
    }
}

/// A cell that is written once.
pub struct OnceLock<T> {
    once: Once,
    value: Option<T>,
}

impl<T> OnceLock<T> {
    /// The state of the initialisation.
    pub closed spec fn state(&self) -> OnceState {
        self.once@
    }

    /// The value, once there is one.
    pub closed spec fn value(&self) -> Option<T> {
        self.value
    }

    /// The cell is in one of the states that its operations can reach: it holds
    /// a value exactly when it is initialised.
    pub open spec fn wf(&self) -> bool {
        &&& self.state().wf()
        &&& (self.state().stage == OnceStage::Initialized <==> self.value() is Some)
    }

    /// An empty cell.
    pub fn new() -> (cell: Self)
        ensures
            cell.wf(),
            cell.state() == OnceState::uninitialized(),
            cell.value() is None,
    {
        OnceLock { once: Once::new(), value: None }
    }

    /// How far the initialisation has come.
    pub fn stage(&self) -> (stage: OnceStage)
        ensures
            stage == self.state().stage,
    {
        self.once.stage()
    }

    /// Whether the cell holds its value.
    pub fn is_initialized(&self) -> (done: bool)
        requires
            self.wf(),
        ensures
            done == self.value() is Some,
    {
        self.once.is_completed()
    }

    /// The value, if the cell holds one.
    pub fn get(&self) -> (value: Option<&T>)
        ensures
            value is Some == self.value() is Some,
            value is Some ==> *value->0 == self.value()->0,
    {
        self.value.as_ref()
    }

    /// Writes `value` if the cell is uninitialised; else hands `value` back and
    /// leaves the cell as it is.
    pub fn set(&mut self, value: T) -> (rejected: Result<(), T>)
        requires
            old(self).wf(),
        ensures
            final(self).wf(),
            rejected is Ok == (old(self).state().stage == OnceStage::Uninitialized),
            rejected is Ok ==> final(self).value() == Some(value) && final(self).state()
                == OnceState::initialized(),
            rejected is Err ==> rejected->Err_0 == value && final(self).value() == old(
                self,
            ).value() && final(self).state() == old(self).state(),
    {
        match self.once.try_begin() {
            Some(ticket) => {
                self.value = Some(value);
                let wake = self.once.complete(ticket);
                Ok(())
            },
            None => Err(value),
        }
    }

    /// `task` asks for the initialisation. Exactly the task that finds the cell
    /// uninitialised is told to produce the value; a task that arrives while the
    /// value is produced is suspended.
    pub fn begin(&mut self, task: TaskId) -> (out: OnceBegin)
        requires
            old(self).wf(),
        ensures
            final(self).wf(),
            (final(self).state(), out.answer()) == old(self).state().begin(task),
            out.answer() == OnceAnswer::Run <==> old(self).state().stage
                == OnceStage::Uninitialized,
            out.answer() == OnceAnswer::Done <==> old(self).value() is Some,
            final(self).value() == old(self).value(),
    {
        self.once.begin(task)
    }

    /// The value has been produced. The tasks that waited for it are returned and
    /// are to be woken; each of them finds the value at its next poll.
    pub fn complete(&mut self, ticket: OnceTicket, value: T) -> (wake: Vec<TaskId>)
        requires
            old(self).wf(),
            old(self).state().stage == OnceStage::Initializing,
        ensures
            final(self).wf(),
            (final(self).state(), wake@) == old(self).state().complete(),
            final(self).value() == Some(value),
    {
        self.value = Some(value);
        self.once.complete(ticket)
    }

    /// The production of the value has failed. The cell is uninitialised again;
    /// the tasks that waited are returned and are to be woken, and the first task
    /// that asks again produces the value.
    pub fn fail(&mut self, ticket: OnceTicket) -> (wake: Vec<TaskId>)
        requires
            old(self).wf(),
            old(self).state().stage == OnceStage::Initializing,
        ensures
            final(self).wf(),
            (final(self).state(), wake@) == old(self).state().fail(),
            final(self).value() is None,
    {
        self.once.fail(ticket)
    }

    /// Withdraws the wait of `task`.
    pub fn cancel(&mut self, task: TaskId)
        requires
            old(self).wf(),
        ensures
            final(self).wf(),
            final(self).state() == old(self).state().cancel(task),
            final(self).value() == old(self).value(),
    {
        self.once.cancel(task);
    }

    /// The value of the cell, produced by `init` if the cell is uninitialised. A
    /// value that the cell holds is returned as it is, and `init` does not run.
    /// `None` says that another task produces the value and that `task` is
    /// suspended until that one completes.
    pub fn get_or_init<F: FnOnce() -> T>(&mut self, task: TaskId, init: F) -> (value: Option<&T>)
        requires
            old(self).wf(),
            old(self).state().stage == OnceStage::Uninitialized ==> call_requires(init, ()),
        ensures
            final(self).wf(),
            value is Some == (old(self).state().stage != OnceStage::Initializing),
            value is Some ==> final(self).value() == Some(*value->0),
            old(self).value() is Some ==> final(self).value() == old(self).value()
                && final(self).state() == old(self).state(),
            old(self).state().stage == OnceStage::Uninitialized ==> call_ensures(
                init,
                (),
                *value->0,
            ) && final(self).state() == OnceState::initialized(),
            old(self).state().stage == OnceStage::Initializing ==> final(self).value() is None
                && final(self).state() == old(self).state().begin(task).0,
    {
        match self.once.begin(task) {
            OnceBegin::Run(ticket) => {
                let produced = init();
                self.value = Some(produced);
                let wake = self.once.complete(ticket);
                self.value.as_ref()
            },
            OnceBegin::Wait => None,
            OnceBegin::Done => self.value.as_ref(),
        }
    }

    /// Takes the cell apart and returns the value, if it holds one.
    pub fn into_inner(self) -> (value: Option<T>)
        ensures
            value == self.value(),
    {
        self.value
    }
}

/// One thing that a task can do to a `Once`.
pub enum OnceEvent {
    /// A task asks for the initialisation.
    Begin(TaskId),
    /// A task asks for the initialisation, but would not wait for it.
    TryBegin,
    /// The running initialiser has done its work.
    Complete,
    /// The running initialiser has failed.
    Fail,
    /// A task gives up waiting.
    Cancel(TaskId),
}

/// A `Once` and the count of what its initialisers did.
pub struct OnceRun {
    /// The state of the `Once`.
    pub state: OnceState,
    /// How often a task was told to run the initialiser.
    pub started: nat,
    /// How often the initialiser failed.
    pub failed: nat,
    /// Tickets handed out and not yet used up.
    pub tickets: nat,
}

impl OnceRun {
    /// A new `Once`, no initialiser started.
    pub open spec fn start() -> OnceRun {
        OnceRun { state: OnceState::uninitialized(), started: 0, failed: 0, tickets: 0 }
    }

    /// The effect of one event. Only the holder of the ticket can end the
    /// initialiser, so an end without a ticket changes nothing.
    pub open spec fn step(self, event: OnceEvent) -> OnceRun {
        match event {
            OnceEvent::Begin(task) => {
                let (state, answer) = self.state.begin(task);
                if answer == OnceAnswer::Run {
                    OnceRun {
                        state,
                        started: self.started + 1,
                        tickets: self.tickets + 1,
                        ..self
                    }
                } else {
                    OnceRun { state, ..self }
                }
            },
            OnceEvent::TryBegin => {
                let (state, started) = self.state.try_begin();
                if started {
                    OnceRun {
                        state,
                        started: self.started + 1,
                        tickets: self.tickets + 1,
                        ..self
                    }
                } else {
                    OnceRun { state, ..self }
                }
            },
            OnceEvent::Complete => {
                if self.tickets == 0 {
                    self
                } else {
                    OnceRun {
                        state: self.state.complete().0,
                        tickets: (self.tickets - 1) as nat,
                        ..self
                    }
                }
            },
            OnceEvent::Fail => {
                if self.tickets == 0 {
                    self
                } else {
                    OnceRun {
                        state: self.state.fail().0,
                        failed: self.failed + 1,
                        tickets: (self.tickets - 1) as nat,
                        ..self
                    }
                }
            },
            OnceEvent::Cancel(task) => OnceRun { state: self.state.cancel(task), ..self },
        }
    }

    /// The effect of a sequence of events, the first one first.
    pub open spec fn run(self, events: Seq<OnceEvent>) -> OnceRun
        decreases events.len(),
    {
        if events.len() == 0 {
            self
        } else {
            self.run(events.drop_last()).step(events.last())
        }
    }

    /// Every start of the initialiser is accounted for: it failed, it runs, or
    /// it is the one that initialised.
    pub open spec fn consistent(self) -> bool {
        &&& self.state.wf()
        &&& self.tickets == if self.state.stage == OnceStage::Initializing {
            1nat
        } else {
            0nat
        }
        &&& self.started == self.failed + self.tickets + if self.state.stage
            == OnceStage::Initialized {
            1nat
        } else {
            0nat
        }
    }
}

/// The initialiser runs once. However many tasks ask, and in whatever order, at
/// most one initialiser runs at a time, and of all the initialisers that were
/// started at most one did not fail: the one that runs, or the one that has
/// initialised the `Once`. Where no initialiser fails, a single one is started.
pub proof fn lemma_initializer_runs_once(events: Seq<OnceEvent>)
    ensures
        OnceRun::start().run(events).consistent(),
        OnceRun::start().run(events).tickets <= 1,
        OnceRun::start().run(events).started <= OnceRun::start().run(events).failed + 1,
        OnceRun::start().run(events).state.stage == OnceStage::Initialized ==> OnceRun::start().run(
            events,
        ).started == OnceRun::start().run(events).failed + 1,
    decreases events.len(),
{
    if events.len() > 0 {
        lemma_initializer_runs_once(events.drop_last());
        let before = OnceRun::start().run(events.drop_last());
        let task = match events.last() {
            OnceEvent::Begin(task) => task,
            OnceEvent::Cancel(task) => task,
            _ => 0,
        };
        lemma_once_transitions_keep_wf(before.state, task);
    }
}

/// What is initialised stays initialised: no operation changes an initialised
/// `Once`, and every task that asks is told that the work is done.
pub proof fn lemma_initialized_is_final(state: OnceState, task: TaskId)
    requires
        state.wf(),
        state.stage == OnceStage::Initialized,
    ensures
        state.begin(task) == (state, OnceAnswer::Done),
        state.try_begin() == (state, false),
        state.complete().0 == state,
        state.fail().0 == state,
        state.cancel(task) == state,
{
    assert(state.waiters =~= Seq::<TaskId>::empty());
    assert(without(state.waiters, task) =~= state.waiters);
}

/// No task waits for ever. The end of the initialiser wakes every task that
/// waited for it. After success each of them is told that the work is done;
/// after failure the first of them that asks again runs the initialiser.
pub proof fn lemma_end_of_initializer_wakes_all(state: OnceState, task: TaskId)
    requires
        state.wf(),
        state.stage == OnceStage::Initializing,
    ensures
        state.complete().1 == state.waiters,
        state.fail().1 == state.waiters,
        state.complete().0.begin(task).1 == OnceAnswer::Done,
        state.fail().0 == OnceState::uninitialized(),
        state.fail().0.begin(task).1 == OnceAnswer::Run,
{
}

/// No waiter is lost. A task that waits for the running initialiser goes on
/// waiting, whatever other tasks do, until the initialiser ends; and the end of
/// the initialiser, success or failure, wakes it.
pub proof fn lemma_once_waiter_is_not_lost(state: OnceState, task: TaskId, other: TaskId)
    requires
        state.wf(),
        other != task,
        state.waiters.contains(task),
    ensures
        state.stage == OnceStage::Initializing,
        state.begin(other).0.waiters.contains(task),
        state.begin(other).0.stage == OnceStage::Initializing,
        state.begin(task) == (state, OnceAnswer::Wait),
        state.try_begin() == (state, false),
        state.cancel(other).waiters.contains(task),
        state.complete().1.contains(task),
        state.fail().1.contains(task),
{
    lemma_without(state.waiters, other);
    let k = choose|k: int| 0 <= k < state.waiters.len() && state.waiters[k] == task;
    if !state.waiters.contains(other) {
        assert(state.waiters.push(other)[k] == task);
    }
}

} // verus!
