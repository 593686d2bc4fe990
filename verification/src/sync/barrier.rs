//! A rendezvous of a fixed number of tasks.
//!
//! Every task that arrives is counted and suspended, but for the last one: its
//! arrival completes the generation, wakes all suspended parties, sets the count
//! back to zero and so opens the next generation. The task that made the last
//! arrival is the leader of the generation.
//!
//! A task that gives up while it waits is still counted, but is not released any
//! more: its generation completes without it. Nothing can take an arrival back,
//! so the count of a generation is no count of the tasks that wait, and a
//! generation can complete with fewer tasks than the barrier has parties. That is
//! a limit of the barrier which its users have to know.
use vstd::prelude::*;
use crate::sync::TaskId;
use crate::sync::waiter_queue::{WaiterQueue, without, lemma_without};

verus! {

/// What a barrier holds, as a mathematical value.
pub struct BarrierState {
    /// Number of arrivals that complete a generation.
    pub parties: nat,
    /// Number of generations that have been completed.
    pub generation: nat,
    /// Arrivals counted in the current generation.
    pub arrived: nat,
    /// The suspended tasks of the current generation, in the order of arrival.
    pub waiting: Seq<TaskId>,
    /// The tasks of completed generations that were woken and have not resumed yet.
    pub released: Seq<TaskId>,
}

/// The effect of one poll on a barrier.
pub struct BarrierStep {
    /// The barrier after the poll.
    pub state: BarrierState,
    /// `None` while the task has to wait; else whether the task is the leader.
    pub outcome: Option<bool>,
    /// The tasks that the poll released and that are to be woken.
    pub wake: Seq<TaskId>,
}

impl BarrierState {
    /// The state of a new barrier for `parties` tasks.
    pub open spec fn new(parties: nat) -> BarrierState {
        BarrierState {
            parties,
            generation: 0,
            arrived: 0,
            waiting: Seq::empty(),
            released: Seq::empty(),
        }
    }

    /// The states that a barrier can be in: the generation is not yet complete,
    /// every suspended task has been counted, and no task is recorded twice.
    pub open spec fn wf(self) -> bool {
        &&& self.arrived == 0 || self.arrived < self.parties
        &&& self.waiting.len() <= self.arrived
        &&& self.waiting.no_duplicates()
        &&& self.released.no_duplicates()
        &&& forall|i: int| 0 <= i < self.waiting.len() ==> !self.released.contains(#[trigger] self.waiting[i])
    }

    /// Whether the next arrival completes the generation.
    pub open spec fn next_arrival_completes(self) -> bool {
        self.arrived + 1 >= self.parties
    }

    /// One poll of the wait of `task`. A task that was released passes, not as
    /// leader. A task that waits goes on waiting. Any other task arrives: it
    /// completes the generation and passes as leader, or is counted and suspended.
    pub open spec fn poll_wait(self, task: TaskId) -> BarrierStep {
        if self.released.contains(task) {
            BarrierStep {
                state: BarrierState { released: without(self.released, task), ..self },
                outcome: Some(false),
                wake: Seq::empty(),
            }
        } else if self.waiting.contains(task) {
            BarrierStep { state: self, outcome: None, wake: Seq::empty() }
        } else if self.next_arrival_completes() {
            BarrierStep {
                state: BarrierState {
                    generation: self.generation + 1,
                    arrived: 0,
                    waiting: Seq::empty(),
                    released: self.released + self.waiting,
                    ..self
                },
                outcome: Some(true),
                wake: self.waiting,
            }
        } else {
            BarrierStep {
                state: BarrierState {
                    arrived: self.arrived + 1,
                    waiting: self.waiting.push(task),
                    ..self
                },
                outcome: None,
                wake: Seq::empty(),
            }
        }
    }

    /// `task` gives up its wait. It is neither woken nor released any more; its
    /// arrival stays counted.
    pub open spec fn cancel(self, task: TaskId) -> BarrierState {
        BarrierState {
            waiting: without(self.waiting, task),
            released: without(self.released, task),
            ..self
        }
    }
}

/// Every operation leaves a barrier in a well-formed state.
pub proof fn lemma_barrier_transitions_keep_wf(state: BarrierState, task: TaskId)
    requires
        state.wf(),
    ensures
        state.poll_wait(task).state.wf(),
        state.cancel(task).wf(),
{
    lemma_without(state.waiting, task);
    lemma_without(state.released, task);
    let next = state.poll_wait(task).state;
    if state.released.contains(task) {
        assert forall|i: int| 0 <= i < next.waiting.len() implies !next.released.contains(
            #[trigger] next.waiting[i],
        ) by {
            assert(!state.released.contains(state.waiting[i]));
        }
    } else if state.waiting.contains(task) {
    } else if state.next_arrival_completes() {
        assert forall|i: int, j: int|
            0 <= i < next.released.len() && 0 <= j < next.released.len() && i != j implies next.released[i]
            != next.released[j] by {
            let n = state.released.len();
            if i < n && j >= n {
                assert(state.released[i] == next.released[i]);
                assert(state.waiting[j - n] == next.released[j]);
            } else if j < n && i >= n {
                assert(state.released[j] == next.released[j]);
                assert(state.waiting[i - n] == next.released[i]);
            }
        }
    } else {
        assert(next.waiting.last() == task);
        assert forall|i: int| 0 <= i < next.waiting.len() implies !next.released.contains(
            #[trigger] next.waiting[i],
        ) by {
            if i < state.waiting.len() {
                assert(next.waiting[i] == state.waiting[i]);
            }
        }
    }
    let cancelled = state.cancel(task);
    assert forall|i: int| 0 <= i < cancelled.waiting.len() implies !cancelled.released.contains(
        #[trigger] cancelled.waiting[i],
    ) by {
        let w = cancelled.waiting[i];
        assert(cancelled.waiting.contains(w));
        let k = choose|k: int| 0 <= k < state.waiting.len() && state.waiting[k] == w;
        assert(!state.released.contains(state.waiting[k]));
    }
}

/// What a task learns when it passes a barrier.
#[derive(Debug, Clone, Copy, PartialEq, Eq)]
pub struct BarrierWaitResult {
    leader: bool,
}

impl BarrierWaitResult {
    /// Whether the task made the arrival that completed its generation.
    pub closed spec fn leader(&self) -> bool {
        self.leader
    }

    /// Whether the task made the arrival that completed its generation. Exactly
    /// one task of every generation is its leader.
    pub fn is_leader(&self) -> (leader: bool)
        ensures
            leader == self.leader(),
    {
        self.leader
    }
}

/// What one poll of a wait gives back.
pub struct BarrierPoll {
    /// The result, once the task passes the barrier.
    pub result: Option<BarrierWaitResult>,
    /// The tasks that the poll released and that are to be woken.
    pub wake: Vec<TaskId>,
}

impl BarrierPoll {
    /// The outcome of the poll: `None` while the task has to wait, else whether
    /// the task is the leader.
    pub open spec fn outcome(&self) -> Option<bool> {
        match self.result {
            Some(result) => Some(result.leader()),
            None => None,
        }
    }
}

/// A point at which a fixed number of tasks wait for each other.
pub struct Barrier {
    parties: usize,
    generation: Ghost<nat>,
    arrived: usize,
    waiting: WaiterQueue,
    released: WaiterQueue,
}

impl Barrier {
    /// The state of the barrier.
    pub closed spec fn view(&self) -> BarrierState {
        BarrierState {
            parties: self.parties as nat,
            generation: self.generation@,
            arrived: self.arrived as nat,
            waiting: self.waiting@,
            released: self.released@,
        }
    }

    /// The barrier is in one of the states that its operations can reach.
    pub open spec fn wf(&self) -> bool {
        self@.wf()
    }

    /// A barrier that lets tasks pass in generations of `parties`. With zero or
    /// one party every task passes at once, as leader.
    pub fn new(parties: usize) -> (barrier: Self)
        ensures
            barrier.wf(),
            barrier@ == BarrierState::new(parties as nat),
    {
        Barrier {
            parties,
            generation: Ghost(0),
            arrived: 0,
            waiting: WaiterQueue::new(),
            released: WaiterQueue::new(),
        }
    }

    /// Number of arrivals that complete a generation.
    pub fn parties(&self) -> (n: usize)
        ensures
            n == self@.parties,
    {
        self.parties
    }

    /// Arrivals counted in the current generation.
    pub fn arrived(&self) -> (n: usize)
        ensures
            n == self@.arrived,
    {
        self.arrived
    }

    /// Starts a wait on behalf of `task`. The task arrives with the first poll.
    pub fn wait(&self, task: TaskId) -> (future: BarrierWaitFuture)
        ensures
            future.task() == task,
            !future.is_done(),
    {
        BarrierWaitFuture { task, done: false }
    }

    /// One poll of the wait of `task`. The first poll is the arrival of the task.
    /// The arrival that completes the generation passes as leader and releases
    /// every suspended party; each of them passes at its next poll.
    pub fn poll_wait(&mut self, task: TaskId) -> (out: BarrierPoll)
        requires
            old(self).wf(),
        ensures
            final(self).wf(),
            old(self)@.poll_wait(task) == (BarrierStep {
                state: final(self)@,
                outcome: out.outcome(),
                wake: out.wake@,
            }),
            out.result is None ==> final(self)@.waiting.contains(task),
    {
        proof {
            lemma_barrier_transitions_keep_wf(self@, task);
        }
        if self.released.remove(task) {
            BarrierPoll { result: Some(BarrierWaitResult { leader: false }), wake: Vec::new() }
        } else if self.waiting.contains(task) {
            BarrierPoll { result: None, wake: Vec::new() }
        } else if self.arrived + 1 >= self.parties {
            let wake = self.waiting.drain();
            self.released.append(&wake);
            self.arrived = 0;
            self.generation = Ghost(self.generation@ + 1);
            BarrierPoll { result: Some(BarrierWaitResult { leader: true }), wake }
        } else {
            self.arrived = self.arrived + 1;
            self.waiting.push_back(task);
            proof {
                assert(self.waiting@.last() == task);
            }
            BarrierPoll { result: None, wake: Vec::new() }
        }
    }

    /// Withdraws the wait of `task`. The task is neither woken nor released any
    /// more; its arrival stays counted.
    pub fn cancel_wait(&mut self, task: TaskId)
        requires
            old(self).wf(),
        ensures
            final(self).wf(),
            final(self)@ == old(self)@.cancel(task),
    {
        proof {
            lemma_barrier_transitions_keep_wf(self@, task);
        }
        self.waiting.remove(task);
        self.released.remove(task);
    }
}

/// One pending wait at a [`Barrier`]: the state that the scheduler polls until
/// the task passes.
pub struct BarrierWaitFuture {
    task: TaskId,
    done: bool,
}

impl BarrierWaitFuture {
    /// The task that waits.
    pub closed spec fn task(&self) -> TaskId {
        self.task
    }

    /// Whether the task has passed the barrier.
    pub closed spec fn is_done(&self) -> bool {
        self.done
    }

    /// Whether the task has passed the barrier.
    pub fn is_completed(&self) -> (done: bool)
        ensures
            done == self.is_done(),
    {
        self.done
    }

    /// Polls the wait. A wait that has passed stays passed and yields nothing
    /// more.
    pub fn poll(&mut self, barrier: &mut Barrier) -> (out: BarrierPoll)
        requires
            old(barrier).wf(),
        ensures
            final(barrier).wf(),
            final(self).task() == old(self).task(),
            old(self).is_done() ==> final(self).is_done() && final(barrier)@ == old(barrier)@
                && out.result is None && out.wake@.len() == 0,
            !old(self).is_done() ==> old(barrier)@.poll_wait(old(self).task()) == (BarrierStep {
                state: final(barrier)@,
                outcome: out.outcome(),
                wake: out.wake@,
            }) && final(self).is_done() == out.result is Some,
    {
        if self.done {
            BarrierPoll { result: None, wake: Vec::new() }
        } else {
            let out = barrier.poll_wait(self.task);
            self.done = out.result.is_some();
            out
        }
    }

    /// Gives the wait up, as when the polling task is dropped. The arrival of
    /// the task stays counted.
    pub fn cancel(self, barrier: &mut Barrier)
        requires
            old(barrier).wf(),
        ensures
            final(barrier).wf(),
            self.is_done() ==> final(barrier)@ == old(barrier)@,
            !self.is_done() ==> final(barrier)@ == old(barrier)@.cancel(self.task()),
    {
        if !self.done {
            barrier.cancel_wait(self.task);
        }
    }
}

/// The state after each of `tasks` has polled its wait once, in order.
pub open spec fn after_arrivals(state: BarrierState, tasks: Seq<TaskId>) -> BarrierState
    decreases tasks.len(),
{
    if tasks.len() == 0 {
        state
    } else {
        after_arrivals(state, tasks.drop_last()).poll_wait(tasks.last()).state
    }
}

/// `tasks` are different tasks of which the barrier knows nothing yet.
pub open spec fn newcomers(state: BarrierState, tasks: Seq<TaskId>) -> bool {
    &&& tasks.no_duplicates()
    &&& forall|k: int|
        0 <= k < tasks.len() ==> !state.waiting.contains(#[trigger] tasks[k])
            && !state.released.contains(tasks[k])
}

/// Nobody passes before the generation is complete. As long as fewer tasks have
/// arrived than the barrier has parties, every arrival is counted and suspended,
/// in the order of arrival; no task is woken, and a suspended task that polls
/// again goes on waiting.
pub proof fn lemma_barrier_holds_until_full(state: BarrierState, tasks: Seq<TaskId>)
    requires
        state.wf(),
        newcomers(state, tasks),
        state.arrived + tasks.len() < state.parties,
    ensures
        after_arrivals(state, tasks).wf(),
        after_arrivals(state, tasks) == (BarrierState {
            arrived: state.arrived + tasks.len(),
            waiting: state.waiting + tasks,
            ..state
        }),
        forall|k: int|
            0 <= k < tasks.len() ==> {
                let step = #[trigger] after_arrivals(state, tasks.take(k)).poll_wait(tasks[k]);
                step.outcome is None && step.wake.len() == 0
            },
        forall|k: int|
            0 <= k < tasks.len() ==> {
                let step = after_arrivals(state, tasks).poll_wait(#[trigger] tasks[k]);
                step.outcome is None && step.wake.len() == 0 && step.state == after_arrivals(
                    state,
                    tasks,
                )
            },
    decreases tasks.len(),
{
    if tasks.len() == 0 {
        assert(state.waiting + tasks =~= state.waiting);
    } else {
        let earlier = tasks.drop_last();
        let last = tasks.last();
        lemma_barrier_holds_until_full(state, earlier);
        let before = after_arrivals(state, earlier);
        lemma_barrier_transitions_keep_wf(before, last);
        assert(!before.waiting.contains(last)) by {
            if before.waiting.contains(last) {
                let k = choose|k: int| 0 <= k < before.waiting.len() && before.waiting[k] == last;
                if k < state.waiting.len() {
                    assert(state.waiting[k] == last);
                } else {
                    assert(earlier[k - state.waiting.len()] == last);
                    assert(tasks[k - state.waiting.len()] == last);
                }
            }
        }
        assert(before.waiting.push(last) =~= state.waiting + tasks);
        let now = after_arrivals(state, tasks);
        assert forall|k: int| 0 <= k < tasks.len() implies {
            let step = #[trigger] after_arrivals(state, tasks.take(k)).poll_wait(tasks[k]);
            step.outcome is None && step.wake.len() == 0
        } by {
            if k < earlier.len() {
                assert(tasks.take(k) =~= earlier.take(k));
                assert(tasks[k] == earlier[k]);
            } else {
                assert(tasks.take(k) =~= earlier);
            }
        }
        assert forall|k: int| 0 <= k < tasks.len() implies {
            let step = now.poll_wait(#[trigger] tasks[k]);
            step.outcome is None && step.wake.len() == 0 && step.state == now
        } by {
            assert(now.waiting[state.waiting.len() + k] == tasks[k]);
            assert(now.waiting.contains(tasks[k]));
            assert(!now.released.contains(tasks[k]));
        }
    }
}

/// The arrival that completes a generation passes at once, as leader. It wakes
/// every suspended party, in the order of arrival, and leaves the barrier with a
/// count of zero for the next generation. Each woken party passes at its next
/// poll, and none of them as leader.
pub proof fn lemma_barrier_last_arrival_releases(state: BarrierState, last: TaskId, party: TaskId)
    requires
        state.wf(),
        state.arrived + 1 >= state.parties,
        !state.waiting.contains(last),
        !state.released.contains(last),
        state.waiting.contains(party),
    ensures
        state.poll_wait(last).outcome == Some(true),
        state.poll_wait(last).wake == state.waiting,
        state.poll_wait(last).state.wf(),
        state.poll_wait(last).state.generation == state.generation + 1,
        state.poll_wait(last).state.arrived == 0,
        state.poll_wait(last).state.waiting.len() == 0,
        state.poll_wait(last).state.parties == state.parties,
        state.poll_wait(last).state.released.contains(party),
        state.poll_wait(last).state.poll_wait(party).outcome == Some(false),
        state.poll_wait(last).state.poll_wait(party).wake.len() == 0,
        state.poll_wait(last).state.poll_wait(party).state.arrived == 0,
        state.poll_wait(last).state.poll_wait(party).state.generation == state.generation + 1,
{
    lemma_barrier_transitions_keep_wf(state, last);
    let next = state.poll_wait(last).state;
    let k = choose|k: int| 0 <= k < state.waiting.len() && state.waiting[k] == party;
    assert(next.released[state.released.len() + k] == party);
}

/// One whole generation, and so every generation: a barrier at the start of a
/// generation suspends the first arrivals, all but one, whoever they are; the
/// arrival that makes the number of parties full is the one leader and wakes all
/// the others; and the barrier is then at the start of a generation again.
pub proof fn lemma_barrier_generation(state: BarrierState, tasks: Seq<TaskId>)
    requires
        state.wf(),
        state.arrived == 0,
        state.waiting.len() == 0,
        newcomers(state, tasks),
        tasks.len() >= 1,
        tasks.len() == state.parties || (state.parties == 0 && tasks.len() == 1),
    ensures
        forall|k: int|
            0 <= k < tasks.len() - 1 ==> (#[trigger] after_arrivals(state, tasks.take(k)).poll_wait(
                tasks[k],
            )).outcome is None,
        after_arrivals(state, tasks.drop_last()).poll_wait(tasks.last()).outcome == Some(true),
        after_arrivals(state, tasks.drop_last()).poll_wait(tasks.last()).wake == tasks.drop_last(),
        after_arrivals(state, tasks).wf(),
        after_arrivals(state, tasks).generation == state.generation + 1,
        after_arrivals(state, tasks).arrived == 0,
        after_arrivals(state, tasks).waiting.len() == 0,
        after_arrivals(state, tasks).parties == state.parties,
        after_arrivals(state, tasks).released == state.released + tasks.drop_last(),
        forall|k: int|
            0 <= k < tasks.len() - 1 ==> after_arrivals(state, tasks).poll_wait(
                #[trigger] tasks[k],
            ).outcome == Some(false),
{
    let earlier = tasks.drop_last();
    let last = tasks.last();
    assert(newcomers(state, earlier)) by {
        assert forall|k: int| 0 <= k < earlier.len() implies !state.waiting.contains(
            #[trigger] earlier[k],
        ) && !state.released.contains(earlier[k]) by {
            assert(earlier[k] == tasks[k]);
        }
        assert forall|i: int, j: int|
            0 <= i < earlier.len() && 0 <= j < earlier.len() && i != j implies earlier[i]
            != earlier[j] by {
            assert(earlier[i] == tasks[i]);
            assert(earlier[j] == tasks[j]);
        }
    }
    if earlier.len() > 0 {
        lemma_barrier_holds_until_full(state, earlier);
    }
    let before = after_arrivals(state, earlier);
    assert(state.waiting + earlier =~= earlier);
    assert(before.waiting =~= earlier);
    assert(!before.waiting.contains(last)) by {
        if before.waiting.contains(last) {
            let k = choose|k: int| 0 <= k < before.waiting.len() && before.waiting[k] == last;
            assert(tasks[k] == last);
        }
    }
    lemma_barrier_transitions_keep_wf(before, last);
    assert forall|k: int| 0 <= k < tasks.len() - 1 implies (#[trigger] after_arrivals(
        state,
        tasks.take(k),
    ).poll_wait(tasks[k])).outcome is None by {
        assert(tasks.take(k) =~= earlier.take(k));
        assert(tasks[k] == earlier[k]);
        assert((#[trigger] after_arrivals(state, earlier.take(k)).poll_wait(earlier[k])).outcome is None);
    }
    let now = after_arrivals(state, tasks);
    assert forall|k: int| 0 <= k < tasks.len() - 1 implies now.poll_wait(
        #[trigger] tasks[k],
    ).outcome == Some(false) by {
        assert(before.waiting[k] == tasks[k]);
        assert(now.released[state.released.len() + k] == tasks[k]);
    }
}

/// No party is lost. A task that waits at the barrier goes on waiting, whatever
/// other tasks do, until an arrival completes its generation, and that arrival
/// wakes it. From then on it is released, whatever other tasks do, until it
/// polls, and that poll lets it pass.
pub proof fn lemma_barrier_party_is_not_lost(state: BarrierState, task: TaskId, other: TaskId)
    requires
        state.wf(),
        other != task,
        state.waiting.contains(task) || state.released.contains(task),
    ensures
        state.waiting.contains(task) ==> {
            &&& state.poll_wait(task).outcome is None
            &&& state.poll_wait(task).state == state
            &&& state.cancel(other).waiting.contains(task)
            &&& state.poll_wait(other).state.waiting.contains(task) || (state.poll_wait(
                other,
            ).state.released.contains(task) && state.poll_wait(other).wake.contains(task))
        },
        state.released.contains(task) ==> {
            &&& state.poll_wait(task).outcome == Some(false)
            &&& state.poll_wait(other).state.released.contains(task)
            &&& state.cancel(other).released.contains(task)
        },
{
    lemma_without(state.waiting, other);
    lemma_without(state.released, other);
    if state.waiting.contains(task) {
        let k = choose|k: int| 0 <= k < state.waiting.len() && state.waiting[k] == task;
        assert(!state.released.contains(state.waiting[k]));
        let next = state.poll_wait(other).state;
        if !state.released.contains(other) && !state.waiting.contains(other) {
            if state.next_arrival_completes() {
                assert(next.released[state.released.len() + k] == task);
            } else {
                assert(next.waiting[k] == task);
            }
        }
    }
    if state.released.contains(task) {
        let k = choose|k: int| 0 <= k < state.released.len() && state.released[k] == task;
        let next = state.poll_wait(other).state;
        if !state.released.contains(other) && !state.waiting.contains(other)
            && state.next_arrival_completes() {
            assert(next.released[k] == task);
        }
    }
}

/// One thing that a task can do to a barrier.
pub enum BarrierEvent {
    /// One poll of the wait of a task.
    PollWait(TaskId),
    /// A task gives up its wait.
    Cancel(TaskId),
}

/// A barrier and the count of what its polls did.
pub struct BarrierRun {
    /// The state of the barrier.
    pub state: BarrierState,
    /// Polls that were arrivals.
    pub arrivals: nat,
    /// Polls that let a task pass as leader.
    pub leaders: nat,
    /// Polls that let a task pass, not as leader.
    pub followers: nat,
}

impl BarrierRun {
    /// A new barrier for `parties` tasks, nothing counted.
    pub open spec fn start(parties: nat) -> BarrierRun {
        BarrierRun { state: BarrierState::new(parties), arrivals: 0, leaders: 0, followers: 0 }
    }

    /// Number of arrivals that make a generation: the parties, and one where the
    /// barrier has none.
    pub open spec fn quorum(self) -> nat {
        if self.state.parties == 0 {
            1
        } else {
            self.state.parties
        }
    }

    /// The effect of one event. A poll of a task that neither waits nor has been
    /// released is an arrival.
    pub open spec fn step(self, event: BarrierEvent) -> BarrierRun {
        match event {
            BarrierEvent::PollWait(task) => {
                let polled = self.state.poll_wait(task);
                BarrierRun {
                    state: polled.state,
                    arrivals: if !self.state.released.contains(task) && !self.state.waiting.contains(
                        task,
                    ) {
                        self.arrivals + 1
                    } else {
                        self.arrivals
                    },
                    leaders: if polled.outcome == Some(true) {
                        self.leaders + 1
                    } else {
                        self.leaders
                    },
                    followers: if polled.outcome == Some(false) {
                        self.followers + 1
                    } else {
                        self.followers
                    },
                }
            },
            BarrierEvent::Cancel(task) => BarrierRun { state: self.state.cancel(task), ..self },
        }
    }

    /// The effect of a sequence of events, the first one first.
    pub open spec fn run(self, events: Seq<BarrierEvent>) -> BarrierRun
        decreases events.len(),
    {
        if events.len() == 0 {
            self
        } else {
            self.run(events.drop_last()).step(events.last())
        }
    }

    /// Every arrival and every passage is accounted for: each generation that
    /// was completed took a full number of arrivals and had one leader, and no
    /// more tasks have followed a leader than arrived before it.
    pub open spec fn consistent(self) -> bool {
        &&& self.state.wf()
        &&& self.leaders == self.state.generation
        &&& self.arrivals == self.state.generation * self.quorum() + self.state.arrived
        &&& self.followers + self.state.released.len() <= self.state.generation * (self.quorum()
            - 1)
    }
}

/// The rendezvous: whatever tasks do at a barrier, and in whatever order, every
/// generation has exactly one leader and takes a full number of arrivals, and
/// nobody passes before the generation is complete; so no task passes at all
/// before as many tasks have arrived as the barrier has parties.
pub proof fn lemma_barrier_rendezvous(parties: nat, events: Seq<BarrierEvent>)
    ensures
        BarrierRun::start(parties).run(events).consistent(),
        BarrierRun::start(parties).run(events).state.parties == parties,
        BarrierRun::start(parties).run(events).leaders + BarrierRun::start(parties).run(
            events,
        ).followers > 0 ==> BarrierRun::start(parties).run(events).arrivals
            >= BarrierRun::start(parties).quorum(),
    decreases events.len(),
{
    let start = BarrierRun::start(parties);
    if events.len() == 0 {
        assert(start.state.generation * start.quorum() == 0) by (nonlinear_arith)
            requires
                start.state.generation == 0,
        ;
        assert(start.state.generation * (start.quorum() - 1) == 0) by (nonlinear_arith)
            requires
                start.state.generation == 0,
        ;
    } else {
        lemma_barrier_rendezvous(parties, events.drop_last());
        let before = start.run(events.drop_last());
        let after = start.run(events);
        let q = before.quorum() as int;
        let g = before.state.generation as int;
        assert((g + 1) * q == g * q + q) by (nonlinear_arith);
        assert((g + 1) * (q - 1) == g * (q - 1) + q - 1) by (nonlinear_arith);
        match events.last() {
            BarrierEvent::PollWait(task) => {
                lemma_barrier_transitions_keep_wf(before.state, task);
                lemma_without(before.state.released, task);
            },
            BarrierEvent::Cancel(task) => {
                lemma_barrier_transitions_keep_wf(before.state, task);
                lemma_without(before.state.released, task);
                lemma_without(before.state.waiting, task);
            },
        }
        if after.leaders + after.followers > 0 {
            assert(after.state.generation >= 1) by (nonlinear_arith)
                requires
                    after.followers + after.state.released.len() <= after.state.generation * (q
                        - 1),
                    after.leaders == after.state.generation,
                    after.leaders + after.followers > 0,
                    q >= 1,
            ;
            assert(after.state.generation * q >= q) by (nonlinear_arith)
                requires
                    after.state.generation >= 1,
                    q >= 1,
            ;
        }
    }
}

} // verus!
