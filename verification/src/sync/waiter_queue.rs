//! The ordered record of the tasks that are suspended on one primitive.
//!
//! The queue is a singly linked list in a table of nodes. A task that comes to
//! wait takes a node from the list of spare nodes, and the table grows only
//! where none is spare; a task that leaves gives its node back. A queue that has
//! once held as many tasks as wait at a time allocates no more. Leaving the
//! queue at its head takes the same time however many tasks wait. Joining it
//! and leaving it from the middle take a walk along the list, to see that the
//! task does not wait already, or to find it.
//!
//! An operation that changes the queue takes it apart, changes the parts and
//! puts them together again, so that the queue is a well-formed list whenever it
//! can be seen.
use vstd::prelude::*;
use crate::sync::TaskId;

verus! {

/// One place in the table: a task, and the place that follows in its list.
struct Node {
    task: TaskId,
    next: Option<usize>,
}

/// First-in, first-out queue of suspended tasks. A task occurs in it at most once.
pub struct WaiterQueue {
    nodes: Vec<Node>,
    head: Option<usize>,
    tail: Option<usize>,
    free: Option<usize>,
    len: usize,
    chain: Ghost<Seq<usize>>,
    spare: Ghost<Seq<usize>>,
}

/// The places `chain` of the table `nodes` form a list that begins at `first`:
/// each place occurs once, and each is followed by the next one.
spec fn linked(nodes: Seq<Node>, first: Option<usize>, chain: Seq<usize>) -> bool {
    &&& chain.no_duplicates()
    &&& forall|i: int| 0 <= i < chain.len() ==> (#[trigger] chain[i]) < nodes.len()
    &&& first == if chain.len() == 0 {
        None
    } else {
        Some(chain[0])
    }
    &&& forall|i: int|
        0 <= i < chain.len() ==> (#[trigger] nodes[chain[i] as int]).next == if i + 1 < chain.len() {
            Some(chain[i + 1])
        } else {
            None
        }
}

/// The tasks in the places `chain` of the table `nodes`.
spec fn tasks_of(nodes: Seq<Node>, chain: Seq<usize>) -> Seq<TaskId> {
    Seq::new(chain.len(), |k: int| nodes[chain[k] as int].task)
}

/// Position of `task` in `queue`, or the length of `queue` where it does not occur.
pub open spec fn position_of(queue: Seq<TaskId>, task: TaskId) -> int
    decreases queue.len(),
{
    if queue.len() == 0 {
        0
    } else if queue[0] == task {
        0
    } else {
        1 + position_of(queue.drop_first(), task)
    }
}

/// `queue` without `task`, the order of the others kept.
pub open spec fn without(queue: Seq<TaskId>, task: TaskId) -> Seq<TaskId> {
    if queue.contains(task) {
        queue.remove(position_of(queue, task))
    } else {
        queue
    }
}

/// `position_of` finds the first occurrence.
pub proof fn lemma_position_of(queue: Seq<TaskId>, task: TaskId)
    ensures
        0 <= position_of(queue, task) <= queue.len(),
        queue.contains(task) <==> position_of(queue, task) < queue.len(),
        position_of(queue, task) < queue.len() ==> queue[position_of(queue, task)] == task,
        forall|i: int| 0 <= i < position_of(queue, task) ==> queue[i] != task,
    decreases queue.len(),
{
    if queue.len() == 0 {
    } else if queue[0] == task {
    } else {
        let rest = queue.drop_first();
        lemma_position_of(rest, task);
        let p = position_of(rest, task);
        assert forall|i: int| 0 <= i < 1 + p implies queue[i] != task by {
            if i > 0 {
                assert(queue[i] == rest[i - 1]);
            }
        }
        if p < rest.len() {
            assert(queue[1 + p] == rest[p]);
        }
        if queue.contains(task) {
            let k = choose|k: int| 0 <= k < queue.len() && queue[k] == task;
            assert(rest[k - 1] == task);
        }
    }
}

/// Taking a task out of a queue without duplicates leaves no trace of it and
/// keeps every other task.
pub proof fn lemma_without(queue: Seq<TaskId>, task: TaskId)
    requires
        queue.no_duplicates(),
    ensures
        without(queue, task).no_duplicates(),
        !without(queue, task).contains(task),
        forall|other: TaskId|
            other != task ==> (#[trigger] without(queue, task).contains(other) <==> queue.contains(
                other,
            )),
        queue.contains(task) ==> without(queue, task).len() == queue.len() - 1,
{
    lemma_position_of(queue, task);
    if queue.contains(task) {
        let p = position_of(queue, task);
        let out = queue.remove(p);
        queue.remove_ensures(p);
        assert forall|other: TaskId| other != task implies (#[trigger] out.contains(other)
            <==> queue.contains(other)) by {
            if queue.contains(other) {
                let k = choose|k: int| 0 <= k < queue.len() && queue[k] == other;
                if k < p {
                    assert(out[k] == other);
                } else {
                    assert(out[k - 1] == other);
                }
            }
        }
    }
}

/// A task that joins the queue does not move those that wait already.
pub proof fn lemma_position_after_push(queue: Seq<TaskId>, task: TaskId, other: TaskId)
    requires
        queue.contains(task),
    ensures
        queue.push(other).contains(task),
        position_of(queue.push(other), task) == position_of(queue, task),
    decreases queue.len(),
{
    let pushed = queue.push(other);
    assert(pushed[0] == queue[0]);
    if queue[0] != task {
        let rest = queue.drop_first();
        let k = choose|k: int| 0 <= k < queue.len() && queue[k] == task;
        assert(rest[k - 1] == task);
        lemma_position_after_push(rest, task, other);
        assert(pushed.drop_first() =~= rest.push(other));
    }
    let k = choose|k: int| 0 <= k < queue.len() && queue[k] == task;
    assert(pushed[k] == task);
}

/// When the head of the queue leaves, every task behind it moves up by one.
pub proof fn lemma_position_after_pop(queue: Seq<TaskId>, task: TaskId)
    requires
        queue.contains(task),
        queue[0] != task,
    ensures
        queue.drop_first().contains(task),
        position_of(queue.drop_first(), task) == position_of(queue, task) - 1,
{
    let k = choose|k: int| 0 <= k < queue.len() && queue[k] == task;
    assert(queue.drop_first()[k - 1] == task);
}

/// When another task leaves the queue, a waiting task keeps its place or moves up.
pub proof fn lemma_position_after_removal(queue: Seq<TaskId>, task: TaskId, other: TaskId)
    requires
        queue.no_duplicates(),
        queue.contains(task),
        other != task,
    ensures
        without(queue, other).contains(task),
        position_of(without(queue, other), task) <= position_of(queue, task),
{
    lemma_without(queue, other);
    lemma_position_of(queue, task);
    lemma_position_of(queue, other);
    let out = without(queue, other);
    lemma_position_of(out, task);
    if queue.contains(other) {
        let p = position_of(queue, task);
        let q = position_of(queue, other);
        queue.remove_ensures(q);
        if p < q {
            assert(out[p] == task);
        } else {
            assert(out[p - 1] == task);
        }
    }
}

impl WaiterQueue {
    #[verifier::type_invariant]
    spec fn inv(self) -> bool {
        &&& linked(self.nodes@, self.head, self.chain@)
        &&& linked(self.nodes@, self.free, self.spare@)
        &&& self.tail == if self.chain@.len() == 0 {
            None
        } else {
            Some(self.chain@.last())
        }
        &&& self.len == self.chain@.len()
        &&& self.chain@.len() + self.spare@.len() <= self.nodes@.len()
        &&& forall|i: int, j: int|
            0 <= i < self.chain@.len() && 0 <= j < self.spare@.len() ==> self.chain@[i]
                != self.spare@[j]
    }

    /// The waiting tasks, the one that has waited longest first.
    pub closed spec fn view(&self) -> Seq<TaskId> {
        tasks_of(self.nodes@, self.chain@)
    }

    /// No task waits twice.
    pub open spec fn wf(&self) -> bool {
        self@.no_duplicates()
    }

    /// An empty queue.
    pub fn new() -> (queue: Self)
        ensures
            queue@ == Seq::<TaskId>::empty(),
            queue.wf(),
    {
        let queue = WaiterQueue {
            nodes: Vec::new(),
            head: None,
            tail: None,
            free: None,
            len: 0,
            chain: Ghost(Seq::empty()),
            spare: Ghost(Seq::empty()),
        };
        assert(queue@ =~= Seq::<TaskId>::empty());
        queue
    }

    /// Number of waiting tasks.
    pub fn len(&self) -> (n: usize)
        ensures
            n == self@.len(),
    {
        proof {
            use_type_invariant(self);
        }
        self.len
    }

    /// Whether no task waits.
    pub fn is_empty(&self) -> (empty: bool)
        ensures
            empty == (self@.len() == 0),
    {
        proof {
            use_type_invariant(self);
        }
        self.len == 0
    }

    /// The task that is woken next, if any.
    pub fn front(&self) -> (head: Option<TaskId>)
        ensures
            head == if self@.len() == 0 {
                None
            } else {
                Some(self@[0])
            },
    {
        proof {
            use_type_invariant(self);
        }
        match self.head {
            None => None,
            Some(first) => {
                assert(self.chain@[0] == first);
                Some(self.nodes[first].task)
            },
        }
    }

    /// Position of `task` in the queue.
    pub fn position(&self, task: TaskId) -> (found: Option<usize>)
        ensures
            found is Some == self@.contains(task),
            found is Some ==> found->0 == position_of(self@, task),
    {
        proof {
            use_type_invariant(self);
        }
        let mut place = self.head;
        let mut k: usize = 0;
        while place.is_some()
            invariant
                linked(self.nodes@, self.head, self.chain@),
                self.len == self.chain@.len(),
                k <= self.chain@.len(),
                place == if k < self.chain@.len() {
                    Some(self.chain@[k as int])
                } else {
                    None
                },
                forall|j: int| 0 <= j < k ==> self@[j] != task,
            decreases self.chain@.len() - k,
        {
            let at = place.unwrap();
            assert(self.chain@[k as int] == at);
            if self.nodes[at].task == task {
                proof {
                    assert(self@[k as int] == task);
                    lemma_position_of(self@, task);
                }
                return Some(k);
            }
            place = self.nodes[at].next;
            k = k + 1;
        }
        proof {
            lemma_position_of(self@, task);
        }
        None
    }

    /// Whether `task` waits in the queue.
    pub fn contains(&self, task: TaskId) -> (found: bool)
        ensures
            found == self@.contains(task),
    {
        self.position(task).is_some()
    }

    /// Puts `task` behind every waiting task. A task that waits already keeps its
    /// place. Returns whether the task was added.
    pub fn push_back(&mut self, task: TaskId) -> (added: bool)
        requires
            old(self).wf(),
        ensures
            final(self).wf(),
            added == !old(self)@.contains(task),
            final(self)@ == if added {
                old(self)@.push(task)
            } else {
                old(self)@
            },
    {
        if self.contains(task) {
            return false;
        }
        let mut taken = WaiterQueue::new();
        std::mem::swap(self, &mut taken);
        proof {
            use_type_invariant(&taken);
        }
        let ghost before = taken.nodes@;
        let ghost old_view = taken@;
        let WaiterQueue { mut nodes, mut head, tail, mut free, len, chain, spare } = taken;
        let ghost mut left = spare@;
        let slot = match free {
            Some(first) => {
                assert(spare@[0] == first);
                proof {
                    lemma_linked_rest(before, free, spare@);
                    left = spare@.drop_first();
                }
                free = nodes[first].next;
                nodes.set(first, Node { task, next: None });
                proof {
                    vstd::std_specs::vec::axiom_spec_len(&nodes);
                }
                first
            },
            None => {
                nodes.push(Node { task, next: None });
                nodes.len() - 1
            },
        };
        assert(len < usize::MAX);
        let ghost middle = nodes@;
        proof {
            assert forall|j: int| 0 <= j < left.len() implies (#[trigger] left[j]) != slot
                && left[j] < before.len() by {
                if spare@.len() > 0 {
                    assert(left[j] == spare@[j + 1]);
                }
            }
            lemma_linked_frame(before, middle, head, chain@);
            lemma_linked_frame(before, middle, free, left);
        }
        match tail {
            Some(last) => {
                assert(chain@.last() == last);
                let last_task = nodes[last].task;
                nodes.set(last, Node { task: last_task, next: Some(slot) });
            },
            None => {
                head = Some(slot);
            },
        }
        let ghost grown = chain@.push(slot);
        proof {
            let after = nodes@;
            assert forall|j: int| 0 <= j < left.len() implies after[(#[trigger] left[j]) as int]
                == middle[left[j] as int] by {
                if spare@.len() > 0 {
                    assert(left[j] == spare@[j + 1]);
                }
            }
            lemma_linked_frame(middle, after, free, left);
            lemma_linked_push(middle, after, head, chain@, slot, task);
            assert forall|i: int, j: int| 0 <= i < grown.len() && 0 <= j < left.len() implies grown[i]
                != left[j] by {
                if i < chain@.len() {
                    assert(grown[i] == chain@[i]);
                    if spare@.len() > 0 {
                        assert(left[j] == spare@[j + 1]);
                    }
                }
            }
            lemma_push_fresh(old_view, task);
        }
        *self = WaiterQueue {
            nodes,
            head,
            tail: Some(slot),
            free,
            len: len + 1,
            chain: Ghost(grown),
            spare: Ghost(left),
        };
        true
    }

    /// Takes the task that has waited longest out of the queue.
    pub fn pop_front(&mut self) -> (head: Option<TaskId>)
        requires
            old(self).wf(),
        ensures
            final(self).wf(),
            head == if old(self)@.len() == 0 {
                None
            } else {
                Some(old(self)@[0])
            },
            final(self)@ == if old(self)@.len() == 0 {
                old(self)@
            } else {
                old(self)@.drop_first()
            },
    {
        proof {
            use_type_invariant(&*self);
        }
        if self.head.is_none() {
            return None;
        }
        let mut taken = WaiterQueue::new();
        std::mem::swap(self, &mut taken);
        proof {
            use_type_invariant(&taken);
        }
        let ghost before = taken.nodes@;
        let ghost old_view = taken@;
        let WaiterQueue { mut nodes, head, tail, free, len, chain, spare } = taken;
        let first = head.unwrap();
        assert(chain@[0] == first);
        let task = nodes[first].task;
        let next = nodes[first].next;
        nodes.set(first, Node { task, next: free });
        let ghost rest = chain@.drop_first();
        let ghost given = seq![first] + spare@;
        proof {
            lemma_linked_unlink(before, nodes@, head, chain@, 0);
            lemma_linked_cons(before, nodes@, free, spare@, first);
            assert(rest =~= chain@.remove(0));
            assert(old_view.drop_first() =~= old_view.remove(0));
            lemma_drop_first_keeps_no_duplicates(old_view);
            lemma_apart(chain@, spare@, 0);
            if rest.len() > 0 {
                assert(rest.last() == chain@.last());
            }
        }
        *self = WaiterQueue {
            nodes,
            head: next,
            tail: if next.is_none() {
                None
            } else {
                tail
            },
            free: Some(first),
            len: len - 1,
            chain: Ghost(rest),
            spare: Ghost(given),
        };
        Some(task)
    }

    /// Takes `task` out of the queue wherever it stands. Returns whether it waited.
    pub fn remove(&mut self, task: TaskId) -> (removed: bool)
        requires
            old(self).wf(),
        ensures
            final(self).wf(),
            removed == old(self)@.contains(task),
            final(self)@ == without(old(self)@, task),
    {
        proof {
            use_type_invariant(&*self);
        }
        // Finds the place of the task and the place before it.
        let mut before_place: Option<usize> = None;
        let mut place = self.head;
        let mut k: usize = 0;
        let mut found = false;
        while place.is_some() && !found
            invariant
                linked(self.nodes@, self.head, self.chain@),
                self.len == self.chain@.len(),
                k <= self.chain@.len(),
                place == if k < self.chain@.len() {
                    Some(self.chain@[k as int])
                } else {
                    None
                },
                before_place == if k == 0 {
                    None
                } else {
                    Some(self.chain@[k - 1])
                },
                forall|j: int| 0 <= j < k ==> self@[j] != task,
                found ==> k < self.chain@.len() && self@[k as int] == task,
            decreases self.chain@.len() - k + if found { 0int } else { 1int },
        {
            let at = place.unwrap();
            assert(self.chain@[k as int] == at);
            if self.nodes[at].task == task {
                assert(self@[k as int] == task);
                found = true;
            } else {
                before_place = place;
                place = self.nodes[at].next;
                k = k + 1;
            }
        }
        proof {
            lemma_position_of(self@, task);
        }
        if !found {
            return false;
        }
        let at = place.unwrap();
        let mut taken = WaiterQueue::new();
        std::mem::swap(self, &mut taken);
        proof {
            use_type_invariant(&taken);
        }
        let ghost before = taken.nodes@;
        let ghost old_view = taken@;
        let ghost old_head = taken.head;
        let WaiterQueue { mut nodes, mut head, mut tail, free, len, chain, spare } = taken;
        assert(chain@[k as int] == at);
        let next = nodes[at].next;
        match before_place {
            Some(previous) => {
                assert(chain@[k - 1] == previous);
                let previous_task = nodes[previous].task;
                nodes.set(previous, Node { task: previous_task, next });
            },
            None => {
                head = next;
            },
        }
        if next.is_none() {
            tail = before_place;
        }
        nodes.set(at, Node { task, next: free });
        let ghost rest = chain@.remove(k as int);
        let ghost given = seq![at] + spare@;
        proof {
            lemma_linked_unlink(before, nodes@, old_head, chain@, k as int);
            lemma_linked_cons(before, nodes@, free, spare@, at);
            lemma_apart(chain@, spare@, k as int);
            lemma_without(old_view, task);
            chain@.remove_ensures(k as int);
            if rest.len() > 0 {
                if k as int == chain@.len() - 1 {
                    assert(rest.last() == chain@[k - 1]);
                } else {
                    assert(rest.last() == chain@.last());
                }
            }
        }
        *self = WaiterQueue {
            nodes,
            head,
            tail,
            free: Some(at),
            len: len - 1,
            chain: Ghost(rest),
            spare: Ghost(given),
        };
        true
    }

    /// The waiting tasks in the order in which they wait. The queue keeps them.
    pub fn to_vec(&self) -> (all: Vec<TaskId>)
        ensures
            all@ == self@,
    {
        proof {
            use_type_invariant(self);
        }
        let mut all: Vec<TaskId> = Vec::new();
        let mut place = self.head;
        while place.is_some()
            invariant
                linked(self.nodes@, self.head, self.chain@),
                all@.len() <= self.chain@.len(),
                all@ == self@.take(all@.len() as int),
                place == if all@.len() < self.chain@.len() {
                    Some(self.chain@[all@.len() as int])
                } else {
                    None
                },
            decreases self.chain@.len() - all@.len(),
        {
            let at = place.unwrap();
            let ghost k = all@.len() as int;
            assert(self.chain@[k] == at);
            all.push(self.nodes[at].task);
            assert(self@.take(k).push(self@[k]) =~= self@.take(k + 1));
            place = self.nodes[at].next;
        }
        assert(self@.take(self@.len() as int) =~= self@);
        all
    }

    /// Puts `tasks`, none of which waits yet and none of which occurs twice,
    /// behind the waiting tasks, in their order.
    pub fn append(&mut self, tasks: &Vec<TaskId>)
        requires
            old(self).wf(),
            tasks@.no_duplicates(),
            forall|i: int| 0 <= i < tasks@.len() ==> !old(self)@.contains(#[trigger] tasks@[i]),
        ensures
            final(self).wf(),
            final(self)@ == old(self)@ + tasks@,
    {
        let mut i: usize = 0;
        assert(old(self)@ + tasks@.take(0) =~= old(self)@);
        while i < tasks.len()
            invariant
                i <= tasks@.len(),
                tasks@.no_duplicates(),
                forall|i: int| 0 <= i < tasks@.len() ==> !old(self)@.contains(#[trigger] tasks@[i]),
                self.wf(),
                self@ == old(self)@ + tasks@.take(i as int),
            decreases tasks@.len() - i,
        {
            let task = tasks[i];
            proof {
                let so_far = old(self)@ + tasks@.take(i as int);
                if so_far.contains(task) {
                    let k = choose|k: int| 0 <= k < so_far.len() && so_far[k] == task;
                    if k < old(self)@.len() {
                        assert(old(self)@[k] == task);
                    } else {
                        assert(tasks@[k - old(self)@.len()] == task);
                    }
                }
                assert(so_far.push(task) =~= old(self)@ + tasks@.take(i + 1));
            }
            self.push_back(task);
            i = i + 1;
        }
        proof {
            assert(tasks@.take(tasks@.len() as int) =~= tasks@);
        }
    }

    /// Empties the queue and returns the tasks in the order in which they waited.
    pub fn drain(&mut self) -> (all: Vec<TaskId>)
        ensures
            all@ == old(self)@,
            final(self)@ == Seq::<TaskId>::empty(),
            final(self).wf(),
    {
        let all = self.to_vec();
        let mut taken = WaiterQueue::new();
        std::mem::swap(self, &mut taken);
        proof {
            use_type_invariant(&taken);
        }
        let ghost before = taken.nodes@;
        let WaiterQueue { mut nodes, head, tail, free, len, chain, spare } = taken;
        match tail {
            None => {
                assert(chain@ =~= Seq::<usize>::empty());
                *self = WaiterQueue {
                    nodes,
                    head: None,
                    tail: None,
                    free,
                    len: 0,
                    chain: Ghost(Seq::empty()),
                    spare,
                };
            },
            Some(last) => {
                assert(chain@.last() == last);
                let last_task = nodes[last].task;
                nodes.set(last, Node { task: last_task, next: free });
                proof {
                    lemma_linked_concat(before, nodes@, head, chain@, free, spare@);
                }
                *self = WaiterQueue {
                    nodes,
                    head: None,
                    tail: None,
                    free: head,
                    len: 0,
                    chain: Ghost(Seq::empty()),
                    spare: Ghost(chain@ + spare@),
                };
            },
        }
        assert(self@ =~= Seq::<TaskId>::empty());
        all
    }
}

/// A list stays a list, with the same tasks, when the table changes in other
/// places only.
proof fn lemma_linked_frame(
    before: Seq<Node>,
    after: Seq<Node>,
    first: Option<usize>,
    chain: Seq<usize>,
)
    requires
        linked(before, first, chain),
        after.len() >= before.len(),
        forall|i: int|
            0 <= i < chain.len() ==> after[(#[trigger] chain[i]) as int] == before[chain[i] as int],
    ensures
        linked(after, first, chain),
        tasks_of(after, chain) == tasks_of(before, chain),
{
    assert forall|i: int| 0 <= i < chain.len() implies (#[trigger] after[chain[i] as int]).next
        == if i + 1 < chain.len() {
        Some(chain[i + 1])
    } else {
        None
    } by {
        assert(after[chain[i] as int] == before[chain[i] as int]);
    }
    assert(tasks_of(after, chain) =~= tasks_of(before, chain));
}

/// A task that does not wait yet can join a queue without duplicates.
proof fn lemma_push_fresh(queue: Seq<TaskId>, task: TaskId)
    requires
        queue.no_duplicates(),
        !queue.contains(task),
    ensures
        queue.push(task).no_duplicates(),
{
    let pushed = queue.push(task);
    assert forall|i: int, j: int|
        0 <= i < pushed.len() && 0 <= j < pushed.len() && i != j implies pushed[i] != pushed[j] by {
        if i < queue.len() && j < queue.len() {
            assert(pushed[i] == queue[i]);
            assert(pushed[j] == queue[j]);
        } else if i < queue.len() {
            assert(pushed[i] == queue[i]);
        } else {
            assert(pushed[j] == queue[j]);
        }
    }
}

/// A queue without duplicates has none without its first task.
proof fn lemma_drop_first_keeps_no_duplicates(queue: Seq<TaskId>)
    requires
        queue.no_duplicates(),
        queue.len() > 0,
    ensures
        queue.drop_first().no_duplicates(),
{
    let rest = queue.drop_first();
    assert forall|i: int, j: int|
        0 <= i < rest.len() && 0 <= j < rest.len() && i != j implies rest[i] != rest[j] by {
        assert(rest[i] == queue[i + 1]);
        assert(rest[j] == queue[j + 1]);
    }
}

/// What follows the first place of a list is a list, without that place.
proof fn lemma_linked_rest(nodes: Seq<Node>, first: Option<usize>, chain: Seq<usize>)
    requires
        linked(nodes, first, chain),
        chain.len() > 0,
    ensures
        linked(nodes, nodes[chain[0] as int].next, chain.drop_first()),
        forall|j: int| 0 <= j < chain.len() - 1 ==> (#[trigger] chain.drop_first()[j]) != chain[0],
{
    let rest = chain.drop_first();
    assert forall|i: int| 0 <= i < rest.len() implies (#[trigger] nodes[rest[i] as int]).next == if i
        + 1 < rest.len() {
        Some(rest[i + 1])
    } else {
        None
    } by {
        assert(rest[i] == chain[i + 1]);
    }
    assert forall|i: int, j: int|
        0 <= i < rest.len() && 0 <= j < rest.len() && i != j implies rest[i] != rest[j] by {
        assert(rest[i] == chain[i + 1]);
        assert(rest[j] == chain[j + 1]);
    }
    assert forall|i: int| 0 <= i < rest.len() implies (#[trigger] rest[i]) < nodes.len() by {
        assert(rest[i] == chain[i + 1]);
    }
    assert forall|j: int| 0 <= j < chain.len() - 1 implies (#[trigger] rest[j]) != chain[0] by {
        assert(rest[j] == chain[j + 1]);
    }
}

/// A place that is linked behind the last place of a list makes the list longer
/// by its task.
proof fn lemma_linked_push(
    before: Seq<Node>,
    after: Seq<Node>,
    first: Option<usize>,
    chain: Seq<usize>,
    slot: usize,
    task: TaskId,
)
    requires
        chain.len() == 0 ==> first == Some(slot),
        chain.len() > 0 ==> linked(before, first, chain),
        chain.no_duplicates(),
        forall|i: int| 0 <= i < chain.len() ==> (#[trigger] chain[i]) != slot && chain[i] < before.len(),
        after.len() == before.len(),
        slot < before.len(),
        before[slot as int] == (Node { task, next: None }),
        forall|p: int|
            0 <= p < before.len() && (chain.len() == 0 || p != chain.last()) ==> #[trigger] after[p]
                == before[p],
        chain.len() > 0 ==> after[chain.last() as int] == (Node {
            task: before[chain.last() as int].task,
            next: Some(slot),
        }),
    ensures
        linked(after, first, chain.push(slot)),
        tasks_of(after, chain.push(slot)) == tasks_of(before, chain).push(task),
{
    let grown = chain.push(slot);
    assert forall|i: int| 0 <= i < grown.len() implies (#[trigger] after[grown[i] as int]).next == if i
        + 1 < grown.len() {
        Some(grown[i + 1])
    } else {
        None
    } by {
        if i < chain.len() {
            assert(grown[i] == chain[i]);
            if i + 1 < chain.len() {
                assert(grown[i + 1] == chain[i + 1]);
                assert(chain[i] != chain.last());
                assert(after[chain[i] as int] == before[chain[i] as int]);
            }
        } else {
            assert(grown[i] == slot);
            assert(after[slot as int] == before[slot as int]);
        }
    }
    assert forall|i: int, j: int|
        0 <= i < grown.len() && 0 <= j < grown.len() && i != j implies grown[i] != grown[j] by {
        if i < chain.len() {
            assert(grown[i] == chain[i]);
        }
        if j < chain.len() {
            assert(grown[j] == chain[j]);
        }
    }
    assert forall|i: int| 0 <= i < grown.len() implies (#[trigger] grown[i]) < after.len() by {
        if i < chain.len() {
            assert(grown[i] == chain[i]);
        }
    }
    if chain.len() > 0 {
        assert(grown[0] == chain[0]);
    }
    assert(tasks_of(after, grown) =~= tasks_of(before, chain).push(task)) by {
        assert forall|k: int| 0 <= k < grown.len() implies tasks_of(after, grown)[k] == tasks_of(
            before,
            chain,
        ).push(task)[k] by {
            if k < chain.len() {
                assert(grown[k] == chain[k]);
                if chain[k] != chain.last() {
                    assert(after[chain[k] as int] == before[chain[k] as int]);
                }
            } else {
                assert(after[slot as int] == before[slot as int]);
            }
        }
    }
}

/// A place that is put in front of a list makes a list that begins with it.
proof fn lemma_linked_cons(
    before: Seq<Node>,
    after: Seq<Node>,
    first: Option<usize>,
    chain: Seq<usize>,
    slot: usize,
)
    requires
        linked(before, first, chain),
        after.len() == before.len(),
        slot < after.len(),
        after[slot as int].next == first,
        forall|i: int| 0 <= i < chain.len() ==> (#[trigger] chain[i]) != slot && after[chain[i] as int]
            == before[chain[i] as int],
    ensures
        linked(after, Some(slot), seq![slot] + chain),
{
    let grown = seq![slot] + chain;
    assert forall|i: int| 0 <= i < grown.len() implies (#[trigger] after[grown[i] as int]).next == if i
        + 1 < grown.len() {
        Some(grown[i + 1])
    } else {
        None
    } by {
        if i > 0 {
            assert(grown[i] == chain[i - 1]);
            if i + 1 < grown.len() {
                assert(grown[i + 1] == chain[i]);
            }
        } else if grown.len() > 1 {
            assert(grown[1] == chain[0]);
        }
    }
    assert forall|i: int, j: int|
        0 <= i < grown.len() && 0 <= j < grown.len() && i != j implies grown[i] != grown[j] by {
        if i > 0 {
            assert(grown[i] == chain[i - 1]);
        }
        if j > 0 {
            assert(grown[j] == chain[j - 1]);
        }
    }
    assert forall|i: int| 0 <= i < grown.len() implies (#[trigger] grown[i]) < after.len() by {
        if i > 0 {
            assert(grown[i] == chain[i - 1]);
        }
    }
}

/// A list without its place `k`, which the place before it now points past, is a
/// list of the other places, with their tasks in their order.
proof fn lemma_linked_unlink(
    before: Seq<Node>,
    after: Seq<Node>,
    first: Option<usize>,
    chain: Seq<usize>,
    k: int,
)
    requires
        linked(before, first, chain),
        0 <= k < chain.len(),
        after.len() == before.len(),
        forall|i: int|
            0 <= i < chain.len() && i != k && i != k - 1 ==> after[(#[trigger] chain[i]) as int]
                == before[chain[i] as int],
        k > 0 ==> after[chain[k - 1] as int] == (Node {
            task: before[chain[k - 1] as int].task,
            next: before[chain[k] as int].next,
        }),
    ensures
        linked(
            after,
            if k == 0 {
                before[chain[0] as int].next
            } else {
                first
            },
            chain.remove(k),
        ),
        tasks_of(after, chain.remove(k)) == tasks_of(before, chain).remove(k),
        forall|i: int| 0 <= i < chain.len() - 1 ==> (#[trigger] chain.remove(k)[i]) != chain[k],
{
    let rest = chain.remove(k);
    chain.remove_ensures(k);
    assert forall|i: int| 0 <= i < rest.len() implies (#[trigger] rest[i]) != chain[k] && rest[i]
        < after.len() by {
        if i < k {
            assert(rest[i] == chain[i]);
        } else {
            assert(rest[i] == chain[i + 1]);
        }
    }
    assert forall|i: int, j: int|
        0 <= i < rest.len() && 0 <= j < rest.len() && i != j implies rest[i] != rest[j] by {
        let a = if i < k {
            i
        } else {
            i + 1
        };
        let b = if j < k {
            j
        } else {
            j + 1
        };
        assert(rest[i] == chain[a]);
        assert(rest[j] == chain[b]);
    }
    assert forall|i: int| 0 <= i < rest.len() implies (#[trigger] after[rest[i] as int]).next == if i
        + 1 < rest.len() {
        Some(rest[i + 1])
    } else {
        None
    } by {
        if i < k - 1 {
            assert(rest[i] == chain[i]);
            assert(rest[i + 1] == chain[i + 1]);
        } else if i == k - 1 {
            assert(rest[i] == chain[k - 1]);
            if i + 1 < rest.len() {
                assert(rest[i + 1] == chain[k + 1]);
            }
        } else {
            assert(rest[i] == chain[i + 1]);
            if i + 1 < rest.len() {
                assert(rest[i + 1] == chain[i + 2]);
            }
        }
    }
    if rest.len() > 0 {
        if k == 0 {
            assert(rest[0] == chain[1]);
        } else {
            assert(rest[0] == chain[0]);
        }
    }
    let tasks = tasks_of(before, chain);
    tasks.remove_ensures(k);
    assert(tasks_of(after, rest) =~= tasks.remove(k)) by {
        assert forall|i: int| 0 <= i < rest.len() implies tasks_of(after, rest)[i] == tasks.remove(
            k,
        )[i] by {
            if i < k {
                assert(rest[i] == chain[i]);
            } else {
                assert(rest[i] == chain[i + 1]);
            }
        }
    }
}

/// A list whose last place is linked to the first place of another list makes,
/// with that list, one list.
proof fn lemma_linked_concat(
    before: Seq<Node>,
    after: Seq<Node>,
    first: Option<usize>,
    chain: Seq<usize>,
    second: Option<usize>,
    other: Seq<usize>,
)
    requires
        linked(before, first, chain),
        linked(before, second, other),
        chain.len() > 0,
        forall|i: int, j: int| 0 <= i < chain.len() && 0 <= j < other.len() ==> chain[i] != other[j],
        after.len() == before.len(),
        forall|p: int| 0 <= p < before.len() && p != chain.last() ==> #[trigger] after[p] == before[p],
        after[chain.last() as int].next == second,
    ensures
        linked(after, first, chain + other),
{
    let joined = chain + other;
    let n = chain.len();
    assert forall|i: int| 0 <= i < joined.len() implies (#[trigger] after[joined[i] as int]).next
        == if i + 1 < joined.len() {
        Some(joined[i + 1])
    } else {
        None
    } by {
        if i < n {
            assert(joined[i] == chain[i]);
            if i + 1 < n {
                assert(joined[i + 1] == chain[i + 1]);
                assert(chain[i] != chain.last());
            } else if other.len() > 0 {
                assert(joined[i + 1] == other[0]);
            }
        } else {
            assert(joined[i] == other[i - n]);
            assert(other[i - n] != chain.last());
            if i + 1 < joined.len() {
                assert(joined[i + 1] == other[i - n + 1]);
            }
        }
    }
    assert forall|i: int, j: int|
        0 <= i < joined.len() && 0 <= j < joined.len() && i != j implies joined[i] != joined[j] by {
        if i < n {
            assert(joined[i] == chain[i]);
        } else {
            assert(joined[i] == other[i - n]);
        }
        if j < n {
            assert(joined[j] == chain[j]);
        } else {
            assert(joined[j] == other[j - n]);
        }
    }
    assert forall|i: int| 0 <= i < joined.len() implies (#[trigger] joined[i]) < after.len() by {
        if i < n {
            assert(joined[i] == chain[i]);
        } else {
            assert(joined[i] == other[i - n]);
        }
    }
    assert(joined[0] == chain[0]);
}

/// Where two lists share no place, the one without its place `k` shares none
/// with the other that has taken that place.
proof fn lemma_apart(chain: Seq<usize>, spare: Seq<usize>, k: int)
    requires
        chain.no_duplicates(),
        0 <= k < chain.len(),
        forall|i: int, j: int| 0 <= i < chain.len() && 0 <= j < spare.len() ==> chain[i] != spare[j],
    ensures
        forall|i: int, j: int|
            0 <= i < chain.len() - 1 && 0 <= j < spare.len() + 1 ==> chain.remove(k)[i] != (seq![
                chain[k],
            ] + spare)[j],
{
    let rest = chain.remove(k);
    let given = seq![chain[k]] + spare;
    chain.remove_ensures(k);
    assert forall|i: int, j: int| 0 <= i < rest.len() && 0 <= j < given.len() implies rest[i]
        != given[j] by {
        let a = if i < k {
            i
        } else {
            i + 1
        };
        assert(rest[i] == chain[a]);
        if j > 0 {
            assert(given[j] == spare[j - 1]);
        }
    }
}

} // verus!
