//! The executor's scheduling decisions: which task to poll next, what to do
//! with a task after its poll, and when the CPU may halt.
use std::collections::{HashSet, VecDeque};
use vstd::prelude::*;

verus! {

broadcast use vstd::std_specs::hash::group_hash_axioms;

/// What the executor asks of its caller.
#[derive(Clone, Copy, Debug, PartialEq, Eq)]
pub enum ExecAction {
    /// Poll the task with this id.
    Poll(u64),
    /// Nothing is scheduled: the caller may halt until the next interrupt.
    Idle,
}

/// The abstract state of the executor.
pub ghost struct ExecutorModel {
    /// Ids of the spawned tasks that have not completed.
    pub tasks: Set<u64>,
    /// Ids scheduled to be polled, in order.
    pub ready: Seq<u64>,
    /// Ids woken since the ready queue was last refilled, in order.
    pub woken: Seq<u64>,
    /// The id the next spawned task gets.
    pub next_id: u64,
}

/// The first id of `queue` that belongs to a live task, with what is left
/// of the queue behind it; ids of completed tasks on the way are dropped.
pub open spec fn pick(tasks: Set<u64>, queue: Seq<u64>) -> (Seq<u64>, Option<u64>)
    decreases queue.len(),
{
    if queue.len() == 0 {
        (queue, None)
    } else if tasks.contains(queue[0]) {
        (queue.drop_first(), Some(queue[0]))
    } else {
        pick(tasks, queue.drop_first())
    }
}

impl ExecutorModel {
    /// Every live task has an id below the counter.
    pub open spec fn wf(self) -> bool {
        &&& self.tasks.finite()
        &&& forall|id: u64| #[trigger] self.tasks.contains(id) ==> id < self.next_id
    }

    /// The state after the ready queue is refilled and the next task chosen.
    pub open spec fn after_next(self) -> ExecutorModel {
        ExecutorModel { ready: pick(self.tasks, self.ready + self.woken).0, woken: Seq::empty(), ..self }
    }

    /// What the executor asks for after refilling and choosing.
    pub open spec fn next_action(self) -> ExecAction {
        match pick(self.tasks, self.ready + self.woken).1 {
            Some(id) => ExecAction::Poll(id),
            None => ExecAction::Idle,
        }
    }

    /// The state after task `id` is woken.
    pub open spec fn after_wake(self, id: u64) -> ExecutorModel {
        ExecutorModel { woken: self.woken.push(id), ..self }
    }

    /// Nothing is scheduled and nothing was woken.
    pub open spec fn idle(self) -> bool {
        self.ready.len() == 0 && self.woken.len() == 0
    }
}

/// Schedules tasks by id: a ready queue of ids to poll and a queue of ids
/// woken since the ready queue was last refilled.
pub struct Executor {
    tasks: HashSet<u64>,
    ready: VecDeque<u64>,
    woken: VecDeque<u64>,
    next_id: u64,
}

impl View for Executor {
    type V = ExecutorModel;

    closed spec fn view(&self) -> ExecutorModel {
        ExecutorModel {
            tasks: self.tasks@,
            ready: self.ready@,
            woken: self.woken@,
            next_id: self.next_id,
        }
    }
}

impl Executor {
    /// An executor with no tasks; the first task gets id 0.
    pub fn new() -> (r: Executor)
        ensures
            r@ == (ExecutorModel {
                tasks: Set::empty(),
                ready: Seq::empty(),
                woken: Seq::empty(),
                next_id: 0,
            }),
            r@.wf(),
    {
        Executor { tasks: HashSet::new(), ready: VecDeque::new(), woken: VecDeque::new(), next_id: 0 }
    }

    /// Registers a new task: it gets the next id, which is never given again,
    /// and is scheduled to be polled.
    pub fn spawn(&mut self) -> (id: u64)
        requires
            old(self)@.wf(),
            old(self)@.next_id < u64::MAX,
        ensures
            id == old(self)@.next_id,
            !old(self)@.tasks.contains(id),
            final(self)@ == (ExecutorModel {
                tasks: old(self)@.tasks.insert(id),
                ready: old(self)@.ready.push(id),
                next_id: (id + 1) as u64,
                ..old(self)@
            }),
            final(self)@.wf(),
    {
        let id = self.next_id;
        self.tasks.insert(id);
        self.ready.push_back(id);
        self.next_id = id + 1;
        id
    }

    /// The id the next spawned task gets.
    pub fn next_id(&self) -> (r: u64)
        ensures
            r == self@.next_id,
    {
        self.next_id
    }

    /// Task `id` was woken: it is polled again once the ready queue reaches it.
    pub fn wake(&mut self, id: u64)
        ensures
            final(self)@ == old(self)@.after_wake(id),
    {
        self.woken.push_back(id);
    }

    /// Moves the woken ids to the ready queue and chooses the next task to
    /// poll; ids of tasks that have completed are dropped on the way.
    pub fn next_action(&mut self) -> (r: ExecAction)
        requires
            old(self)@.wf(),
        ensures
            final(self)@ == old(self)@.after_next(),
            r == old(self)@.next_action(),
            final(self)@.wf(),
    {
        let ghost all = old(self)@.ready + old(self)@.woken;
        while self.woken.len() > 0
            invariant
                self@.ready + self@.woken == all,
                self@.tasks == old(self)@.tasks,
                self@.next_id == old(self)@.next_id,
                all == old(self)@.ready + old(self)@.woken,
                old(self)@.wf(),
            decreases self@.woken.len(),
        {
            let ghost before = self@;
            match self.woken.pop_front() {
                Some(id) => {
                    self.ready.push_back(id);
                    assert(self@.ready + self@.woken =~= before.ready + before.woken);
                },
                None => {},
            }
        }
        assert(self@.ready =~= all);
        while self.ready.len() > 0
            invariant
                pick(self@.tasks, self@.ready) == pick(old(self)@.tasks, all),
                self@.woken.len() == 0,
                self@.tasks == old(self)@.tasks,
                self@.next_id == old(self)@.next_id,
                all == old(self)@.ready + old(self)@.woken,
                old(self)@.wf(),
            decreases self@.ready.len(),
        {
            let ghost before = self@.ready;
            match self.ready.pop_front() {
                Some(id) => {
                    assert(self@.ready =~= before.drop_first());
                    if self.tasks.contains(&id) {
                        assert(id == before[0]);
                        assert(pick(self@.tasks, before) == (before.drop_first(), Some(id)));
                        assert(self@.woken =~= Seq::empty());
                        return ExecAction::Poll(id);
                    }
                },
                None => {},
            }
        }
        assert(self@.woken =~= Seq::empty());
        ExecAction::Idle
    }

    /// Records the outcome of polling task `id`: a completed task is removed,
    /// a pending one stays until a wake schedules it again.
    pub fn finish_poll(&mut self, id: u64, completed: bool)
        requires
            old(self)@.wf(),
        ensures
            final(self)@.wf(),
            completed ==> final(self)@ == (ExecutorModel { tasks: old(self)@.tasks.remove(id), ..old(self)@ }),
            !completed ==> final(self)@ == old(self)@,
    {
        if completed {
            self.tasks.remove(&id);
        }
    }

    /// Whether nothing is scheduled and nothing was woken: the check made
    /// with interrupts disabled before halting the CPU.
    pub fn is_idle(&self) -> (r: bool)
        ensures
            r == self@.idle(),
    {
        self.ready.len() == 0 && self.woken.len() == 0
    }
}

/// An idle executor asks to halt; a wake of a live task then makes it poll
/// exactly that task once, after which it is idle again.
pub proof fn lemma_wake_resumes_once(m: ExecutorModel, id: u64)
    requires
        m.wf(),
        m.idle(),
        m.tasks.contains(id),
    ensures
        m.next_action() == ExecAction::Idle,
        !m.after_wake(id).idle(),
        m.after_wake(id).next_action() == ExecAction::Poll(id),
        m.after_wake(id).after_next().idle(),
{
    assert(m.ready + m.woken =~= Seq::<u64>::empty());
    let w = m.after_wake(id);
    assert(w.ready + w.woken =~= seq![id]);
    assert(seq![id].drop_first() =~= Seq::<u64>::empty());
}

} // verus!
