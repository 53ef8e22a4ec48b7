//! A busy-polling executor for bring-up: every pending task goes to the back
//! of the queue and is polled again.
use std::collections::VecDeque;
use vstd::prelude::*;

verus! {

/// A first-in first-out queue of tasks. The caller pops a task, polls it,
/// and hands it back while it is still pending.
pub struct SimpleExecutor<T> {
    task_queue: VecDeque<T>,
}

impl<T> View for SimpleExecutor<T> {
    type V = Seq<T>;

    closed spec fn view(&self) -> Seq<T> {
        self.task_queue@
    }
}

impl<T> SimpleExecutor<T> {
    /// An executor with no tasks.
    pub fn new() -> (r: SimpleExecutor<T>)
        ensures
            r@ == Seq::<T>::empty(),
    {
        SimpleExecutor { task_queue: VecDeque::new() }
    }

    /// Queues `task` behind every task already queued.
    pub fn spawn(&mut self, task: T)
        ensures
            final(self)@ == old(self)@.push(task),
    {
        self.task_queue.push_back(task)
    }

    /// Takes the task at the front of the queue, `None` when every task has
    /// completed.
    pub fn next_task(&mut self) -> (r: Option<T>)
        ensures
            old(self)@.len() == 0 ==> r is None && final(self)@ == old(self)@,
            old(self)@.len() > 0 ==> r == Some(old(self)@[0]) && final(self)@ == old(self)@.drop_first(),
    {
        let r = self.task_queue.pop_front();
        proof {
            if old(self)@.len() > 0 {
                assert(self@ =~= old(self)@.drop_first());
            }
        }
        r
    }

    /// Hands back a polled task: a pending one goes to the back of the queue,
    /// a completed one is dropped.
    pub fn finish_poll(&mut self, task: T, completed: bool)
        ensures
            completed ==> final(self)@ == old(self)@,
            !completed ==> final(self)@ == old(self)@.push(task),
    {
        if !completed {
            self.task_queue.push_back(task);
        }
    }

    /// Whether no task is left.
    pub fn is_empty(&self) -> (r: bool)
        ensures
            r == (self@.len() == 0),
    {
        self.task_queue.len() == 0
    }
}

} // verus!
