//! The task queue shared between a producer and a worker that parks when
//! there is nothing to do: the worker's decision at each wake-up.

use vstd::prelude::*;

verus! {

/// What the worker does after looking at the queue.
#[derive(Debug, PartialEq, Eq)]
pub enum WorkerAction {
    /// Execute the carried task, now removed from the queue.
    Run(String),
    /// Nothing is queued: park until woken.
    Park,
}

/// Pending tasks; the most recently submitted one is taken first.
pub struct TaskQueue {
    tasks: Vec<String>,
}

impl View for TaskQueue {
    type V = Seq<String>;

    /// The pending tasks, oldest first.
    closed spec fn view(&self) -> Seq<String> {
        self.tasks@
    }
}

/// The action a worker takes on a queue holding `q`.
pub open spec fn next_action(q: Seq<String>) -> WorkerAction {
    if q.len() == 0 {
        WorkerAction::Park
    } else {
        WorkerAction::Run(q.last())
    }
}

/// The queue left behind after a worker has looked at `q`.
pub open spec fn after_step(q: Seq<String>) -> Seq<String> {
    if q.len() == 0 {
        q
    } else {
        q.drop_last()
    }
}

impl TaskQueue {
    /// An empty queue.
    pub fn new() -> (queue: Self)
        ensures
            queue@ == Seq::<String>::empty(),
    {
        TaskQueue { tasks: Vec::new() }
    }

    /// Adds a task to the queue.
    pub fn submit(&mut self, task: String)
        ensures
            final(self)@ == old(self)@.push(task),
    {
        self.tasks.push(task);
    }

    /// The number of pending tasks.
    pub fn len(&self) -> (n: usize)
        ensures
            n == self@.len(),
    {
        self.tasks.len()
    }

    /// One wake-up of the worker: take the most recent task to run it, or park
    /// when the queue is empty.
    pub fn worker_step(&mut self) -> (action: WorkerAction)
        ensures
            action == next_action(old(self)@),
            final(self)@ == after_step(old(self)@),
    {
        match self.tasks.pop() {
            Some(task) => WorkerAction::Run(task),
            None => WorkerAction::Park,
        }
    }
}

/// A task submitted to a queue is the one the worker takes at its next
/// wake-up, and taking it leaves the queue as it was before the submission.
pub proof fn lemma_submit_then_step(q: Seq<String>, task: String)
    ensures
        next_action(q.push(task)) == WorkerAction::Run(task),
        after_step(q.push(task)) == q,
{
    assert(q.push(task).drop_last() =~= q);
}

/// A worker that finds the queue empty parks and leaves the queue empty.
pub proof fn lemma_empty_parks(q: Seq<String>)
    requires
        q.len() == 0,
    ensures
        next_action(q) == WorkerAction::Park,
        after_step(q) == q,
{
}

/// A worker's wake-up never adds a task: it removes exactly one when there
/// is one, and none otherwise.
pub proof fn lemma_step_shrinks(q: Seq<String>)
    ensures
        q.len() > 0 ==> after_step(q).len() == q.len() - 1,
        q.len() == 0 ==> after_step(q).len() == 0,
        after_step(q).is_prefix_of(q),
{
    if q.len() > 0 {
        assert(q.drop_last() =~= q.subrange(0, q.len() - 1));
    }
}

} // verus!
