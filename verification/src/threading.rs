//! The scheduling rules of the worker pool: one first-in first-out queue for
//! each worker, submission in round-robin order, and idle workers that steal
//! from the tail of another queue.
//!
//! The pool here is the state that the rules work on. Whoever runs the
//! workers holds it behind a lock and performs what each step asks for.

use vstd::prelude::*;
use std::collections::VecDeque;
use crate::api::Command;
use crate::cache::Sodium;
use crate::protocol::{execute_task, runs, task_result, Outcome, TaskError};

verus! {

/// The longest that an idle worker sleeps, in milliseconds.
pub const MAX_SLEEP_MILLIS: u32 = 50;

/// A request on its way to a worker: the command, and the channel on which
/// its result goes back.
pub struct Task<R> {
    /// What to do.
    pub command: Command,
    /// Where the result goes.
    pub sender: R,
}

/// The mathematical form of a queue.
pub struct QueueView<T> {
    /// The waiting tasks, the oldest first.
    pub tasks: Seq<T>,
    /// Whether the queue refuses new tasks.
    pub is_shutdown: bool,
}

/// The queue of one worker.
pub struct WorkQueue<T> {
    queue: VecDeque<T>,
    is_shutdown: bool,
}

impl<T> View for WorkQueue<T> {
    type V = QueueView<T>;

    closed spec fn view(&self) -> QueueView<T> {
        QueueView { tasks: self.queue@, is_shutdown: self.is_shutdown }
    }
}

impl<T> WorkQueue<T> {
    /// An empty queue that takes tasks.
    pub fn new() -> (q: WorkQueue<T>)
        ensures
            q@.tasks == Seq::<T>::empty(),
            !q@.is_shutdown,
    {
        WorkQueue { queue: VecDeque::new(), is_shutdown: false }
    }

    /// Appends a task, unless the queue is shut down.
    pub fn push(&mut self, task: T) -> (accepted: bool)
        ensures
            accepted == !old(self)@.is_shutdown,
            final(self)@.is_shutdown == old(self)@.is_shutdown,
            final(self)@.tasks == if accepted {
                old(self)@.tasks.push(task)
            } else {
                old(self)@.tasks
            },
    {
        if self.is_shutdown {
            return false;
        }
        self.queue.push_back(task);
        true
    }

    /// Takes the oldest task.
    pub fn pop(&mut self) -> (task: Option<T>)
        ensures
            final(self)@.is_shutdown == old(self)@.is_shutdown,
            match task {
                Some(t) => old(self)@.tasks.len() > 0 && t == old(self)@.tasks.first()
                    && final(self)@.tasks == old(self)@.tasks.drop_first(),
                None => old(self)@.tasks.len() == 0 && final(self)@.tasks == old(self)@.tasks,
            },
    {
        self.queue.pop_front()
    }

    /// Takes the newest task.
    pub fn steal(&mut self) -> (task: Option<T>)
        ensures
            final(self)@.is_shutdown == old(self)@.is_shutdown,
            match task {
                Some(t) => old(self)@.tasks.len() > 0 && t == old(self)@.tasks.last()
                    && final(self)@.tasks == old(self)@.tasks.drop_last(),
                None => old(self)@.tasks.len() == 0 && final(self)@.tasks == old(self)@.tasks,
            },
    {
        self.queue.pop_back()
    }

    /// Makes the queue refuse new tasks. The waiting tasks stay.
    pub fn shutdown(&mut self)
        ensures
            final(self)@.is_shutdown,
            final(self)@.tasks == old(self)@.tasks,
    {
        self.is_shutdown = true;
    }

    /// How many tasks wait.
    pub fn len(&self) -> (n: usize)
        ensures
            n == self@.tasks.len(),
    {
        self.queue.len()
    }
}

/// The queue that a submission goes to: the submissions go round the queues
/// in order.
pub open spec fn queue_index(counter: usize, queues: nat) -> int
    recommends
        queues > 0,
{
    counter as int % queues as int
}

/// The counter of submissions after one more: one higher, from zero again
/// after the largest.
pub open spec fn next_counter(counter: usize) -> usize {
    if counter == usize::MAX {
        0
    } else {
        (counter + 1) as usize
    }
}

/// How long a worker sleeps that has found no work `idle_count` times in a
/// row: one millisecond for each time, up to the longest sleep.
pub open spec fn sleep_millis(idle_count: u32) -> u64 {
    if idle_count < MAX_SLEEP_MILLIS {
        idle_count as u64
    } else {
        MAX_SLEEP_MILLIS as u64
    }
}

/// The count of steps without work after one more; it stays at the largest
/// once it is there.
pub open spec fn next_idle_count(idle_count: u32) -> u32 {
    if idle_count == u32::MAX {
        u32::MAX
    } else {
        (idle_count + 1) as u32
    }
}

/// The first queue at or after `i`, other than the worker's own, that holds
/// a task; the number of queues when there is none.
pub open spec fn victim<T>(queues: Seq<QueueView<T>>, worker: int, i: int) -> int
    decreases queues.len() - i,
{
    if i < 0 || i >= queues.len() {
        queues.len() as int
    } else if i != worker && queues[i].tasks.len() > 0 {
        i
    } else {
        victim(queues, worker, i + 1)
    }
}

/// The mathematical form of the pool.
pub struct PoolView<T> {
    /// The queues, one for each worker.
    pub queues: Seq<QueueView<T>>,
    /// How many tasks were submitted, up to wrapping.
    pub next_queue: usize,
    /// Whether the pool is shut down.
    pub shutdown: bool,
}

impl<T> PoolView<T> {
    /// Whether the pool takes tasks: it has a queue at least, it is not
    /// shut down, and none of its queues is.
    pub open spec fn running(self) -> bool {
        &&& self.queues.len() > 0
        &&& !self.shutdown
        &&& forall|i: int| 0 <= i < self.queues.len() ==> !(#[trigger] self.queues[i]).is_shutdown
    }

    /// Whether a submission reaches a queue: the pool is not shut down and
    /// has a queue at least.
    pub open spec fn routes(self) -> bool {
        !self.shutdown && self.queues.len() > 0
    }

    /// Whether the pool accepts a submission: the submission reaches a queue
    /// and that queue takes tasks.
    pub open spec fn accepts(self) -> bool {
        self.routes() && !self.queues[queue_index(
            self.next_queue,
            self.queues.len(),
        )].is_shutdown
    }

    /// The pool with the tasks of queue `i` replaced.
    pub open spec fn with_tasks(self, i: int, tasks: Seq<T>) -> PoolView<T> {
        PoolView {
            queues: self.queues.update(
                i,
                QueueView { tasks, is_shutdown: self.queues[i].is_shutdown },
            ),
            ..self
        }
    }

    /// The pool after `task` was submitted to it. A submission that reaches
    /// a queue counts, and its task joins the tail of that queue if the
    /// queue takes tasks.
    pub open spec fn submitted(self, task: T) -> PoolView<T> {
        let i = queue_index(self.next_queue, self.queues.len());
        if !self.routes() {
            self
        } else if self.queues[i].is_shutdown {
            PoolView { next_queue: next_counter(self.next_queue), ..self }
        } else {
            PoolView {
                next_queue: next_counter(self.next_queue),
                ..self.with_tasks(i, self.queues[i].tasks.push(task))
            }
        }
    }

    /// The task that `worker` takes next: the oldest of its own queue, or
    /// else the newest of the first other queue that holds one.
    pub open spec fn next_task(self, worker: int) -> Option<T> {
        let from = victim(self.queues, worker, 0);
        if self.queues[worker].tasks.len() > 0 {
            Some(self.queues[worker].tasks.first())
        } else if from < self.queues.len() {
            Some(self.queues[from].tasks.last())
        } else {
            None
        }
    }

    /// The pool after `worker` took its next task.
    pub open spec fn taken(self, worker: int) -> PoolView<T> {
        let from = victim(self.queues, worker, 0);
        if self.queues[worker].tasks.len() > 0 {
            self.with_tasks(worker, self.queues[worker].tasks.drop_first())
        } else if from < self.queues.len() {
            self.with_tasks(from, self.queues[from].tasks.drop_last())
        } else {
            self
        }
    }

    /// The pool after it was shut down: every queue refuses new tasks and
    /// keeps the tasks that wait.
    pub open spec fn stopped(self) -> PoolView<T> {
        PoolView {
            queues: Seq::new(
                self.queues.len(),
                |i: int| QueueView { tasks: self.queues[i].tasks, is_shutdown: true },
            ),
            shutdown: true,
            ..self
        }
    }

    /// Whether `worker` is done: the pool is shut down and the worker's own
    /// queue is empty.
    pub open spec fn finished(self, worker: int) -> bool {
        self.shutdown && self.queues[worker].tasks.len() == 0
    }
}

/// A pool that takes tasks accepts every submission and goes on taking
/// tasks; the task waits at the tail of the queue whose turn it was, and
/// the other queues are as they were.
pub proof fn law_running_pool_accepts<T>(pool: PoolView<T>, task: T)
    requires
        pool.running(),
    ensures
        pool.accepts(),
        pool.submitted(task).running(),
        ({
            let turn = queue_index(pool.next_queue, pool.queues.len());
            &&& 0 <= turn < pool.queues.len()
            &&& pool.submitted(task).queues[turn].tasks == pool.queues[turn].tasks.push(task)
            &&& forall|i: int|
                0 <= i < pool.queues.len() && i != turn ==> pool.submitted(task).queues[i]
                    == pool.queues[i]
        }),
{
    let turn = queue_index(pool.next_queue, pool.queues.len());
    assert(0 <= turn < pool.queues.len());
    assert(!pool.queues[turn].is_shutdown);
}

/// A task that waits in a worker's own queue is taken by that worker before
/// any task that was submitted to the queue after it.
pub proof fn law_own_queue_is_first_in_first_out<T>(pool: PoolView<T>, worker: int)
    requires
        0 <= worker < pool.queues.len(),
        pool.queues[worker].tasks.len() > 0,
    ensures
        pool.next_task(worker) == Some(pool.queues[worker].tasks.first()),
        pool.taken(worker).queues[worker].tasks == pool.queues[worker].tasks.drop_first(),
{
}

/// What a worker does next.
pub enum WorkerAction<T> {
    /// The worker carries out the task it was handed.
    Run(T),
    /// The worker sleeps for so many milliseconds.
    Sleep(u64),
    /// The worker stops.
    Exit,
}

/// The views of the queues of a pool.
pub open spec fn queue_views<T>(queues: Seq<WorkQueue<T>>) -> Seq<QueueView<T>> {
    Seq::new(queues.len(), |i: int| queues[i]@)
}

/// The pool: the queues of the workers and the state of submission.
pub struct ThreadPool<T> {
    queues: Vec<WorkQueue<T>>,
    next_queue: usize,
    shutdown: bool,
}

impl<T> View for ThreadPool<T> {
    type V = PoolView<T>;

    closed spec fn view(&self) -> PoolView<T> {
        PoolView {
            queues: queue_views(self.queues@),
            next_queue: self.next_queue,
            shutdown: self.shutdown,
        }
    }
}

/// The time that an idle worker sleeps.
pub fn idle_sleep_millis(idle_count: u32) -> (millis: u64)
    ensures
        millis == sleep_millis(idle_count),
{
    if idle_count < MAX_SLEEP_MILLIS {
        idle_count as u64
    } else {
        MAX_SLEEP_MILLIS as u64
    }
}

impl<T> ThreadPool<T> {
    /// A pool of `num_threads` empty queues that takes tasks.
    pub fn new(num_threads: usize) -> (pool: ThreadPool<T>)
        ensures
            num_threads > 0 ==> pool@.running(),
            pool@.queues.len() == num_threads,
            forall|i: int|
                0 <= i < num_threads ==> (#[trigger] pool@.queues[i]).tasks.len() == 0
                    && !pool@.queues[i].is_shutdown,
            pool@.next_queue == 0,
            !pool@.shutdown,
    {
        let mut queues: Vec<WorkQueue<T>> = Vec::new();
        let mut i: usize = 0;
        while i < num_threads
            invariant
                i <= num_threads,
                queues@.len() == i,
                forall|j: int|
                    0 <= j < i ==> (#[trigger] queues@[j])@.tasks.len() == 0
                        && !queues@[j]@.is_shutdown,
            decreases num_threads - i,
        {
            queues.push(WorkQueue::new());
            i += 1;
        }
        ThreadPool { queues, next_queue: 0, shutdown: false }
    }

    /// How many queues, and so how many workers, the pool has.
    pub fn num_threads(&self) -> (n: usize)
        ensures
            n == self@.queues.len(),
    {
        self.queues.len()
    }

    /// Whether the pool is shut down.
    pub fn is_shutdown(&self) -> (b: bool)
        ensures
            b == self@.shutdown,
    {
        self.shutdown
    }

    /// Submits a task: it goes to the tail of the next queue in round-robin
    /// order. A pool that is shut down refuses it.
    pub fn execute(&mut self, task: T) -> (accepted: bool)
        ensures
            accepted == old(self)@.accepts(),
            final(self)@ == old(self)@.submitted(task),
    {
        if self.shutdown || self.queues.len() == 0 {
            return false;
        }
        let queue_index = self.next_queue % self.queues.len();
        self.next_queue = if self.next_queue == usize::MAX {
            0
        } else {
            self.next_queue + 1
        };
        assert(self.queues@[queue_index as int]@ == old(self)@.queues[queue_index as int]);
        let accepted = self.queues[queue_index].push(task);
        proof {
            assert(self@.queues =~= old(self)@.submitted(task).queues);
        }
        accepted
    }

    /// Takes the next task for `worker_id`: the oldest of its own queue, or
    /// else the newest of the first other queue that holds one.
    pub fn next_task(&mut self, worker_id: usize) -> (task: Option<T>)
        requires
            worker_id < old(self)@.queues.len(),
        ensures
            task == old(self)@.next_task(worker_id as int),
            final(self)@ == old(self)@.taken(worker_id as int),
    {
        if let Some(task) = self.queues[worker_id].pop() {
            proof {
                assert(self@.queues =~= old(self)@.taken(worker_id as int).queues);
            }
            return Some(task);
        }
        assert(self@.queues =~= old(self)@.queues);
        let n = self.queues.len();
        let mut i: usize = 0;
        while i < n
            invariant
                i <= n == self.queues@.len(),
                worker_id < n,
                self@ == old(self)@,
                self@.queues[worker_id as int].tasks.len() == 0,
                victim(self@.queues, worker_id as int, 0) == victim(
                    self@.queues,
                    worker_id as int,
                    i as int,
                ),
            decreases n - i,
        {
            if i != worker_id {
                let ghost before = self@;
                if let Some(task) = self.queues[i].steal() {
                    proof {
                        assert(self@.queues =~= old(self)@.taken(worker_id as int).queues);
                    }
                    return Some(task);
                }
                assert(self@.queues =~= before.queues);
            }
            i += 1;
        }
        None
    }

    /// Shuts the pool down: it refuses new tasks from now on. The tasks that
    /// wait stay in their queues.
    pub fn shutdown(&mut self)
        ensures
            final(self)@ == old(self)@.stopped(),
    {
        self.shutdown = true;
        let n = self.queues.len();
        let mut i: usize = 0;
        while i < n
            invariant
                i <= n == self.queues@.len(),
                n == old(self)@.queues.len(),
                self.shutdown,
                self.next_queue == old(self).next_queue,
                forall|j: int|
                    0 <= j < n ==> (#[trigger] self.queues@[j])@.tasks == old(
                        self,
                    ).queues@[j]@.tasks,
                forall|j: int| 0 <= j < i ==> (#[trigger] self.queues@[j])@.is_shutdown,
            decreases n - i,
        {
            let ghost before = self.queues@;
            self.queues[i].shutdown();
            proof {
                assert forall|j: int| 0 <= j < n implies (#[trigger] self.queues@[j])@.tasks
                    == old(self).queues@[j]@.tasks by {
                    if j != i {
                        assert(self.queues@[j] == before[j]);
                    }
                }
                assert forall|j: int| 0 <= j < i + 1 implies (
                #[trigger] self.queues@[j])@.is_shutdown by {
                    if j != i {
                        assert(self.queues@[j] == before[j]);
                    }
                }
            }
            i += 1;
        }
        proof {
            assert(self@.queues =~= old(self)@.stopped().queues);
        }
    }

    /// Decides what `worker_id` does next, after `idle_count` steps in a row
    /// without work: stop when the pool is shut down and its own queue is
    /// empty, else run the next task, else sleep. The second part of the
    /// result is the new count of steps without work.
    pub fn worker_step(&mut self, worker_id: usize, idle_count: u32) -> (r: (WorkerAction<T>, u32))
        requires
            worker_id < old(self)@.queues.len(),
        ensures
            old(self)@.finished(worker_id as int) ==> {
                &&& r.0 is Exit
                &&& r.1 == idle_count
                &&& final(self)@ == old(self)@
            },
            !old(self)@.finished(worker_id as int) ==> {
                &&& final(self)@ == old(self)@.taken(worker_id as int)
                &&& match old(self)@.next_task(worker_id as int) {
                    Some(task) => r.0 == WorkerAction::Run(task) && r.1 == 0,
                    None => {
                        &&& r.1 == next_idle_count(idle_count)
                        &&& r.0 == WorkerAction::<T>::Sleep(sleep_millis(r.1))
                    },
                }
            },
    {
        if self.shutdown && self.queues[worker_id].len() == 0 {
            return (WorkerAction::Exit, idle_count);
        }
        match self.next_task(worker_id) {
            Some(task) => (WorkerAction::Run(task), 0),
            None => {
                let idle = if idle_count == u32::MAX {
                    u32::MAX
                } else {
                    idle_count + 1
                };
                (WorkerAction::Sleep(idle_sleep_millis(idle)), idle)
            },
        }
    }
}

impl<R> ThreadPool<Task<R>> {
    /// Runs the command of a task against the store, and hands back the
    /// channel of the task together with the result to send on it.
    pub fn execute_task(store: &mut Sodium, task: Task<R>) -> (r: (
        R,
        Result<Outcome, TaskError>,
    ))
        ensures
            r.0 == task.sender,
            runs(old(store)@, task.command@, task_result(r.1), final(store)@),
    {
        let Task { command, sender } = task;
        let result = execute_task(store, command);
        (sender, result)
    }
}

} // verus!
