//! The worker pool as its workers and its clients see it: a queue of tasks
//! that is served first come, first served, by a fixed number of workers.
//! This is the state that the workers share; who holds it guards it with a
//! lock, lets a worker that is told to wait sleep until a task is submitted
//! or the pool is closed, and runs each task that a worker was handed.

use std::collections::VecDeque;
use vstd::prelude::*;

verus! {

/// What a worker that asked for a task is told.
pub enum Next<T> {
    /// Run the task that comes with it, then say that it is finished.
    Run(T),
    /// There is no task now: wait, then ask again.
    Wait,
    /// There is no task and none will come: stop.
    Exit,
}

/// The state of a pool in contracts.
pub struct PoolModel<T> {
    /// The tasks that wait, the oldest first.
    pub pending: Seq<T>,
    /// For each worker, whether it runs a task.
    pub busy: Seq<bool>,
    /// Whether tasks can still be submitted.
    pub open: bool,
    /// How many tasks were submitted so far.
    pub submitted: nat,
    /// How many tasks were finished so far.
    pub completed: nat,
}

/// How many workers run a task.
pub open spec fn running(busy: Seq<bool>) -> nat
    decreases busy.len(),
{
    if busy.len() == 0 {
        0
    } else if busy.last() {
        running(busy.drop_last()) + 1
    } else {
        running(busy.drop_last())
    }
}

/// Whether a state is one that a pool can be in: each task that was
/// submitted waits, runs or is finished.
pub open spec fn balanced<T>(pool: PoolModel<T>) -> bool {
    pool.submitted == pool.pending.len() + running(pool.busy) + pool.completed
}

/// No more workers run a task than there are workers.
pub proof fn lemma_running_bounded(busy: Seq<bool>)
    ensures
        running(busy) <= busy.len(),
    decreases busy.len(),
{
    if busy.len() > 0 {
        lemma_running_bounded(busy.drop_last());
    }
}

/// A worker that starts or ends a task changes the number of running
/// workers by one.
pub proof fn lemma_running_update(busy: Seq<bool>, worker: int, runs: bool)
    requires
        0 <= worker < busy.len(),
    ensures
        running(busy.update(worker, runs)) == running(busy) - (if busy[worker] {
            1int
        } else {
            0int
        }) + (if runs {
            1int
        } else {
            0int
        }),
    decreases busy.len(),
{
    let after = busy.update(worker, runs);
    if worker == busy.len() - 1 {
        assert(after.drop_last() =~= busy.drop_last());
    } else {
        lemma_running_update(busy.drop_last(), worker, runs);
        assert(after.drop_last() =~= busy.drop_last().update(worker, runs));
    }
}

/// At no time do more tasks run than the pool has workers, and a pool in
/// which no task waits or runs has finished every task that was submitted.
pub proof fn law_bounded_and_complete<T>(pool: PoolModel<T>)
    requires
        balanced(pool),
    ensures
        running(pool.busy) <= pool.busy.len(),
        pool.completed <= pool.submitted,
        pool.pending.len() == 0 && running(pool.busy) == 0 ==> pool.completed == pool.submitted,
{
    lemma_running_bounded(pool.busy);
}

/// The shared state of a worker pool.
pub struct WorkerPool<T> {
    pending: VecDeque<T>,
    busy: Vec<bool>,
    open: bool,
    submitted: Ghost<nat>,
    completed: Ghost<nat>,
}

impl<T> View for WorkerPool<T> {
    type V = PoolModel<T>;

    closed spec fn view(&self) -> PoolModel<T> {
        PoolModel {
            pending: self.pending@,
            busy: self.busy@,
            open: self.open,
            submitted: self.submitted@,
            completed: self.completed@,
        }
    }
}

impl<T> WorkerPool<T> {
    /// Whether the pool is well formed: its tasks are all accounted for.
    pub open spec fn wf(&self) -> bool {
        balanced(self@)
    }

    /// A pool of `worker_count` idle workers without tasks.
    pub fn new(worker_count: usize) -> (pool: WorkerPool<T>)
        ensures
            pool.wf(),
            pool@.pending.len() == 0,
            pool@.busy == Seq::new(worker_count as nat, |i: int| false),
            pool@.open,
            pool@.submitted == 0,
            pool@.completed == 0,
    {
        let mut busy: Vec<bool> = Vec::new();
        while busy.len() < worker_count
            invariant
                busy.len() <= worker_count,
                busy@ == Seq::new(busy.len() as nat, |i: int| false),
                running(busy@) == 0,
            decreases worker_count - busy.len(),
        {
            let ghost before = busy@;
            busy.push(false);
            assert(busy@.drop_last() =~= before);
            assert(busy@ =~= Seq::new(busy.len() as nat, |i: int| false));
        }
        WorkerPool {
            pending: VecDeque::new(),
            busy,
            open: true,
            submitted: Ghost(0),
            completed: Ghost(0),
        }
    }

    /// The number of workers.
    pub fn worker_count(&self) -> (count: usize)
        ensures
            count == self@.busy.len(),
    {
        self.busy.len()
    }

    /// The number of tasks that wait.
    pub fn pending_count(&self) -> (count: usize)
        ensures
            count == self@.pending.len(),
    {
        self.pending.len()
    }

    /// The number of workers that run a task.
    pub fn running_count(&self) -> (count: usize)
        ensures
            count == running(self@.busy),
            count <= self@.busy.len(),
    {
        let mut count: usize = 0;
        let mut at: usize = 0;
        while at < self.busy.len()
            invariant
                at <= self.busy.len(),
                count == running(self.busy@.take(at as int)),
                count <= at,
            decreases self.busy.len() - at,
        {
            assert(self.busy@.take(at + 1).drop_last() =~= self.busy@.take(at as int));
            if self.busy[at] {
                count += 1;
            }
            at += 1;
        }
        assert(self.busy@.take(at as int) =~= self.busy@);
        count
    }

    /// Whether tasks can still be submitted.
    pub fn is_open(&self) -> (open: bool)
        ensures
            open == self@.open,
    {
        self.open
    }

    /// Puts a task at the end of the queue. The queue has no bound, so an
    /// open pool always takes the task; a closed pool hands it back.
    pub fn submit(&mut self, task: T) -> (taken: Result<(), T>)
        requires
            old(self).wf(),
        ensures
            final(self).wf(),
            match taken {
                Ok(()) => old(self)@.open && final(self)@ == (PoolModel {
                    pending: old(self)@.pending.push(task),
                    submitted: old(self)@.submitted + 1,
                    ..old(self)@
                }),
                Err(back) => !old(self)@.open && back == task && final(self)@ == old(self)@,
            },
    {
        if self.open {
            self.pending.push_back(task);
            self.submitted = Ghost((self.submitted@ + 1) as nat);
            Ok(())
        } else {
            Err(task)
        }
    }

    /// Hands the oldest waiting task to the idle worker `worker`. Where no
    /// task waits, the worker is told to wait while the pool is open and to
    /// stop once it is closed. One that is no idle worker of the pool is
    /// told to stop.
    pub fn take(&mut self, worker: usize) -> (next: Next<T>)
        requires
            old(self).wf(),
        ensures
            final(self).wf(),
            match next {
                Next::Run(task) => worker < old(self)@.busy.len() && !old(self)@.busy[worker as int]
                    && old(self)@.pending.len() > 0 && task == old(self)@.pending[0]
                    && final(self)@ == (PoolModel {
                    pending: old(self)@.pending.drop_first(),
                    busy: old(self)@.busy.update(worker as int, true),
                    ..old(self)@
                }),
                Next::Wait => worker < old(self)@.busy.len() && !old(self)@.busy[worker as int]
                    && old(self)@.pending.len() == 0 && old(self)@.open && final(self)@ == old(
                    self,
                )@,
                Next::Exit => (worker >= old(self)@.busy.len() || old(self)@.busy[worker as int]
                    || (old(self)@.pending.len() == 0 && !old(self)@.open)) && final(self)@ == old(
                    self,
                )@,
            },
    {
        if worker >= self.busy.len() || self.busy[worker] {
            return Next::Exit;
        }
        match self.pending.pop_front() {
            Some(task) => {
                proof {
                    lemma_running_update(self.busy@, worker as int, true);
                    assert(self.pending@ =~= old(self).pending@.drop_first());
                }
                self.busy.set(worker, true);
                Next::Run(task)
            },
            None => {
                assert(self.pending@ =~= old(self).pending@);
                if self.open {
                    Next::Wait
                } else {
                    Next::Exit
                }
            },
        }
    }

    /// Notes that the worker `worker` has finished its task. The result
    /// says whether the worker did run a task.
    pub fn finish(&mut self, worker: usize) -> (counted: bool)
        requires
            old(self).wf(),
        ensures
            final(self).wf(),
            counted == (worker < old(self)@.busy.len() && old(self)@.busy[worker as int]),
            counted ==> final(self)@ == (PoolModel {
                busy: old(self)@.busy.update(worker as int, false),
                completed: old(self)@.completed + 1,
                ..old(self)@
            }),
            !counted ==> final(self)@ == old(self)@,
    {
        if worker < self.busy.len() && self.busy[worker] {
            proof {
                lemma_running_update(self.busy@, worker as int, false);
            }
            self.busy.set(worker, false);
            self.completed = Ghost((self.completed@ + 1) as nat);
            true
        } else {
            false
        }
    }

    /// Closes the pool: no task is taken any more, the tasks that wait are
    /// still handed out, and those that run are left to finish.
    pub fn close(&mut self)
        requires
            old(self).wf(),
        ensures
            final(self).wf(),
            final(self)@ == (PoolModel { open: false, ..old(self)@ }),
    {
        self.open = false;
    }
}

} // verus!
