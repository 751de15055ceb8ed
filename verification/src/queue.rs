//! The queue that one worker owns.

use vstd::prelude::*;
use std::collections::VecDeque;
use crate::task::{ScheduledTask, NANOS_PER_SECOND};

verus! {

/// What the supervisor says about a task that has waited too long.
#[derive(Clone, Copy, Debug, PartialEq, Eq, Structural)]
pub struct StaleTask {
    pub task_id: u64,
    pub worker_id: usize,
    pub queue_position: usize,
    /// How long the task has waited, in nanoseconds.
    pub age: u64,
    pub timeout_seconds: u64,
}

/// The report on `task`, found at `position` in the queue of `worker_id`.
pub open spec fn report_on<T>(
    task: ScheduledTask<T>,
    worker_id: usize,
    position: int,
    now: u64,
    timeout_seconds: u64,
) -> StaleTask {
    StaleTask {
        task_id: task.metadata.id,
        worker_id,
        queue_position: position as usize,
        age: task.age_at(now) as u64,
        timeout_seconds,
    }
}

/// The reports on a queue: one for each stale task, in queue order.
pub open spec fn stale_reports<T>(
    tasks: Seq<ScheduledTask<T>>,
    worker_id: usize,
    now: u64,
    timeout_seconds: u64,
) -> Seq<StaleTask>
    decreases tasks.len(),
{
    if tasks.len() == 0 {
        Seq::empty()
    } else {
        let earlier = stale_reports(tasks.drop_last(), worker_id, now, timeout_seconds);
        if tasks.last().is_stale(now, timeout_seconds) {
            earlier.push(report_on(tasks.last(), worker_id, tasks.len() - 1, now, timeout_seconds))
        } else {
            earlier
        }
    }
}

/// Tasks waiting for one worker, oldest first.
///
/// The owner consumes from the front; submitters append at the back; peers
/// steal from the back.
pub struct WorkerQueue<T> {
    queue: VecDeque<ScheduledTask<T>>,
}

impl<T> View for WorkerQueue<T> {
    type V = Seq<ScheduledTask<T>>;

    closed spec fn view(&self) -> Seq<ScheduledTask<T>> {
        self.queue@
    }
}

impl<T> WorkerQueue<T> {
    /// An empty queue.
    pub fn new() -> (q: Self)
        ensures
            q@ == Seq::<ScheduledTask<T>>::empty(),
    {
        WorkerQueue { queue: VecDeque::new() }
    }

    /// Appends a task at the back.
    pub fn push(&mut self, task: ScheduledTask<T>)
        ensures
            final(self)@ == old(self)@.push(task),
    {
        self.queue.push_back(task);
    }

    /// Removes the oldest task, if there is one.
    pub fn pop(&mut self) -> (task: Option<ScheduledTask<T>>)
        ensures
            old(self)@.len() == 0 ==> task.is_none() && final(self)@ == old(self)@,
            old(self)@.len() > 0 ==> task == Some(old(self)@.first()) && final(self)@ == old(
                self,
            )@.drop_first(),
    {
        let task = self.queue.pop_front();
        proof {
            if old(self)@.len() > 0 {
                assert(self.queue@ =~= old(self)@.drop_first());
            }
        }
        task
    }

    /// Removes the most recently pushed task, if there is one.
    pub fn steal(&mut self) -> (task: Option<ScheduledTask<T>>)
        ensures
            old(self)@.len() == 0 ==> task.is_none() && final(self)@ == old(self)@,
            old(self)@.len() > 0 ==> task == Some(old(self)@.last()) && final(self)@ == old(
                self,
            )@.drop_last(),
    {
        let task = self.queue.pop_back();
        proof {
            if old(self)@.len() > 0 {
                assert(self.queue@ =~= old(self)@.drop_last());
            }
        }
        task
    }

    /// Steals for a peer: removes the most recently pushed task and hands it
    /// out, unless it is a poison pill. A pill is addressed to the owner of
    /// this queue, so it goes back where it was and nothing is handed out.
    pub fn steal_work(&mut self) -> (task: Option<ScheduledTask<T>>)
        ensures
            match task {
                Some(stolen) => {
                    &&& old(self)@.len() > 0
                    &&& stolen == old(self)@.last()
                    &&& !stolen.is_poison_pill()
                    &&& final(self)@ == old(self)@.drop_last()
                },
                None => {
                    &&& final(self)@ == old(self)@
                    &&& (old(self)@.len() == 0 || old(self)@.last().is_poison_pill())
                },
            },
    {
        match self.steal() {
            Some(stolen) => {
                if stolen.is_pill() {
                    self.push(stolen);
                    assert(self@ =~= old(self)@);
                    None
                } else {
                    Some(stolen)
                }
            },
            None => None,
        }
    }

    /// Looks through the queue for tasks that have waited longer than
    /// `timeout_seconds` at `now`, and reports each of them. The queue is
    /// left as it is.
    pub fn stale_tasks(&self, worker_id: usize, now: u64, timeout_seconds: u64) -> (reports: Vec<
        StaleTask,
    >)
        ensures
            reports@ == stale_reports(self@, worker_id, now, timeout_seconds),
    {
        let mut reports: Vec<StaleTask> = Vec::new();
        let n: usize = self.queue.len();
        let mut i: usize = 0;
        while i < n
            invariant
                n == self.queue@.len(),
                i <= n,
                reports@ == stale_reports(self.queue@.take(i as int), worker_id, now, timeout_seconds),
            decreases n - i,
        {
            let task = &self.queue[i];
            let age: u64 = task.age(now);
            proof {
                let upto = self.queue@.take(i as int + 1);
                assert(upto.drop_last() =~= self.queue@.take(i as int));
                assert(upto.last() == self.queue@[i as int]);
            }
            if (age as u128) > (timeout_seconds as u128) * (NANOS_PER_SECOND as u128) {
                reports.push(
                    StaleTask {
                        task_id: task.metadata.id,
                        worker_id,
                        queue_position: i,
                        age,
                        timeout_seconds,
                    },
                );
            }
            i = i + 1;
        }
        assert(self.queue@.take(n as int) =~= self.queue@);
        reports
    }

    /// The number of waiting tasks.
    pub fn len(&self) -> (n: usize)
        ensures
            n == self@.len(),
    {
        self.queue.len()
    }
}

/// Within one queue tasks leave in the order in which they came: of two
/// tasks pushed one after the other, the owner takes the first before the
/// second, whatever was waiting before them.
pub proof fn law_fifo_within_queue<T>(
    waiting: Seq<ScheduledTask<T>>,
    first: ScheduledTask<T>,
    second: ScheduledTask<T>,
)
    ensures
        waiting.push(first).push(second).skip(waiting.len() as int).first() == first,
        waiting.push(first).push(second).skip(waiting.len() as int + 1).first() == second,
        forall|k: int|
            0 <= k <= waiting.len() ==> #[trigger] waiting.push(first).push(second).skip(
                k,
            ).contains(first),
{
    let q = waiting.push(first).push(second);
    assert forall|k: int| 0 <= k <= waiting.len() implies #[trigger] q.skip(k).contains(first) by {
        assert(q.skip(k)[waiting.len() - k] == first);
    }
}

/// The supervisor misses no task and invents none: a task of the queue is
/// reported exactly when it is stale, and then with its own identifier,
/// position and age.
pub proof fn law_stale_tasks_reported<T>(
    tasks: Seq<ScheduledTask<T>>,
    worker_id: usize,
    now: u64,
    timeout_seconds: u64,
)
    requires
        tasks.len() <= usize::MAX,
    ensures
        forall|p: int|
            0 <= p < tasks.len() && (#[trigger] tasks[p]).is_stale(now, timeout_seconds)
                ==> stale_reports(tasks, worker_id, now, timeout_seconds).contains(
                report_on(tasks[p], worker_id, p, now, timeout_seconds),
            ),
        forall|k: int|
            0 <= k < stale_reports(tasks, worker_id, now, timeout_seconds).len() ==> {
                let report = #[trigger] stale_reports(tasks, worker_id, now, timeout_seconds)[k];
                &&& report.queue_position < tasks.len()
                &&& tasks[report.queue_position as int].is_stale(now, timeout_seconds)
                &&& report == report_on(
                    tasks[report.queue_position as int],
                    worker_id,
                    report.queue_position as int,
                    now,
                    timeout_seconds,
                )
            },
    decreases tasks.len(),
{
    if tasks.len() > 0 {
        let earlier_tasks = tasks.drop_last();
        law_stale_tasks_reported(earlier_tasks, worker_id, now, timeout_seconds);
        let earlier = stale_reports(earlier_tasks, worker_id, now, timeout_seconds);
        let all = stale_reports(tasks, worker_id, now, timeout_seconds);
        assert forall|p: int|
            0 <= p < tasks.len() && (#[trigger] tasks[p]).is_stale(
                now,
                timeout_seconds,
            ) implies all.contains(report_on(tasks[p], worker_id, p, now, timeout_seconds)) by {
            if p < tasks.len() - 1 {
                assert(earlier_tasks[p] == tasks[p]);
                let r = report_on(tasks[p], worker_id, p, now, timeout_seconds);
                assert(earlier.contains(r));
                let k = choose|k: int| 0 <= k < earlier.len() && earlier[k] == r;
                assert(all[k] == r);
            } else {
                assert(all[all.len() - 1] == report_on(
                    tasks[p],
                    worker_id,
                    p,
                    now,
                    timeout_seconds,
                ));
            }
        }
        assert forall|k: int| 0 <= k < all.len() implies {
            let report = #[trigger] all[k];
            &&& report.queue_position < tasks.len()
            &&& tasks[report.queue_position as int].is_stale(now, timeout_seconds)
            &&& report == report_on(
                tasks[report.queue_position as int],
                worker_id,
                report.queue_position as int,
                now,
                timeout_seconds,
            )
        } by {
            if k < earlier.len() {
                let report = earlier[k];
                assert(all[k] == report);
                assert(earlier_tasks[report.queue_position as int]
                    == tasks[report.queue_position as int]);
            }
        }
    }
}

} // verus!
