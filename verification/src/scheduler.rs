//! The scheduler as one sequential state: the queues of all workers, the
//! state of each worker, the shutdown flag and the task counter.
//!
//! What other threads do to the locks in the meantime is an input: each
//! operation is told, queue by queue, how the lock of that queue answers.

use vstd::prelude::*;
use vstd::multiset::Multiset;
use vstd::seq_lib::{to_multiset_build, to_multiset_remove};
use crate::balance::{best_of, law_empty_queue_ends_round, victim_at, QueuePicker, StealSearch};
use crate::config::SchedulerConfig;
use crate::queue::{law_stale_tasks_reported, report_on, stale_reports, StaleTask, WorkerQueue};
use crate::task::{poison_pill, PoisonPill, ScheduledTask, TaskMetadata};
use crate::worker::{
    accepts, next_action, next_state, ExitReason, TaskOutcome, Worker, WorkerAction, WorkerEvent,
    WorkerState,
};

verus! {

/// How often a submitter probes the queues before it gives up probing.
pub const MAX_ATTEMPTS: usize = 3;

/// The pause between two rounds of the supervisor, in milliseconds.
pub const CHECK_INTERVAL_MILLIS: u64 = 500;

/// How the lock of one queue answers during an operation.
#[derive(Clone, Copy, Debug, PartialEq, Eq, Structural)]
pub enum QueueAccess {
    /// A non-blocking attempt succeeds.
    Free,
    /// A non-blocking attempt fails; a blocking one succeeds in the end.
    Busy,
    /// The lock is poisoned: every attempt fails.
    Poisoned,
}

/// Why a task was not accepted.
#[derive(Clone, Copy, Debug, PartialEq, Eq, Structural)]
pub enum SubmitError {
    /// The shutdown flag is set.
    ShuttingDown,
    /// No queue could be acquired within the retry budget.
    SubmissionExhausted,
}

/// The tasks waiting in all queues together, as a bag.
pub open spec fn pending_in<T>(queues: Seq<Seq<ScheduledTask<T>>>) -> Multiset<ScheduledTask<T>>
    decreases queues.len(),
{
    if queues.len() == 0 {
        Multiset::empty()
    } else {
        pending_in(queues.drop_last()).add(queues.last().to_multiset())
    }
}

/// What a round of probes shows of the queues: the length of each queue whose
/// lock is free, and nothing of the others.
pub open spec fn probes_of<T>(queues: Seq<Seq<ScheduledTask<T>>>, access: Seq<QueueAccess>) -> Seq<
    Option<usize>,
> {
    Seq::new(
        queues.len(),
        |i: int|
            if access[i] is Free {
                Some(queues[i].len() as usize)
            } else {
                None
            },
    )
}

/// The queue that a submission goes to: the one the load balancer picks; if
/// no lock is free, the first queue, on which the submitter then blocks; none
/// if the lock of that queue is poisoned.
pub open spec fn submit_target<T>(queues: Seq<Seq<ScheduledTask<T>>>, access: Seq<QueueAccess>)
    -> Option<int> {
    match best_of(probes_of(queues, access)) {
        Some((index, _)) => Some(index as int),
        None => if access[0] is Poisoned {
            None
        } else {
            Some(0)
        },
    }
}

/// The queues after a poison pill has been put at the back of each: of each
/// whose lock can be had, that is. A poisoned lock keeps its queue as it is.
pub open spec fn with_pills<T>(
    queues: Seq<Seq<ScheduledTask<T>>>,
    access: Seq<QueueAccess>,
    now: u64,
) -> Seq<Seq<ScheduledTask<T>>> {
    Seq::new(
        queues.len(),
        |i: int|
            if access[i] is Poisoned {
                queues[i]
            } else {
                queues[i].push(poison_pill::<T>(now))
            },
    )
}

/// A queue can be stolen from when its lock is free and its newest task is
/// there and is no poison pill.
pub open spec fn stealable<T>(queue: Seq<ScheduledTask<T>>, access: QueueAccess) -> bool {
    access is Free && queue.len() > 0 && !queue.last().is_poison_pill()
}

/// The first peer, from `offset` on in the thief's round robin, whose queue
/// can be stolen from.
pub open spec fn first_victim<T>(
    queues: Seq<Seq<ScheduledTask<T>>>,
    access: Seq<QueueAccess>,
    worker_id: usize,
    offset: usize,
) -> Option<int>
    decreases queues.len() - offset,
{
    if offset >= queues.len() || offset == usize::MAX {
        None
    } else {
        let victim = victim_at(worker_id, offset, queues.len() as usize);
        if stealable(queues[victim], access[victim]) {
            Some(victim)
        } else {
            first_victim(queues, access, worker_id, (offset + 1) as usize)
        }
    }
}

/// What the supervisor reports of the first `upto` queues: worker by worker,
/// the stale tasks of each queue whose lock is free.
pub open spec fn scan_reports<T>(
    queues: Seq<Seq<ScheduledTask<T>>>,
    access: Seq<QueueAccess>,
    now: u64,
    timeout_seconds: u64,
    upto: int,
) -> Seq<StaleTask>
    decreases upto,
{
    if upto <= 0 {
        Seq::empty()
    } else {
        let earlier = scan_reports(queues, access, now, timeout_seconds, upto - 1);
        if access[upto - 1] is Free {
            earlier + stale_reports(queues[upto - 1], (upto - 1) as usize, now, timeout_seconds)
        } else {
            earlier
        }
    }
}

/// The number of workers that have not exited.
pub open spec fn live_workers(states: Seq<WorkerState>) -> nat
    decreases states.len(),
{
    if states.len() == 0 {
        0
    } else {
        live_workers(states.drop_last()) + if states.last() == WorkerState::Exited {
            0nat
        } else {
            1nat
        }
    }
}

/// What a round of shutdown tells its caller.
#[derive(Clone, Copy, Debug, PartialEq, Eq, Structural)]
pub struct ShutdownReport {
    /// The number of workers that left their loop during the shutdown.
    pub worker_exits: usize,
    /// Whether a supervisor was running and has been stopped.
    pub supervisor_exited: bool,
}

/// The identifier that follows `counter`: one more, wrapping round at the end.
pub open spec fn next_id(counter: u64) -> u64 {
    if counter == u64::MAX {
        0
    } else {
        (counter + 1) as u64
    }
}

/// Replacing one queue changes the bag of waiting tasks by what that queue
/// held before and holds after: counted task by task, what the queues hold
/// after together with the old contents of that queue is what they held
/// before together with its new contents.
pub proof fn lemma_pending_exchange<T>(
    queues: Seq<Seq<ScheduledTask<T>>>,
    index: int,
    queue: Seq<ScheduledTask<T>>,
    task: ScheduledTask<T>,
)
    requires
        0 <= index < queues.len(),
    ensures
        pending_in(queues.update(index, queue)).count(task) + queues[index].to_multiset().count(
            task,
        ) == pending_in(queues).count(task) + queue.to_multiset().count(task),
    decreases queues.len(),
{
    broadcast use vstd::multiset::group_multiset_axioms;

    if index == queues.len() - 1 {
        assert(queues.update(index, queue).drop_last() =~= queues.drop_last());
    } else {
        lemma_pending_exchange(queues.drop_last(), index, queue, task);
        assert(queues.update(index, queue).drop_last() =~= queues.drop_last().update(
            index,
            queue,
        ));
    }
}

/// A task pushed to a queue is one more waiting task, and nothing else
/// changes.
pub proof fn law_push_adds_one<T>(
    queues: Seq<Seq<ScheduledTask<T>>>,
    index: int,
    task: ScheduledTask<T>,
)
    requires
        0 <= index < queues.len(),
    ensures
        pending_in(queues.update(index, queues[index].push(task))) == pending_in(queues).insert(
            task,
        ),
{
    broadcast use vstd::multiset::group_multiset_axioms;

    let after = pending_in(queues.update(index, queues[index].push(task)));
    let before = pending_in(queues).insert(task);
    to_multiset_build(queues[index], task);
    assert forall|other: ScheduledTask<T>| after.count(other) == before.count(other) by {
        lemma_pending_exchange(queues, index, queues[index].push(task), other);
    }
    assert(after =~= before);
}

/// A task taken from the front of a queue, by its owner, or from its back, by
/// a thief, is one waiting task less: exactly that task, and no other, has
/// left the queues.
pub proof fn law_take_removes_one<T>(queues: Seq<Seq<ScheduledTask<T>>>, index: int)
    requires
        0 <= index < queues.len(),
        queues[index].len() > 0,
    ensures
        pending_in(queues) == pending_in(
            queues.update(index, queues[index].drop_first()),
        ).insert(queues[index].first()),
        pending_in(queues) == pending_in(queues.update(index, queues[index].drop_last())).insert(
            queues[index].last(),
        ),
{
    broadcast use vstd::multiset::group_multiset_axioms;

    let queue = queues[index];
    let before = pending_in(queues);
    let popped = pending_in(queues.update(index, queue.drop_first())).insert(queue.first());
    let stolen = pending_in(queues.update(index, queue.drop_last())).insert(queue.last());
    to_multiset_remove(queue, 0);
    assert(queue.remove(0) =~= queue.drop_first());
    to_multiset_remove(queue, queue.len() - 1);
    assert(queue.remove(queue.len() - 1) =~= queue.drop_last());
    assert(queue.to_multiset().count(queue.first()) > 0) by {
        vstd::seq_lib::to_multiset_contains(queue, queue.first());
        assert(queue[0] == queue.first());
    }
    assert(queue.to_multiset().count(queue.last()) > 0) by {
        vstd::seq_lib::to_multiset_contains(queue, queue.last());
        assert(queue[queue.len() - 1] == queue.last());
    }
    assert forall|other: ScheduledTask<T>| before.count(other) == popped.count(other) by {
        lemma_pending_exchange(queues, index, queue.drop_first(), other);
    }
    assert(before =~= popped);
    assert forall|other: ScheduledTask<T>| before.count(other) == stolen.count(other) by {
        lemma_pending_exchange(queues, index, queue.drop_last(), other);
    }
    assert(before =~= stolen);
}

/// What a submitter does after a round of probing.
#[derive(Clone, Copy, Debug, PartialEq, Eq, Structural)]
pub enum SubmitStep {
    /// Push to the queue that the load balancer chose.
    PushTo(usize),
    /// Yield the thread and probe again.
    Retry,
    /// Wait for the lock of the first queue and push there.
    BlockOnFirst,
}

/// The step after round number `attempt`, counted from zero: push where the
/// load balancer chose, if it chose; if not, probe again, until the last of
/// the budgeted rounds, after which the submitter blocks on the first queue.
pub open spec fn step_after(attempt: usize, choice: Option<usize>) -> SubmitStep {
    match choice {
        Some(index) => SubmitStep::PushTo(index),
        None => if attempt + 1 >= MAX_ATTEMPTS {
            SubmitStep::BlockOnFirst
        } else {
            SubmitStep::Retry
        },
    }
}

/// Decides the step after a round of probing.
pub fn after_round(attempt: usize, choice: Option<usize>) -> (step: SubmitStep)
    ensures
        step == step_after(attempt, choice),
{
    match choice {
        Some(index) => SubmitStep::PushTo(index),
        None => if attempt >= MAX_ATTEMPTS - 1 {
            SubmitStep::BlockOnFirst
        } else {
            SubmitStep::Retry
        },
    }
}

/// Computes the identifier that follows `counter`.
pub fn next_task_id(counter: u64) -> (id: u64)
    ensures
        id == next_id(counter),
{
    counter.wrapping_add(1)
}

/// A scheduler for tasks with payloads of type `T`.
pub struct TaskScheduler<T> {
    config: SchedulerConfig,
    worker_queues: Vec<WorkerQueue<T>>,
    workers: Vec<Worker>,
    started: bool,
    supervisor_running: bool,
    shutdown: bool,
    task_counter: u64,
}

impl<T> TaskScheduler<T> {
    /// The configuration the scheduler was made with.
    pub closed spec fn config(&self) -> SchedulerConfig {
        self.config
    }

    /// The queue of each worker, oldest task first.
    pub closed spec fn queues(&self) -> Seq<Seq<ScheduledTask<T>>> {
        Seq::new(self.worker_queues@.len(), |i: int| self.worker_queues@[i]@)
    }

    /// The state of each worker.
    pub closed spec fn worker_states(&self) -> Seq<WorkerState> {
        Seq::new(self.workers@.len(), |i: int| self.workers@[i].state)
    }

    /// Whether the workers have been started.
    pub closed spec fn is_started(&self) -> bool {
        self.started
    }

    /// Whether a supervisor is watching the queues.
    pub closed spec fn supervisor_running(&self) -> bool {
        self.supervisor_running
    }

    /// Whether the shutdown flag is set.
    pub closed spec fn is_shut_down(&self) -> bool {
        self.shutdown
    }

    /// The identifier given to the task submitted last.
    pub closed spec fn task_counter(&self) -> u64 {
        self.task_counter
    }

    /// The tasks waiting in all queues together, as a bag.
    pub open spec fn pending(&self) -> Multiset<ScheduledTask<T>> {
        pending_in(self.queues())
    }

    /// What holds of every scheduler: there is at least one worker, each
    /// worker has its queue, and each worker knows its index and whether it
    /// may steal.
    pub closed spec fn well_formed(&self) -> bool {
        &&& self.config.num_workers >= 1
        &&& self.worker_queues@.len() == self.config.num_workers
        &&& self.workers@.len() == self.config.num_workers
        &&& forall|i: int|
            0 <= i < self.workers@.len() ==> {
                &&& (#[trigger] self.workers@[i]).worker_id == i
                &&& self.workers@[i].stealing == self.config.enable_work_stealing
            }
    }

    /// A scheduler with an empty queue for each worker. No worker runs yet.
    pub fn new(config: SchedulerConfig) -> (scheduler: Self)
        requires
            config.is_valid(),
        ensures
            scheduler.well_formed(),
            scheduler.config() == config,
            scheduler.queues() == Seq::new(
                config.num_workers as nat,
                |i: int| Seq::<ScheduledTask<T>>::empty(),
            ),
            scheduler.worker_states() == Seq::new(
                config.num_workers as nat,
                |i: int| WorkerState::Idle,
            ),
            !scheduler.is_started(),
            !scheduler.supervisor_running(),
            !scheduler.is_shut_down(),
            scheduler.task_counter() == 0,
    {
        let mut worker_queues: Vec<WorkerQueue<T>> = Vec::new();
        let mut workers: Vec<Worker> = Vec::new();
        let mut i: usize = 0;
        while i < config.num_workers
            invariant
                i <= config.num_workers,
                worker_queues@.len() == i,
                workers@.len() == i,
                forall|k: int| 0 <= k < i ==> (#[trigger] worker_queues@[k])@.len() == 0,
                forall|k: int|
                    0 <= k < i ==> {
                        &&& (#[trigger] workers@[k]).worker_id == k
                        &&& workers@[k].stealing == config.enable_work_stealing
                        &&& workers@[k].state == WorkerState::Idle
                    },
            decreases config.num_workers - i,
        {
            worker_queues.push(WorkerQueue::new());
            workers.push(Worker::new(i, config.enable_work_stealing));
            i = i + 1;
        }
        let scheduler = TaskScheduler {
            config,
            worker_queues,
            workers,
            started: false,
            supervisor_running: false,
            shutdown: false,
            task_counter: 0,
        };
        proof {
            assert(scheduler.queues() =~= Seq::new(
                config.num_workers as nat,
                |i: int| Seq::<ScheduledTask<T>>::empty(),
            )) by {
                assert forall|k: int| 0 <= k < config.num_workers implies scheduler.queues()[k]
                    =~= Seq::<ScheduledTask<T>>::empty() by {}
            }
            assert(scheduler.worker_states() =~= Seq::new(
                config.num_workers as nat,
                |i: int| WorkerState::Idle,
            ));
        }
        scheduler
    }

    /// The number of workers.
    pub fn num_workers(&self) -> (n: usize)
        ensures
            n == self.config().num_workers,
    {
        self.config.num_workers
    }

    /// The configuration the scheduler was made with.
    pub fn configuration(&self) -> (config: SchedulerConfig)
        ensures
            config == self.config(),
    {
        self.config
    }

    /// Whether the shutdown flag is set.
    pub fn shutting_down(&self) -> (set: bool)
        ensures
            set == self.is_shut_down(),
    {
        self.shutdown
    }

    /// The number of tasks waiting in the queue of one worker.
    pub fn queue_len(&self, worker_id: usize) -> (n: usize)
        requires
            self.well_formed(),
            worker_id < self.config().num_workers,
        ensures
            n == self.queues()[worker_id as int].len(),
    {
        self.worker_queues[worker_id].len()
    }

    /// The state of one worker.
    pub fn worker_state(&self, worker_id: usize) -> (state: WorkerState)
        requires
            self.well_formed(),
            worker_id < self.config().num_workers,
        ensures
            state == self.worker_states()[worker_id as int],
    {
        self.workers[worker_id].state
    }

    /// Starts the workers, and the supervisor if the configuration has a
    /// timeout.
    pub fn start(&mut self)
        requires
            old(self).well_formed(),
            !old(self).is_started(),
        ensures
            final(self).well_formed(),
            final(self).is_started(),
            final(self).supervisor_running() == old(self).config().supervised(),
            final(self).config() == old(self).config(),
            final(self).queues() == old(self).queues(),
            final(self).worker_states() == old(self).worker_states(),
            final(self).is_shut_down() == old(self).is_shut_down(),
            final(self).task_counter() == old(self).task_counter(),
    {
        self.started = true;
        self.supervisor_running = self.config.timeout_seconds > 0;
    }

    /// Everything but the queues and the task counter is as in `before`.
    pub open spec fn same_pool_as(&self, before: &Self) -> bool {
        &&& self.config() == before.config()
        &&& self.worker_states() == before.worker_states()
        &&& self.is_started() == before.is_started()
        &&& self.supervisor_running() == before.supervisor_running()
        &&& self.is_shut_down() == before.is_shut_down()
    }

    /// One round of probing: shows every queue whose lock is free to the
    /// load balancer, up to the first empty one, and returns its choice.
    fn probe_round(&self, access: &Vec<QueueAccess>) -> (choice: Option<usize>)
        requires
            self.well_formed(),
            access@.len() == self.config().num_workers,
        ensures
            choice == match best_of(probes_of(self.queues(), access@)) {
                Some((index, _)) => Some(index),
                None => None,
            },
            choice matches Some(index) ==> index < self.config().num_workers,
    {
        let ghost all = probes_of(self.queues(), access@);
        let mut picker = QueuePicker::new(self.config.num_workers);
        let mut next = picker.next_probe();
        assert(picker.probes() =~= all.take(0));
        while next.is_some()
            invariant
                self.well_formed(),
                access@.len() == self.config().num_workers,
                all == probes_of(self.queues(), access@),
                picker.well_formed(),
                picker.num_workers() == self.config().num_workers,
                picker.probes().len() <= all.len(),
                picker.probes() == all.take(picker.probes().len() as int),
                next == if picker.finished() {
                    None
                } else {
                    Some(picker.probes().len() as usize)
                },
            decreases all.len() - picker.probes().len(),
        {
            let index: usize = next.unwrap();
            let probe = match access[index] {
                QueueAccess::Free => Some(self.worker_queues[index].len()),
                _ => None,
            };
            proof {
                assert(probe == all[index as int]);
                assert(all.take(index as int).push(probe) =~= all.take(index as int + 1));
            }
            picker.record(probe);
            next = picker.next_probe();
        }
        proof {
            let seen = picker.probes();
            let rest = all.skip(seen.len() as int);
            assert(seen + rest =~= all);
            if seen.len() < all.len() {
                law_empty_queue_ends_round(seen, rest);
            }
            crate::balance::law_shortest_queue_first(all);
        }
        picker.choice()
    }

    /// Accepts a task: gives it the next identifier, and puts it at the back
    /// of the shortest queue whose lock is free. If no lock is free in any of
    /// the rounds of probing, the task goes to the first queue, whose lock
    /// the submitter then waits for.
    ///
    /// Fails with `ShuttingDown` if the shutdown flag is set, and with
    /// `SubmissionExhausted` if no lock is free and that of the first queue
    /// is poisoned. The identifier is used up in that case too.
    pub fn submit(&mut self, task: T, now: u64, access: &Vec<QueueAccess>) -> (result: Result<
        u64,
        SubmitError,
    >)
        requires
            old(self).well_formed(),
            access@.len() == old(self).config().num_workers,
        ensures
            final(self).well_formed(),
            final(self).same_pool_as(old(self)),
            old(self).is_shut_down() ==> {
                &&& result == Err::<u64, SubmitError>(SubmitError::ShuttingDown)
                &&& final(self).queues() == old(self).queues()
                &&& final(self).task_counter() == old(self).task_counter()
            },
            !old(self).is_shut_down() ==> {
                let id = next_id(old(self).task_counter());
                let scheduled = ScheduledTask {
                    task: Some(task),
                    metadata: TaskMetadata { id, submitted_at: now },
                };
                &&& final(self).task_counter() == id
                &&& match submit_target(old(self).queues(), access@) {
                    Some(target) => {
                        &&& result == Ok::<u64, SubmitError>(id)
                        &&& 0 <= target < old(self).queues().len()
                        &&& final(self).queues() == old(self).queues().update(
                            target,
                            old(self).queues()[target].push(scheduled),
                        )
                        &&& final(self).pending() == old(self).pending().insert(scheduled)
                    },
                    None => {
                        &&& result == Err::<u64, SubmitError>(SubmitError::SubmissionExhausted)
                        &&& final(self).queues() == old(self).queues()
                    },
                }
            },
    {
        if self.shutdown {
            return Err(SubmitError::ShuttingDown);
        }
        self.task_counter = next_task_id(self.task_counter);
        let task_id: u64 = self.task_counter;
        let scheduled = ScheduledTask::new(task, task_id, now);
        assert(self.queues() == old(self).queues());
        let mut attempts: usize = 0;
        while attempts < MAX_ATTEMPTS
            invariant
                self.well_formed(),
                access@.len() == self.config().num_workers,
                self.same_pool_as(old(self)),
                self.queues() == old(self).queues(),
                self.task_counter() == next_id(old(self).task_counter()),
                task_id == self.task_counter(),
                scheduled == (ScheduledTask {
                    task: Some(task),
                    metadata: TaskMetadata { id: task_id, submitted_at: now },
                }),
                !old(self).is_shut_down(),
                attempts < MAX_ATTEMPTS,
                attempts > 0 ==> best_of(probes_of(self.queues(), access@)) is None,
            decreases MAX_ATTEMPTS - attempts,
        {
            let choice = self.probe_round(access);
            match after_round(attempts, choice) {
                SubmitStep::PushTo(best) => {
                    self.push_to(best, scheduled);
                    return Ok(task_id);
                },
                SubmitStep::BlockOnFirst => {
                    match access[0] {
                        QueueAccess::Poisoned => {
                            return Err(SubmitError::SubmissionExhausted);
                        },
                        _ => {
                            self.push_to(0, scheduled);
                            return Ok(task_id);
                        },
                    }
                },
                SubmitStep::Retry => {},
            }
            attempts = attempts + 1;
        }
        Err(SubmitError::SubmissionExhausted)
    }

    /// Puts a task at the back of one queue.
    fn push_to(&mut self, index: usize, task: ScheduledTask<T>)
        requires
            old(self).well_formed(),
            index < old(self).config().num_workers,
        ensures
            final(self).well_formed(),
            final(self).same_pool_as(old(self)),
            final(self).task_counter() == old(self).task_counter(),
            final(self).queues() == old(self).queues().update(
                index as int,
                old(self).queues()[index as int].push(task),
            ),
            final(self).pending() == old(self).pending().insert(task),
    {
        self.worker_queues[index].push(task);
        proof {
            assert(self.queues() =~= old(self).queues().update(
                index as int,
                old(self).queues()[index as int].push(task),
            ));
            law_push_adds_one(old(self).queues(), index as int, task);
        }
    }

    /// Everything but the queues is as in `before`.
    pub open spec fn same_but_queues(&self, before: &Self) -> bool {
        &&& self.same_pool_as(before)
        &&& self.task_counter() == before.task_counter()
    }

    /// Puts a poison pill at the back of every queue whose lock can be had.
    pub fn submit_poison_pill(&mut self, now: u64, access: &Vec<QueueAccess>)
        requires
            old(self).well_formed(),
            access@.len() == old(self).config().num_workers,
        ensures
            final(self).well_formed(),
            final(self).same_but_queues(old(self)),
            final(self).queues() == with_pills(old(self).queues(), access@, now),
    {
        self.submit_poison_pill_safe(now, access);
    }

    /// Goes through the queues and gives each its pill; a queue whose lock is
    /// poisoned is passed over.
    fn submit_poison_pill_safe(&mut self, now: u64, access: &Vec<QueueAccess>)
        requires
            old(self).well_formed(),
            access@.len() == old(self).config().num_workers,
        ensures
            final(self).well_formed(),
            final(self).same_but_queues(old(self)),
            final(self).queues() == with_pills(old(self).queues(), access@, now),
    {
        let n: usize = self.config.num_workers;
        let mut i: usize = 0;
        while i < n
            invariant
                self.well_formed(),
                self.same_but_queues(old(self)),
                n == self.config().num_workers,
                access@.len() == n,
                i <= n,
                self.queues().len() == n,
                old(self).queues().len() == n,
                forall|k: int|
                    0 <= k < n ==> #[trigger] self.queues()[k] == if k < i {
                        with_pills(old(self).queues(), access@, now)[k]
                    } else {
                        old(self).queues()[k]
                    },
            decreases n - i,
        {
            match access[i] {
                QueueAccess::Poisoned => {},
                _ => {
                    let pill = PoisonPill.into_task(now);
                    self.push_to(i, pill);
                },
            }
            i = i + 1;
        }
        assert(self.queues() =~= with_pills(old(self).queues(), access@, now));
    }

    /// Looks for work among the peers of `worker_id`, in round robin from its
    /// right-hand neighbour on, and takes the newest task of the first peer
    /// whose lock is free and whose newest task is no poison pill.
    pub fn try_steal_work(&mut self, worker_id: usize, access: &Vec<QueueAccess>) -> (stolen:
        Option<ScheduledTask<T>>)
        requires
            old(self).well_formed(),
            worker_id < old(self).config().num_workers,
            access@.len() == old(self).config().num_workers,
        ensures
            final(self).well_formed(),
            final(self).same_but_queues(old(self)),
            match first_victim(old(self).queues(), access@, worker_id, 1) {
                Some(victim) => {
                    &&& 0 <= victim < old(self).queues().len()
                    &&& victim != worker_id
                    &&& stolen == Some(old(self).queues()[victim].last())
                    &&& !old(self).queues()[victim].last().is_poison_pill()
                    &&& final(self).queues() == old(self).queues().update(
                        victim,
                        old(self).queues()[victim].drop_last(),
                    )
                    &&& old(self).pending() == final(self).pending().insert(
                        old(self).queues()[victim].last(),
                    )
                },
                None => stolen.is_none() && final(self).queues() == old(self).queues(),
            },
    {
        let n: usize = self.config.num_workers;
        let mut search = StealSearch::new(worker_id, n);
        let mut next = search.next_victim();
        while next.is_some()
            invariant
                self.well_formed(),
                self.same_but_queues(old(self)),
                self.queues() == old(self).queues(),
                n == self.config().num_workers,
                self.queues().len() == n,
                access@.len() == n,
                search.well_formed(),
                search.worker_id() == worker_id,
                search.num_workers() == n,
                match next {
                    Some(v) => {
                        &&& 2 <= search.offset() <= n
                        &&& v == victim_at(worker_id, (search.offset() - 1) as usize, n)
                        &&& v < n
                        &&& v != worker_id
                        &&& first_victim(self.queues(), access@, worker_id, 1) == first_victim(
                            self.queues(),
                            access@,
                            worker_id,
                            (search.offset() - 1) as usize,
                        )
                    },
                    None => {
                        &&& search.offset() == n
                        &&& first_victim(self.queues(), access@, worker_id, 1).is_none()
                    },
                },
            decreases n + 1 - search.offset(), next.is_some() as int,
        {
            let victim: usize = next.unwrap();
            match access[victim] {
                QueueAccess::Free => {
                    let taken = self.steal_from(victim);
                    if taken.is_some() {
                        return taken;
                    }
                },
                _ => {},
            }
            proof {
                let tried = (search.offset() - 1) as usize;
                assert(!stealable(self.queues()[victim as int], access@[victim as int]));
                assert(first_victim(self.queues(), access@, worker_id, tried) == first_victim(
                    self.queues(),
                    access@,
                    worker_id,
                    search.offset(),
                ));
            }
            next = search.next_victim();
        }
        None
    }

    /// Steals from one queue, pills excepted.
    fn steal_from(&mut self, victim: usize) -> (stolen: Option<ScheduledTask<T>>)
        requires
            old(self).well_formed(),
            victim < old(self).config().num_workers,
        ensures
            final(self).well_formed(),
            final(self).same_but_queues(old(self)),
            match stolen {
                Some(task) => {
                    &&& stealable(old(self).queues()[victim as int], QueueAccess::Free)
                    &&& task == old(self).queues()[victim as int].last()
                    &&& final(self).queues() == old(self).queues().update(
                        victim as int,
                        old(self).queues()[victim as int].drop_last(),
                    )
                    &&& old(self).pending() == final(self).pending().insert(task)
                },
                None => {
                    &&& !stealable(old(self).queues()[victim as int], QueueAccess::Free)
                    &&& final(self).queues() == old(self).queues()
                },
            },
    {
        let stolen = self.worker_queues[victim].steal_work();
        proof {
            if stolen.is_some() {
                assert(self.queues() =~= old(self).queues().update(
                    victim as int,
                    old(self).queues()[victim as int].drop_last(),
                ));
                law_take_removes_one(old(self).queues(), victim as int);
            } else {
                assert(self.queues() =~= old(self).queues());
            }
        }
        stolen
    }

    /// Everything but the queues and the state of the workers is as in
    /// `before`.
    pub open spec fn same_setup_as(&self, before: &Self) -> bool {
        &&& self.config() == before.config()
        &&& self.is_started() == before.is_started()
        &&& self.supervisor_running() == before.supervisor_running()
        &&& self.is_shut_down() == before.is_shut_down()
        &&& self.task_counter() == before.task_counter()
    }

    /// Tells one worker of an event and passes its answer on.
    fn tell(&mut self, worker_id: usize, event: WorkerEvent<T>) -> (action: WorkerAction<T>)
        requires
            old(self).well_formed(),
            worker_id < old(self).config().num_workers,
            accepts(old(self).worker_states()[worker_id as int], event),
        ensures
            final(self).well_formed(),
            final(self).same_setup_as(old(self)),
            final(self).queues() == old(self).queues(),
            final(self).worker_states() == old(self).worker_states().update(
                worker_id as int,
                next_state(old(self).worker_states()[worker_id as int], event),
            ),
            action == next_action(old(self).config().enable_work_stealing, event),
    {
        let action = self.workers[worker_id].handle(event);
        proof {
            assert(self.worker_states() =~= old(self).worker_states().update(
                worker_id as int,
                next_state(old(self).worker_states()[worker_id as int], event),
            ));
            assert(self.queues() =~= old(self).queues());
        }
        action
    }

    /// Takes the oldest task of one queue.
    fn pop_from(&mut self, worker_id: usize) -> (task: Option<ScheduledTask<T>>)
        requires
            old(self).well_formed(),
            worker_id < old(self).config().num_workers,
        ensures
            final(self).well_formed(),
            final(self).same_but_queues(old(self)),
            match task {
                Some(first) => {
                    &&& old(self).queues()[worker_id as int].len() > 0
                    &&& first == old(self).queues()[worker_id as int].first()
                    &&& final(self).queues() == old(self).queues().update(
                        worker_id as int,
                        old(self).queues()[worker_id as int].drop_first(),
                    )
                    &&& old(self).pending() == final(self).pending().insert(first)
                },
                None => {
                    &&& old(self).queues()[worker_id as int].len() == 0
                    &&& final(self).queues() == old(self).queues()
                },
            },
    {
        let task = self.worker_queues[worker_id].pop();
        proof {
            if task.is_some() {
                assert(self.queues() =~= old(self).queues().update(
                    worker_id as int,
                    old(self).queues()[worker_id as int].drop_first(),
                ));
                law_take_removes_one(old(self).queues(), worker_id as int);
            } else {
                assert(self.queues() =~= old(self).queues());
            }
        }
        task
    }

    /// One turn of an idle worker through its loop, up to the point where it
    /// needs the world outside: a payload to run, a sleep, a yield, or its
    /// exit.
    ///
    /// The worker exits if the shutdown flag is set or the lock of its queue
    /// is poisoned. Else it takes the oldest task of its queue: a poison pill
    /// makes it exit, any other task is handed out to run. If its queue is
    /// empty it steals, if it may, and runs what it stole or yields; if it
    /// may not steal, it waits.
    pub fn worker_turn(&mut self, worker_id: usize, access: &Vec<QueueAccess>) -> (action:
        WorkerAction<T>)
        requires
            old(self).well_formed(),
            old(self).is_started(),
            worker_id < old(self).config().num_workers,
            access@.len() == old(self).config().num_workers,
            old(self).worker_states()[worker_id as int] == WorkerState::Idle,
        ensures
            final(self).well_formed(),
            final(self).same_setup_as(old(self)),
            ({
                let me = worker_id as int;
                let queues = old(self).queues();
                let states = old(self).worker_states();
                if old(self).is_shut_down() {
                    &&& action == WorkerAction::<T>::Exit(ExitReason::ShutdownObserved)
                    &&& final(self).worker_states() == states.update(me, WorkerState::Exited)
                    &&& final(self).queues() == queues
                } else if access@[me] is Poisoned {
                    &&& action == WorkerAction::<T>::Exit(ExitReason::LockPoisoned)
                    &&& final(self).worker_states() == states.update(me, WorkerState::Exited)
                    &&& final(self).queues() == queues
                } else if queues[me].len() > 0 {
                    let first = queues[me].first();
                    &&& final(self).queues() == queues.update(me, queues[me].drop_first())
                    &&& old(self).pending() == final(self).pending().insert(first)
                    &&& if first.is_poison_pill() {
                        &&& action == WorkerAction::<T>::Exit(ExitReason::PoisonPill)
                        &&& final(self).worker_states() == states.update(me, WorkerState::Exited)
                    } else {
                        &&& action == WorkerAction::Execute(first)
                        &&& final(self).worker_states() == states.update(
                            me,
                            WorkerState::Running,
                        )
                    }
                } else if !old(self).config().enable_work_stealing {
                    &&& action == WorkerAction::<T>::Wait
                    &&& final(self).worker_states() == states
                    &&& final(self).queues() == queues
                } else {
                    match first_victim(queues, access@, worker_id, 1) {
                        Some(victim) => {
                            let stolen = queues[victim].last();
                            &&& 0 <= victim < queues.len()
                            &&& victim != me
                            &&& !stolen.is_poison_pill()
                            &&& action == WorkerAction::Execute(stolen)
                            &&& final(self).worker_states() == states.update(
                                me,
                                WorkerState::Running,
                            )
                            &&& final(self).queues() == queues.update(
                                victim,
                                queues[victim].drop_last(),
                            )
                            &&& old(self).pending() == final(self).pending().insert(stolen)
                        },
                        None => {
                            &&& action == WorkerAction::<T>::Yield
                            &&& final(self).worker_states() == states
                            &&& final(self).queues() == queues
                        },
                    }
                }
            }),
    {
        let ghost states = self.worker_states();
        if self.shutdown {
            return self.tell(worker_id, WorkerEvent::ShutdownSet);
        }
        match access[worker_id] {
            QueueAccess::Poisoned => {
                return self.tell(worker_id, WorkerEvent::LockPoisoned);
            },
            _ => {},
        }
        match self.pop_from(worker_id) {
            Some(task) => {
                return self.tell(worker_id, WorkerEvent::OwnTask(task));
            },
            None => {},
        }
        match self.tell(worker_id, WorkerEvent::OwnQueueEmpty) {
            WorkerAction::TrySteal => {},
            other => {
                assert(self.worker_states() =~= states);
                return other;
            },
        }
        assert(self.worker_states() =~= states);
        match self.try_steal_work(worker_id, access) {
            Some(task) => self.tell(worker_id, WorkerEvent::Stolen(task)),
            None => {
                let action = self.tell(worker_id, WorkerEvent::NothingStolen);
                assert(self.worker_states() =~= states);
                action
            },
        }
    }

    /// Takes note that the payload handed to a worker has finished. The
    /// worker is idle again, whether the payload completed or panicked.
    pub fn task_finished(&mut self, worker_id: usize, outcome: TaskOutcome)
        requires
            old(self).well_formed(),
            worker_id < old(self).config().num_workers,
            old(self).worker_states()[worker_id as int] == WorkerState::Running,
        ensures
            final(self).well_formed(),
            final(self).same_setup_as(old(self)),
            final(self).queues() == old(self).queues(),
            final(self).worker_states() == old(self).worker_states().update(
                worker_id as int,
                WorkerState::Idle,
            ),
    {
        let _ = self.tell(worker_id, WorkerEvent::TaskFinished(outcome));
    }

    /// One round of the supervisor: looks into every queue whose lock is
    /// free and reports the tasks that have waited longer than the timeout.
    /// Nothing is taken out of a queue or moved within it.
    pub fn supervisor_scan(&self, now: u64, access: &Vec<QueueAccess>) -> (reports: Vec<StaleTask>)
        requires
            self.well_formed(),
            access@.len() == self.config().num_workers,
        ensures
            reports@ == scan_reports(
                self.queues(),
                access@,
                now,
                self.config().timeout_seconds,
                self.config().num_workers as int,
            ),
    {
        let n: usize = self.config.num_workers;
        let mut reports: Vec<StaleTask> = Vec::new();
        let mut i: usize = 0;
        while i < n
            invariant
                self.well_formed(),
                n == self.config().num_workers,
                access@.len() == n,
                i <= n,
                reports@ == scan_reports(
                    self.queues(),
                    access@,
                    now,
                    self.config().timeout_seconds,
                    i as int,
                ),
            decreases n - i,
        {
            match access[i] {
                QueueAccess::Free => {
                    let mut found = self.worker_queues[i].stale_tasks(
                        i,
                        now,
                        self.config.timeout_seconds,
                    );
                    reports.append(&mut found);
                },
                _ => {},
            }
            i = i + 1;
        }
        reports
    }

    /// The supervisor wakes up: if the shutdown flag is set, or no supervisor
    /// is running, it stops and reports nothing; else it makes its round.
    pub fn supervisor_loop(&mut self, now: u64, access: &Vec<QueueAccess>) -> (reports: Option<
        Vec<StaleTask>,
    >)
        requires
            old(self).well_formed(),
            access@.len() == old(self).config().num_workers,
        ensures
            final(self).well_formed(),
            final(self).config() == old(self).config(),
            final(self).is_started() == old(self).is_started(),
            final(self).is_shut_down() == old(self).is_shut_down(),
            final(self).task_counter() == old(self).task_counter(),
            final(self).queues() == old(self).queues(),
            final(self).worker_states() == old(self).worker_states(),
            final(self).supervisor_running() == (old(self).supervisor_running() && !old(
                self,
            ).is_shut_down()),
            match reports {
                Some(found) => final(self).supervisor_running() && found@ == scan_reports(
                    old(self).queues(),
                    access@,
                    now,
                    old(self).config().timeout_seconds,
                    old(self).config().num_workers as int,
                ),
                None => !final(self).supervisor_running(),
            },
    {
        if !self.supervisor_running {
            return None;
        }
        if self.shutdown {
            self.supervisor_running = false;
            return None;
        }
        Some(self.supervisor_scan(now, access))
    }

    /// Shuts the scheduler down: sets the shutdown flag, gives every queue
    /// its poison pill, and waits for the workers and the supervisor to
    /// leave. A worker that is running a payload finishes it first. Tasks
    /// that are still waiting stay in their queues and are never run.
    pub fn shutdown(&mut self, now: u64, access: &Vec<QueueAccess>) -> (report: ShutdownReport)
        requires
            old(self).well_formed(),
            access@.len() == old(self).config().num_workers,
        ensures
            final(self).well_formed(),
            final(self).config() == old(self).config(),
            final(self).is_started() == old(self).is_started(),
            final(self).task_counter() == old(self).task_counter(),
            final(self).is_shut_down(),
            !final(self).supervisor_running(),
            report.supervisor_exited == old(self).supervisor_running(),
            final(self).queues() == with_pills(old(self).queues(), access@, now),
            old(self).is_started() ==> {
                &&& final(self).worker_states() == Seq::new(
                    old(self).worker_states().len(),
                    |i: int| WorkerState::Exited,
                )
                &&& report.worker_exits == live_workers(old(self).worker_states())
            },
            !old(self).is_started() ==> {
                &&& final(self).worker_states() == old(self).worker_states()
                &&& report.worker_exits == 0
            },
            old(self).is_started() && (forall|i: int|
                0 <= i < old(self).worker_states().len() ==> old(self).worker_states()[i]
                    != WorkerState::Exited) ==> report.worker_exits == old(
                self,
            ).config().num_workers,
    {
        let supervisor_exited = self.supervisor_running;
        self.shutdown = true;
        self.supervisor_running = false;
        assert(self.queues() == old(self).queues());
        assert(self.worker_states() == old(self).worker_states());
        self.submit_poison_pill_safe(now, access);
        let n: usize = self.config.num_workers;
        let mut worker_exits: usize = 0;
        if self.started {
            let mut i: usize = 0;
            while i < n
                invariant
                    self.well_formed(),
                    self.config() == old(self).config(),
                    self.is_started() == old(self).is_started(),
                    self.task_counter() == old(self).task_counter(),
                    self.is_shut_down(),
                    !self.supervisor_running(),
                    self.queues() == with_pills(old(self).queues(), access@, now),
                    n == self.config().num_workers,
                    old(self).worker_states().len() == n,
                    i <= n,
                    worker_exits <= i,
                    worker_exits == live_workers(old(self).worker_states().take(i as int)),
                    self.worker_states() == Seq::new(
                        n as nat,
                        |k: int|
                            if k < i {
                                WorkerState::Exited
                            } else {
                                old(self).worker_states()[k]
                            },
                    ),
                decreases n - i,
            {
                let ghost before = self.worker_states();
                let state = self.workers[i].state;
                assert(state == before[i as int]);
                match state {
                    WorkerState::Exited => {},
                    WorkerState::Idle => {
                        let _ = self.tell(i, WorkerEvent::ShutdownSet);
                        worker_exits = worker_exits + 1;
                    },
                    WorkerState::Running => {
                        let _ = self.tell(i, WorkerEvent::TaskFinished(TaskOutcome::Completed));
                        let _ = self.tell(i, WorkerEvent::ShutdownSet);
                        worker_exits = worker_exits + 1;
                    },
                }
                proof {
                    let upto = old(self).worker_states().take(i as int + 1);
                    assert(upto.drop_last() =~= old(self).worker_states().take(i as int));
                    assert(self.worker_states() =~= Seq::new(
                        n as nat,
                        |k: int|
                            if k < i + 1 {
                                WorkerState::Exited
                            } else {
                                old(self).worker_states()[k]
                            },
                    ));
                }
                i = i + 1;
            }
            proof {
                assert(old(self).worker_states().take(n as int) =~= old(self).worker_states());
                assert(self.worker_states() =~= Seq::new(
                    old(self).worker_states().len(),
                    |i: int| WorkerState::Exited,
                ));
                law_every_worker_exits(old(self).worker_states());
            }
        }
        ShutdownReport { worker_exits, supervisor_exited }
    }
}

/// Identifiers do not repeat before the counter has gone round: the
/// identifier after a counter is not that counter, two counters that differ
/// are followed by identifiers that differ, and the identifier of the poison
/// pill is given out only when the counter stands one below it.
pub proof fn law_identifiers_distinct(first: u64, second: u64)
    ensures
        next_id(first) != first,
        first != second ==> next_id(first) != next_id(second),
        next_id(first) == crate::task::POISON_PILL_ID <==> first == u64::MAX - 1,
{
}

/// Shutdown ends every worker: as many workers leave their loop during a
/// shutdown as were alive before it, and that is all of them unless some had
/// exited before.
pub proof fn law_every_worker_exits(states: Seq<WorkerState>)
    ensures
        live_workers(states) <= states.len(),
        (forall|i: int| 0 <= i < states.len() ==> states[i] != WorkerState::Exited)
            ==> live_workers(states) == states.len(),
    decreases states.len(),
{
    if states.len() > 0 {
        law_every_worker_exits(states.drop_last());
        if forall|i: int| 0 <= i < states.len() ==> states[i] != WorkerState::Exited {
            assert forall|i: int| 0 <= i < states.drop_last().len() implies states.drop_last()[i]
                != WorkerState::Exited by {
                assert(states.drop_last()[i] == states[i]);
            }
        }
    }
}

/// The supervisor warns of every stale task that it can see: if the lock of
/// a queue is free, each task of that queue whose age exceeds the timeout is
/// in the reports of the round, with its identifier, worker, position and
/// age.
pub proof fn law_supervisor_warns<T>(
    queues: Seq<Seq<ScheduledTask<T>>>,
    access: Seq<QueueAccess>,
    now: u64,
    timeout_seconds: u64,
    worker_id: usize,
    position: int,
)
    requires
        worker_id < queues.len(),
        access[worker_id as int] is Free,
        0 <= position < queues[worker_id as int].len() <= usize::MAX,
        queues[worker_id as int][position].is_stale(now, timeout_seconds),
    ensures
        scan_reports(queues, access, now, timeout_seconds, queues.len() as int).contains(
            report_on(
                queues[worker_id as int][position],
                worker_id,
                position,
                now,
                timeout_seconds,
            ),
        ),
{
    let report = report_on(
        queues[worker_id as int][position],
        worker_id,
        position,
        now,
        timeout_seconds,
    );
    law_stale_tasks_reported(queues[worker_id as int], worker_id, now, timeout_seconds);
    lemma_scan_keeps(queues, access, now, timeout_seconds, worker_id as int + 1, report);
    lemma_scan_grows(
        queues,
        access,
        now,
        timeout_seconds,
        worker_id as int + 1,
        queues.len() as int,
        report,
    );
}

/// A report on a task of the queue scanned last is among the reports.
proof fn lemma_scan_keeps<T>(
    queues: Seq<Seq<ScheduledTask<T>>>,
    access: Seq<QueueAccess>,
    now: u64,
    timeout_seconds: u64,
    upto: int,
    report: StaleTask,
)
    requires
        0 < upto,
        access[upto - 1] is Free,
        stale_reports(queues[upto - 1], (upto - 1) as usize, now, timeout_seconds).contains(
            report,
        ),
    ensures
        scan_reports(queues, access, now, timeout_seconds, upto).contains(report),
{
    let earlier = scan_reports(queues, access, now, timeout_seconds, upto - 1);
    let own = stale_reports(queues[upto - 1], (upto - 1) as usize, now, timeout_seconds);
    let k = choose|k: int| 0 <= k < own.len() && own[k] == report;
    assert((earlier + own)[earlier.len() + k] == report);
}

/// What has been reported stays reported as the scan goes on.
proof fn lemma_scan_grows<T>(
    queues: Seq<Seq<ScheduledTask<T>>>,
    access: Seq<QueueAccess>,
    now: u64,
    timeout_seconds: u64,
    from: int,
    upto: int,
    report: StaleTask,
)
    requires
        from <= upto,
        scan_reports(queues, access, now, timeout_seconds, from).contains(report),
    ensures
        scan_reports(queues, access, now, timeout_seconds, upto).contains(report),
    decreases upto - from,
{
    if from < upto {
        lemma_scan_grows(queues, access, now, timeout_seconds, from, upto - 1, report);
        let earlier = scan_reports(queues, access, now, timeout_seconds, upto - 1);
        let k = choose|k: int| 0 <= k < earlier.len() && earlier[k] == report;
        if access[upto - 1] is Free {
            let own = stale_reports(queues[upto - 1], (upto - 1) as usize, now, timeout_seconds);
            assert((earlier + own)[k] == report);
        }
    }
}

} // verus!
