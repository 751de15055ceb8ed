//! The life of one worker, as a state machine.
//!
//! The caller does what cannot be decided here: it reads the shutdown flag,
//! takes locks, waits, and runs task payloads. After each such step it reports
//! what happened as a [`WorkerEvent`]; [`Worker::handle`] answers with the
//! next thing to do.

use vstd::prelude::*;
use crate::task::ScheduledTask;

verus! {

/// Where a worker stands.
#[derive(Clone, Copy, Debug, PartialEq, Eq, Structural)]
pub enum WorkerState {
    /// Looking or waiting for work.
    Idle,
    /// A task payload has been handed out and has not finished yet.
    Running,
    /// The worker has left its loop for good.
    Exited,
}

/// Why a worker left its loop.
#[derive(Clone, Copy, Debug, PartialEq, Eq, Structural)]
pub enum ExitReason {
    ShutdownObserved,
    PoisonPill,
    LockPoisoned,
}

/// How the execution of a task payload ended.
#[derive(Clone, Copy, Debug, PartialEq, Eq, Structural)]
pub enum TaskOutcome {
    Completed,
    Panicked,
}

/// What the caller observed since the last answer.
pub enum WorkerEvent<T> {
    /// The shutdown flag was read and found set.
    ShutdownSet,
    /// A lock was found poisoned.
    LockPoisoned,
    /// The front task of the worker's own queue was taken.
    OwnTask(ScheduledTask<T>),
    /// The worker's own queue was found empty.
    OwnQueueEmpty,
    /// A task was stolen from a peer.
    Stolen(ScheduledTask<T>),
    /// No peer had a task to steal.
    NothingStolen,
    /// The worker has slept or yielded as it was told to.
    Resumed,
    /// The payload handed out last has finished.
    TaskFinished(TaskOutcome),
}

/// What the caller is to do next.
pub enum WorkerAction<T> {
    /// Run the payload under panic isolation, then report `TaskFinished`.
    Execute(ScheduledTask<T>),
    /// Check the shutdown flag, then take the front of the own queue.
    LookForWork,
    /// Try to steal from the peers.
    TrySteal,
    /// Sleep on the worker's wakeup until notified, then report `Resumed`.
    Wait,
    /// Yield the thread, then report `Resumed`.
    Yield,
    /// Leave the loop.
    Exit(ExitReason),
}

/// One worker: its index, whether it may steal, and its state.
pub struct Worker {
    pub worker_id: usize,
    pub stealing: bool,
    pub state: WorkerState,
}

/// The events that a worker in `state` can be told of: a running worker only
/// that its task has finished, an idle worker anything else, a worker that
/// has exited nothing. A stolen task is never a poison pill, because stealing
/// hands those back to the queue they were found in.
pub open spec fn accepts<T>(state: WorkerState, event: WorkerEvent<T>) -> bool {
    match state {
        WorkerState::Exited => false,
        WorkerState::Running => event is TaskFinished,
        WorkerState::Idle => match event {
            WorkerEvent::TaskFinished(_) => false,
            WorkerEvent::Stolen(task) => !task.is_poison_pill(),
            _ => true,
        },
    }
}

/// The state that follows `state` on `event`.
pub open spec fn next_state<T>(state: WorkerState, event: WorkerEvent<T>) -> WorkerState {
    match event {
        WorkerEvent::ShutdownSet => WorkerState::Exited,
        WorkerEvent::LockPoisoned => WorkerState::Exited,
        WorkerEvent::OwnTask(task) => if task.is_poison_pill() {
            WorkerState::Exited
        } else {
            WorkerState::Running
        },
        WorkerEvent::Stolen(_) => WorkerState::Running,
        WorkerEvent::OwnQueueEmpty => WorkerState::Idle,
        WorkerEvent::NothingStolen => WorkerState::Idle,
        WorkerEvent::Resumed => WorkerState::Idle,
        WorkerEvent::TaskFinished(_) => WorkerState::Idle,
    }
}

/// The answer to `event`, for a worker that may steal or not.
pub open spec fn next_action<T>(stealing: bool, event: WorkerEvent<T>) -> WorkerAction<T> {
    match event {
        WorkerEvent::ShutdownSet => WorkerAction::Exit(ExitReason::ShutdownObserved),
        WorkerEvent::LockPoisoned => WorkerAction::Exit(ExitReason::LockPoisoned),
        WorkerEvent::OwnTask(task) => if task.is_poison_pill() {
            WorkerAction::Exit(ExitReason::PoisonPill)
        } else {
            WorkerAction::Execute(task)
        },
        WorkerEvent::Stolen(task) => WorkerAction::Execute(task),
        WorkerEvent::OwnQueueEmpty => if stealing {
            WorkerAction::TrySteal
        } else {
            WorkerAction::Wait
        },
        WorkerEvent::NothingStolen => WorkerAction::Yield,
        WorkerEvent::Resumed => WorkerAction::LookForWork,
        WorkerEvent::TaskFinished(_) => WorkerAction::LookForWork,
    }
}

impl Worker {
    /// A worker that has not looked for work yet.
    pub fn new(worker_id: usize, stealing: bool) -> (worker: Self)
        ensures
            worker.worker_id == worker_id,
            worker.stealing == stealing,
            worker.state == WorkerState::Idle,
    {
        Worker { worker_id, stealing, state: WorkerState::Idle }
    }

    /// Tells whether `event` is one that the worker can be told of now.
    pub fn can_handle<T>(&self, event: &WorkerEvent<T>) -> (ok: bool)
        ensures
            ok == accepts(self.state, *event),
    {
        match self.state {
            WorkerState::Exited => false,
            WorkerState::Running => match event {
                WorkerEvent::TaskFinished(_) => true,
                _ => false,
            },
            WorkerState::Idle => match event {
                WorkerEvent::TaskFinished(_) => false,
                WorkerEvent::Stolen(task) => !task.is_pill(),
                _ => true,
            },
        }
    }

    /// Takes note of `event` and says what to do next.
    pub fn handle<T>(&mut self, event: WorkerEvent<T>) -> (action: WorkerAction<T>)
        requires
            accepts(old(self).state, event),
        ensures
            final(self).state == next_state(old(self).state, event),
            action == next_action(old(self).stealing, event),
            final(self).worker_id == old(self).worker_id,
            final(self).stealing == old(self).stealing,
    {
        match event {
            WorkerEvent::ShutdownSet => {
                self.state = WorkerState::Exited;
                WorkerAction::Exit(ExitReason::ShutdownObserved)
            },
            WorkerEvent::LockPoisoned => {
                self.state = WorkerState::Exited;
                WorkerAction::Exit(ExitReason::LockPoisoned)
            },
            WorkerEvent::OwnTask(task) => {
                if task.is_pill() {
                    self.state = WorkerState::Exited;
                    WorkerAction::Exit(ExitReason::PoisonPill)
                } else {
                    self.state = WorkerState::Running;
                    WorkerAction::Execute(task)
                }
            },
            WorkerEvent::Stolen(task) => {
                self.state = WorkerState::Running;
                WorkerAction::Execute(task)
            },
            WorkerEvent::OwnQueueEmpty => {
                if self.stealing {
                    WorkerAction::TrySteal
                } else {
                    WorkerAction::Wait
                }
            },
            WorkerEvent::NothingStolen => WorkerAction::Yield,
            WorkerEvent::Resumed => WorkerAction::LookForWork,
            WorkerEvent::TaskFinished(_) => {
                self.state = WorkerState::Idle;
                WorkerAction::LookForWork
            },
        }
    }
}

/// A task body that panics does not take its worker down: when the payload
/// has finished, however it ended, the worker is idle again and looks for
/// work, and the next task it takes from its queue is handed out to run.
pub proof fn law_worker_survives_panic<T>(
    stealing: bool,
    outcome: TaskOutcome,
    next: ScheduledTask<T>,
)
    requires
        !next.is_poison_pill(),
    ensures
        accepts::<T>(WorkerState::Running, WorkerEvent::TaskFinished(outcome)),
        next_state::<T>(WorkerState::Running, WorkerEvent::TaskFinished(outcome))
            == WorkerState::Idle,
        next_action::<T>(stealing, WorkerEvent::TaskFinished(outcome))
            == WorkerAction::<T>::LookForWork,
        accepts(WorkerState::Idle, WorkerEvent::OwnTask(next)),
        next_state(WorkerState::Idle, WorkerEvent::OwnTask(next)) == WorkerState::Running,
        next_action(stealing, WorkerEvent::OwnTask(next)) == WorkerAction::Execute(next),
{
}

/// A worker leaves its loop on exactly three events: the shutdown flag found
/// set, a poisoned lock, and a poison pill at the front of its own queue.
pub proof fn law_worker_exits<T>(state: WorkerState, event: WorkerEvent<T>)
    requires
        accepts(state, event),
    ensures
        next_state(state, event) == WorkerState::Exited <==> (event is ShutdownSet
            || event is LockPoisoned || (event matches WorkerEvent::OwnTask(task)
            && task.is_poison_pill())),
{
}

} // verus!
