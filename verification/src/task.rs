//! Tasks as the scheduler sees them: an opaque payload plus metadata.

use vstd::prelude::*;

verus! {

/// The identifier reserved for poison pills.
pub const POISON_PILL_ID: u64 = 0xffff_ffff_ffff_ffff;

/// Nanoseconds in one second.
pub const NANOS_PER_SECOND: u64 = 1_000_000_000;

/// What the scheduler records about a task when it is submitted.
///
/// `submitted_at` is a reading of a monotonic clock, in nanoseconds.
#[derive(Clone, Copy, Debug, PartialEq, Eq, Structural)]
pub struct TaskMetadata {
    pub id: u64,
    pub submitted_at: u64,
}

/// A task together with its metadata.
///
/// The payload is whatever the caller runs when the task is executed; the
/// scheduler never looks inside it. A poison pill carries no payload.
pub struct ScheduledTask<T> {
    pub task: Option<T>,
    pub metadata: TaskMetadata,
}

/// Marker for the sentinel task that tells the consuming worker to exit.
#[derive(Clone, Copy, Debug, PartialEq, Eq, Structural)]
pub struct PoisonPill;

/// The poison pill submitted at the given time.
pub open spec fn poison_pill<T>(submitted_at: u64) -> ScheduledTask<T> {
    ScheduledTask { task: None, metadata: TaskMetadata { id: POISON_PILL_ID, submitted_at } }
}

impl<T> ScheduledTask<T> {
    /// A task is a poison pill exactly when it carries the reserved identifier.
    pub open spec fn is_poison_pill(&self) -> bool {
        self.metadata.id == POISON_PILL_ID
    }

    /// Wraps a payload with the identifier and submission time it was given.
    pub fn new(task: T, id: u64, submitted_at: u64) -> (scheduled: Self)
        ensures
            scheduled.task == Some(task),
            scheduled.metadata == (TaskMetadata { id, submitted_at }),
    {
        ScheduledTask { task: Some(task), metadata: TaskMetadata { id, submitted_at } }
    }

    /// Whether the task is a poison pill.
    pub fn is_pill(&self) -> (pill: bool)
        ensures
            pill == self.is_poison_pill(),
    {
        self.metadata.id == POISON_PILL_ID
    }

    /// How long the task has been waiting at `now`, in nanoseconds; zero when
    /// `now` lies before the submission.
    pub open spec fn age_at(&self, now: u64) -> nat {
        if now >= self.metadata.submitted_at {
            (now - self.metadata.submitted_at) as nat
        } else {
            0
        }
    }

    /// A task is stale at `now` when its age exceeds the timeout.
    pub open spec fn is_stale(&self, now: u64, timeout_seconds: u64) -> bool {
        self.age_at(now) > timeout_seconds * NANOS_PER_SECOND
    }

    /// Computes the age of the task at `now`.
    pub fn age(&self, now: u64) -> (age: u64)
        ensures
            age == self.age_at(now),
    {
        if now >= self.metadata.submitted_at {
            now - self.metadata.submitted_at
        } else {
            0
        }
    }
}

impl PoisonPill {
    /// Builds the sentinel task: no payload, the reserved identifier.
    pub fn into_task<T>(self, submitted_at: u64) -> (scheduled: ScheduledTask<T>)
        ensures
            scheduled == poison_pill::<T>(submitted_at),
            scheduled.is_poison_pill(),
    {
        ScheduledTask { task: None, metadata: TaskMetadata { id: POISON_PILL_ID, submitted_at } }
    }
}

} // verus!
