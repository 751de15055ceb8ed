//! Scheduler configuration.

use vstd::prelude::*;

verus! {

/// The number of workers used when the hardware parallelism is unknown.
pub const FALLBACK_WORKERS: usize = 4;

/// The timeout, in seconds, of the default configuration.
pub const DEFAULT_TIMEOUT_SECONDS: u64 = 30;

/// How a scheduler is set up.
///
/// `timeout_seconds == 0` switches the supervisor off.
#[derive(Clone, Copy, Debug, PartialEq, Eq, Structural)]
pub struct SchedulerConfig {
    pub num_workers: usize,
    pub timeout_seconds: u64,
    pub enable_work_stealing: bool,
}

/// The number of workers to use, given what the platform reports as its
/// parallelism: that number, or the fallback when nothing usable is reported.
pub open spec fn worker_count(detected: Option<usize>) -> usize {
    match detected {
        Some(n) => if n >= 1 { n } else { FALLBACK_WORKERS },
        None => FALLBACK_WORKERS,
    }
}

/// Computes the number of workers for the detected parallelism.
pub fn get(detected: Option<usize>) -> (n: usize)
    ensures
        n == worker_count(detected),
        n >= 1,
{
    match detected {
        Some(n) => if n >= 1 { n } else { FALLBACK_WORKERS },
        None => FALLBACK_WORKERS,
    }
}

impl SchedulerConfig {
    /// A configuration is usable when it has at least one worker.
    pub open spec fn is_valid(&self) -> bool {
        self.num_workers >= 1
    }

    /// Whether a supervisor watches the queues under this configuration.
    pub open spec fn supervised(&self) -> bool {
        self.timeout_seconds > 0
    }

    /// The default configuration for the detected parallelism: one worker
    /// per hardware thread, a timeout of thirty seconds, stealing switched on.
    pub fn with_parallelism(detected: Option<usize>) -> (config: Self)
        ensures
            config == (SchedulerConfig {
                num_workers: worker_count(detected),
                timeout_seconds: DEFAULT_TIMEOUT_SECONDS,
                enable_work_stealing: true,
            }),
            config.is_valid(),
    {
        SchedulerConfig {
            num_workers: get(detected),
            timeout_seconds: DEFAULT_TIMEOUT_SECONDS,
            enable_work_stealing: true,
        }
    }
}

} // verus!
