use std::cell::Cell;
use std::rc::Rc;

use worksteal::config::{get, SchedulerConfig};
use worksteal::scheduler::{
    after_round, next_task_id, QueueAccess, ShutdownReport, SubmitError, SubmitStep,
    TaskScheduler, MAX_ATTEMPTS,
};
use worksteal::task::{ScheduledTask, POISON_PILL_ID};
use worksteal::worker::{ExitReason, TaskOutcome, WorkerAction, WorkerState};

type Task = Box<dyn FnOnce()>;

fn free(n: usize) -> Vec<QueueAccess> {
    vec![QueueAccess::Free; n]
}

fn run(
    scheduler: &mut TaskScheduler<Task>,
    worker_id: usize,
    access: &Vec<QueueAccess>,
) -> Option<u64> {
    match scheduler.worker_turn(worker_id, access) {
        WorkerAction::Execute(ScheduledTask { task, metadata }) => {
            if let Some(body) = task {
                body();
            }
            scheduler.task_finished(worker_id, TaskOutcome::Completed);
            Some(metadata.id)
        }
        _ => None,
    }
}

#[test]
fn test_scheduler_creation() {
    let detected = None;
    let config = SchedulerConfig::with_parallelism(detected);
    let scheduler: TaskScheduler<Task> = TaskScheduler::new(config);
    assert_eq!(scheduler.num_workers(), get(detected));
}

#[test]
fn test_task_submission_and_execution() {
    let config = SchedulerConfig { num_workers: 2, timeout_seconds: 5, enable_work_stealing: true };

    let mut scheduler: TaskScheduler<Task> = TaskScheduler::new(config);
    scheduler.start();
    let access = free(2);

    let counter = Rc::new(Cell::new(0usize));
    let counter_clone = Rc::clone(&counter);

    let task_id = scheduler
        .submit(Box::new(move || counter_clone.set(counter_clone.get() + 1)), 0, &access)
        .unwrap();

    assert!(task_id > 0);

    run(&mut scheduler, 0, &access);
    run(&mut scheduler, 1, &access);

    assert_eq!(counter.get(), 1);

    scheduler.shutdown(100, &access);
}

#[test]
fn test_multiple_tasks() {
    let config = SchedulerConfig { num_workers: 2, timeout_seconds: 5, enable_work_stealing: true };

    let mut scheduler: TaskScheduler<Task> = TaskScheduler::new(config);
    scheduler.start();
    let access = free(2);

    let counter = Rc::new(Cell::new(0usize));

    for _ in 0..10 {
        let counter_clone = Rc::clone(&counter);
        scheduler
            .submit(Box::new(move || counter_clone.set(counter_clone.get() + 1)), 0, &access)
            .unwrap();
    }

    for _ in 0..10 {
        run(&mut scheduler, 0, &access);
        run(&mut scheduler, 1, &access);
    }

    assert_eq!(counter.get(), 10);

    scheduler.shutdown(200, &access);
}

#[test]
fn test_shutdown_after_poison_pill() {
    let config =
        SchedulerConfig { num_workers: 1, timeout_seconds: 5, enable_work_stealing: false };

    let mut scheduler: TaskScheduler<Task> = TaskScheduler::new(config);
    scheduler.start();
    let access = free(1);

    scheduler.submit_poison_pill(0, &access);

    let report = scheduler.shutdown(1, &access);
    assert_eq!(report, ShutdownReport { worker_exits: 1, supervisor_exited: true });
    assert!(scheduler.shutting_down());
    assert_eq!(scheduler.worker_state(0), WorkerState::Exited);
}

#[test]
fn default_configuration() {
    let config = SchedulerConfig::with_parallelism(Some(8));
    assert_eq!(
        config,
        SchedulerConfig { num_workers: 8, timeout_seconds: 30, enable_work_stealing: true }
    );
    assert_eq!(get(None), 4);
    assert_eq!(get(Some(0)), 4);
    assert_eq!(get(Some(1)), 1);
}

#[test]
fn submit_goes_to_the_shortest_free_queue() {
    let config = SchedulerConfig { num_workers: 3, timeout_seconds: 0, enable_work_stealing: true };
    let mut scheduler: TaskScheduler<u32> = TaskScheduler::new(config);
    let access = free(3);
    assert_eq!(scheduler.submit(10, 0, &access), Ok(1));
    assert_eq!(scheduler.submit(11, 0, &access), Ok(2));
    assert_eq!(scheduler.submit(12, 0, &access), Ok(3));
    assert_eq!(scheduler.submit(13, 0, &access), Ok(4));
    assert_eq!(scheduler.queue_len(0), 2);
    assert_eq!(scheduler.queue_len(1), 1);
    assert_eq!(scheduler.queue_len(2), 1);

    let busy_first = vec![QueueAccess::Busy, QueueAccess::Free, QueueAccess::Free];
    assert_eq!(scheduler.submit(14, 0, &busy_first), Ok(5));
    assert_eq!(scheduler.queue_len(1), 2);
    assert_eq!(scheduler.submit(15, 0, &busy_first), Ok(6));
    assert_eq!(scheduler.queue_len(2), 2);
}

#[test]
fn submit_blocks_on_the_first_queue_when_nothing_is_free() {
    let config = SchedulerConfig { num_workers: 2, timeout_seconds: 0, enable_work_stealing: true };
    let mut scheduler: TaskScheduler<u32> = TaskScheduler::new(config);
    let busy = vec![QueueAccess::Busy, QueueAccess::Busy];
    assert_eq!(scheduler.submit(1, 0, &busy), Ok(1));
    assert_eq!(scheduler.queue_len(0), 1);
    assert_eq!(scheduler.queue_len(1), 0);
}

#[test]
fn submit_errors() {
    let config = SchedulerConfig { num_workers: 2, timeout_seconds: 0, enable_work_stealing: true };
    let mut scheduler: TaskScheduler<u32> = TaskScheduler::new(config);
    let stuck = vec![QueueAccess::Poisoned, QueueAccess::Busy];
    assert_eq!(scheduler.submit(1, 0, &stuck), Err(SubmitError::SubmissionExhausted));
    assert_eq!(scheduler.queue_len(0), 0);
    assert_eq!(scheduler.queue_len(1), 0);
    // the identifier is used up all the same
    assert_eq!(scheduler.submit(2, 0, &free(2)), Ok(2));

    scheduler.shutdown(0, &free(2));
    assert_eq!(scheduler.submit(3, 0, &free(2)), Err(SubmitError::ShuttingDown));
}

#[test]
fn worker_takes_its_own_tasks_in_order() {
    let config =
        SchedulerConfig { num_workers: 1, timeout_seconds: 0, enable_work_stealing: false };
    let mut scheduler: TaskScheduler<u32> = TaskScheduler::new(config);
    scheduler.start();
    let access = free(1);
    for payload in [7u32, 8, 9] {
        scheduler.submit(payload, 0, &access).unwrap();
    }
    for expected in [7u32, 8, 9] {
        match scheduler.worker_turn(0, &access) {
            WorkerAction::Execute(task) => assert_eq!(task.task, Some(expected)),
            _ => panic!("a task was waiting"),
        }
        scheduler.task_finished(0, TaskOutcome::Completed);
    }
    assert!(matches!(scheduler.worker_turn(0, &access), WorkerAction::Wait));
    assert_eq!(scheduler.worker_state(0), WorkerState::Idle);
}

#[test]
fn worker_survives_a_panicking_task() {
    let config =
        SchedulerConfig { num_workers: 1, timeout_seconds: 0, enable_work_stealing: false };
    let mut scheduler: TaskScheduler<u32> = TaskScheduler::new(config);
    scheduler.start();
    let access = free(1);
    scheduler.submit(1, 0, &access).unwrap();
    scheduler.submit(2, 0, &access).unwrap();
    assert!(matches!(scheduler.worker_turn(0, &access), WorkerAction::Execute(_)));
    assert_eq!(scheduler.worker_state(0), WorkerState::Running);
    scheduler.task_finished(0, TaskOutcome::Panicked);
    assert_eq!(scheduler.worker_state(0), WorkerState::Idle);
    match scheduler.worker_turn(0, &access) {
        WorkerAction::Execute(task) => assert_eq!(task.task, Some(2)),
        _ => panic!("the second task was waiting"),
    }
}

#[test]
fn stealing_takes_the_newest_task_of_the_next_peer() {
    let config = SchedulerConfig { num_workers: 3, timeout_seconds: 0, enable_work_stealing: true };
    let mut scheduler: TaskScheduler<u32> = TaskScheduler::new(config);
    scheduler.start();
    // all three tasks go to the first queue: the others are busy
    let only_first = vec![QueueAccess::Free, QueueAccess::Busy, QueueAccess::Busy];
    for payload in [1u32, 2, 3] {
        scheduler.submit(payload, 0, &only_first).unwrap();
    }
    let access = free(3);
    match scheduler.worker_turn(1, &access) {
        WorkerAction::Execute(task) => {
            assert_eq!(task.task, Some(3));
            assert_eq!(task.metadata.id, 3);
        }
        _ => panic!("worker 1 steals from worker 0"),
    }
    assert_eq!(scheduler.queue_len(0), 2);
    // worker 2 cannot get at queue 0 now, and queue 1 is empty
    let zero_busy = vec![QueueAccess::Busy, QueueAccess::Free, QueueAccess::Free];
    assert!(matches!(scheduler.worker_turn(2, &zero_busy), WorkerAction::Yield));
    assert_eq!(scheduler.queue_len(0), 2);
}

#[test]
fn poison_pills_are_not_stolen() {
    let config = SchedulerConfig { num_workers: 2, timeout_seconds: 0, enable_work_stealing: true };
    let mut scheduler: TaskScheduler<u32> = TaskScheduler::new(config);
    scheduler.start();
    let only_first = vec![QueueAccess::Free, QueueAccess::Poisoned];
    scheduler.submit(1, 0, &only_first).unwrap();
    scheduler.submit_poison_pill(5, &only_first);
    assert_eq!(scheduler.queue_len(0), 2);
    assert_eq!(scheduler.queue_len(1), 0);

    let access = free(2);
    assert!(scheduler.try_steal_work(1, &access).is_none());
    assert_eq!(scheduler.queue_len(0), 2);
    assert!(matches!(scheduler.worker_turn(1, &access), WorkerAction::Yield));

    // the owner runs the task and then takes its pill
    match scheduler.worker_turn(0, &access) {
        WorkerAction::Execute(task) => assert_eq!(task.task, Some(1)),
        _ => panic!("the task comes first"),
    }
    scheduler.task_finished(0, TaskOutcome::Completed);
    assert!(matches!(
        scheduler.worker_turn(0, &access),
        WorkerAction::Exit(ExitReason::PoisonPill)
    ));
    assert_eq!(scheduler.worker_state(0), WorkerState::Exited);
    assert_eq!(scheduler.worker_state(1), WorkerState::Idle);
}

#[test]
fn worker_exits_on_shutdown_and_on_poisoned_lock() {
    let config = SchedulerConfig { num_workers: 2, timeout_seconds: 0, enable_work_stealing: true };
    let mut scheduler: TaskScheduler<u32> = TaskScheduler::new(config);
    scheduler.start();
    let poisoned = vec![QueueAccess::Poisoned, QueueAccess::Free];
    assert!(matches!(
        scheduler.worker_turn(0, &poisoned),
        WorkerAction::Exit(ExitReason::LockPoisoned)
    ));
    let report = scheduler.shutdown(0, &poisoned);
    assert_eq!(report, ShutdownReport { worker_exits: 1, supervisor_exited: false });
    // the poisoned queue got no pill
    assert_eq!(scheduler.queue_len(0), 0);
    assert_eq!(scheduler.queue_len(1), 1);
}

#[test]
fn shutdown_ends_every_worker() {
    let config = SchedulerConfig { num_workers: 4, timeout_seconds: 3, enable_work_stealing: true };
    let mut scheduler: TaskScheduler<u32> = TaskScheduler::new(config);
    scheduler.start();
    let access = free(4);
    for payload in 0..9u32 {
        scheduler.submit(payload, 0, &access).unwrap();
    }
    assert!(matches!(scheduler.worker_turn(2, &access), WorkerAction::Execute(_)));
    let report = scheduler.shutdown(10, &access);
    assert_eq!(report, ShutdownReport { worker_exits: 4, supervisor_exited: true });
    for worker_id in 0..4 {
        assert_eq!(scheduler.worker_state(worker_id), WorkerState::Exited);
    }
    assert!(scheduler.supervisor_loop(11, &access).is_none());
}

#[test]
fn supervisor_reports_stale_tasks() {
    let config = SchedulerConfig { num_workers: 2, timeout_seconds: 1, enable_work_stealing: true };
    let mut scheduler: TaskScheduler<u32> = TaskScheduler::new(config);
    scheduler.start();
    let access = free(2);
    scheduler.submit(1, 0, &access).unwrap();
    scheduler.submit(2, 500_000_000, &access).unwrap();
    scheduler.submit(3, 600_000_000, &access).unwrap();

    // at one second and a bit only the first task is over the timeout
    let reports = scheduler.supervisor_loop(1_000_000_001, &access).unwrap();
    assert_eq!(reports.len(), 1);
    assert_eq!(reports[0].task_id, 1);
    assert_eq!(reports[0].worker_id, 0);
    assert_eq!(reports[0].queue_position, 0);
    assert_eq!(reports[0].age, 1_000_000_001);
    assert_eq!(reports[0].timeout_seconds, 1);

    // exactly at the timeout nothing is stale
    assert!(scheduler.supervisor_scan(1_000_000_000, &access).is_empty());

    let reports = scheduler.supervisor_scan(2_000_000_000, &access);
    let found: Vec<(u64, usize, usize)> =
        reports.iter().map(|r| (r.task_id, r.worker_id, r.queue_position)).collect();
    assert_eq!(found, vec![(1, 0, 0), (3, 0, 1), (2, 1, 0)]);

    // a queue that cannot be looked into is passed over
    let first_busy = vec![QueueAccess::Busy, QueueAccess::Free];
    let reports = scheduler.supervisor_scan(2_000_000_000, &first_busy);
    assert_eq!(reports.len(), 1);
    assert_eq!(reports[0].task_id, 2);
    assert_eq!(scheduler.queue_len(0), 2);
    assert_eq!(scheduler.queue_len(1), 1);
}

#[test]
fn the_reserved_identifier_is_the_largest() {
    assert_eq!(POISON_PILL_ID, u64::MAX);
}

#[test]
fn work_stealing_spreads_the_load() {
    let config = SchedulerConfig { num_workers: 4, timeout_seconds: 5, enable_work_stealing: true };
    let mut scheduler: TaskScheduler<Task> = TaskScheduler::new(config);
    scheduler.start();

    // every task lands in the first queue: the other locks are held
    let only_first =
        vec![QueueAccess::Free, QueueAccess::Busy, QueueAccess::Busy, QueueAccess::Busy];
    let counter = Rc::new(Cell::new(0usize));
    for _ in 0..50 {
        let counter_clone = Rc::clone(&counter);
        scheduler
            .submit(Box::new(move || counter_clone.set(counter_clone.get() + 1)), 0, &only_first)
            .unwrap();
    }
    assert_eq!(scheduler.queue_len(0), 50);

    let access = free(4);
    let mut executed = [0usize; 4];
    let mut seen = Vec::new();
    for _ in 0..20 {
        for worker_id in 0..4 {
            if let Some(id) = run(&mut scheduler, worker_id, &access) {
                executed[worker_id] += 1;
                seen.push(id);
            }
        }
    }

    assert_eq!(counter.get(), 50);
    seen.sort();
    assert_eq!(seen, (1..=50).collect::<Vec<u64>>());
    let most = *executed.iter().max().unwrap();
    let least = *executed.iter().min().unwrap();
    assert!(most - least <= 20);
    assert_eq!(executed, [13, 13, 12, 12]);
}

#[test]
fn steps_after_a_round_of_probing() {
    assert_eq!(MAX_ATTEMPTS, 3);
    assert_eq!(after_round(0, Some(2)), SubmitStep::PushTo(2));
    assert_eq!(after_round(0, None), SubmitStep::Retry);
    assert_eq!(after_round(1, None), SubmitStep::Retry);
    assert_eq!(after_round(2, None), SubmitStep::BlockOnFirst);
    assert_eq!(after_round(2, Some(0)), SubmitStep::PushTo(0));
    assert_eq!(next_task_id(0), 1);
    assert_eq!(next_task_id(u64::MAX), 0);
}
