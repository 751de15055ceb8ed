use worksteal::balance::{QueuePicker, StealSearch};
use worksteal::queue::{StaleTask, WorkerQueue};
use worksteal::read::{Read, ReadAction, ReadEvent, ReadState};
use worksteal::task::{PoisonPill, ScheduledTask, TaskMetadata, POISON_PILL_ID};
use worksteal::worker::{ExitReason, TaskOutcome, Worker, WorkerAction, WorkerEvent, WorkerState};

fn task(id: u64, at: u64) -> ScheduledTask<u32> {
    ScheduledTask::new(id as u32, id, at)
}

#[test]
fn queue_is_first_in_first_out_for_its_owner() {
    let mut queue = WorkerQueue::new();
    assert_eq!(queue.len(), 0);
    assert!(queue.pop().is_none());
    assert!(queue.steal().is_none());
    queue.push(task(1, 0));
    queue.push(task(2, 0));
    queue.push(task(3, 0));
    assert_eq!(queue.len(), 3);
    assert_eq!(queue.pop().unwrap().metadata.id, 1);
    assert_eq!(queue.steal().unwrap().metadata.id, 3);
    assert_eq!(queue.pop().unwrap().metadata.id, 2);
    assert_eq!(queue.len(), 0);
}

#[test]
fn a_pill_at_the_back_stays_where_it_is() {
    let mut queue: WorkerQueue<u32> = WorkerQueue::new();
    assert!(queue.steal_work().is_none());
    queue.push(task(1, 0));
    queue.push(PoisonPill.into_task(9));
    assert!(queue.steal_work().is_none());
    assert_eq!(queue.len(), 2);
    assert_eq!(queue.pop().unwrap().metadata.id, 1);
    let pill = queue.pop().unwrap();
    assert!(pill.is_pill());
    assert_eq!(pill.metadata, TaskMetadata { id: POISON_PILL_ID, submitted_at: 9 });
    assert!(pill.task.is_none());
    queue.push(task(2, 0));
    assert_eq!(queue.steal_work().unwrap().metadata.id, 2);
}

#[test]
fn age_counts_from_submission() {
    let t = task(1, 100);
    assert!(!t.is_pill());
    assert_eq!(t.age(100), 0);
    assert_eq!(t.age(250), 150);
    assert_eq!(t.age(50), 0);
}

#[test]
fn stale_tasks_are_reported_in_queue_order() {
    let mut queue = WorkerQueue::new();
    queue.push(task(1, 0));
    queue.push(task(2, 1_500_000_000));
    queue.push(task(3, 500_000_000));
    let reports = queue.stale_tasks(4, 3_000_000_000, 2);
    assert_eq!(
        reports,
        vec![
            StaleTask {
                task_id: 1,
                worker_id: 4,
                queue_position: 0,
                age: 3_000_000_000,
                timeout_seconds: 2
            },
            StaleTask {
                task_id: 3,
                worker_id: 4,
                queue_position: 2,
                age: 2_500_000_000,
                timeout_seconds: 2
            },
        ]
    );
    assert_eq!(queue.len(), 3);
    // a timeout too long to write in nanoseconds in 64 bits is never exceeded
    assert!(queue.stale_tasks(0, u64::MAX, u64::MAX).is_empty());
    // with a timeout of zero every task that has waited at all is stale
    assert_eq!(queue.stale_tasks(0, 1, 0).len(), 1);
}

#[test]
fn picker_prefers_the_first_of_the_shortest() {
    let mut picker = QueuePicker::new(4);
    assert_eq!(picker.choice(), None);
    assert_eq!(picker.next_probe(), Some(0));
    assert!(picker.record(Some(3)));
    assert_eq!(picker.next_probe(), Some(1));
    assert!(!picker.record(None));
    assert_eq!(picker.next_probe(), Some(2));
    assert!(picker.record(Some(2)));
    assert_eq!(picker.next_probe(), Some(3));
    assert!(!picker.record(Some(2)));
    assert_eq!(picker.next_probe(), None);
    assert_eq!(picker.choice(), Some(2));
}

#[test]
fn picker_stops_at_an_empty_queue() {
    let mut picker = QueuePicker::new(3);
    assert!(picker.record(Some(1)));
    assert!(picker.record(Some(0)));
    assert_eq!(picker.next_probe(), None);
    assert_eq!(picker.choice(), Some(1));

    let mut nothing = QueuePicker::new(2);
    assert!(!nothing.record(None));
    assert!(!nothing.record(None));
    assert_eq!(nothing.next_probe(), None);
    assert_eq!(nothing.choice(), None);
}

#[test]
fn thief_goes_round_from_its_neighbour() {
    let mut search = StealSearch::new(2, 4);
    assert_eq!(search.next_victim(), Some(3));
    assert_eq!(search.next_victim(), Some(0));
    assert_eq!(search.next_victim(), Some(1));
    assert_eq!(search.next_victim(), None);
    assert_eq!(search.next_victim(), None);

    let mut alone = StealSearch::new(0, 1);
    assert_eq!(alone.next_victim(), None);

    let mut huge = StealSearch::new(usize::MAX - 1, usize::MAX);
    assert_eq!(huge.next_victim(), Some(0));
    assert_eq!(huge.next_victim(), Some(1));
}

#[test]
fn worker_goes_from_idle_to_running_and_back() {
    let mut worker = Worker::new(3, true);
    assert_eq!(worker.state, WorkerState::Idle);
    assert!(worker.can_handle(&WorkerEvent::<u32>::OwnQueueEmpty));
    assert!(!worker.can_handle(&WorkerEvent::<u32>::TaskFinished(TaskOutcome::Completed)));
    assert!(matches!(worker.handle(WorkerEvent::<u32>::OwnQueueEmpty), WorkerAction::TrySteal));
    assert!(matches!(worker.handle(WorkerEvent::<u32>::NothingStolen), WorkerAction::Yield));
    assert!(matches!(worker.handle(WorkerEvent::<u32>::Resumed), WorkerAction::LookForWork));
    match worker.handle(WorkerEvent::Stolen(task(5, 0))) {
        WorkerAction::Execute(stolen) => assert_eq!(stolen.metadata.id, 5),
        _ => panic!("a stolen task is run"),
    }
    assert_eq!(worker.state, WorkerState::Running);
    assert!(!worker.can_handle(&WorkerEvent::<u32>::ShutdownSet));
    assert!(matches!(
        worker.handle(WorkerEvent::<u32>::TaskFinished(TaskOutcome::Panicked)),
        WorkerAction::LookForWork
    ));
    assert_eq!(worker.state, WorkerState::Idle);
    assert!(!worker.can_handle(&WorkerEvent::Stolen(PoisonPill.into_task::<u32>(0))));
    assert!(matches!(
        worker.handle(WorkerEvent::OwnTask(PoisonPill.into_task::<u32>(0))),
        WorkerAction::Exit(ExitReason::PoisonPill)
    ));
    assert_eq!(worker.state, WorkerState::Exited);
    assert!(!worker.can_handle(&WorkerEvent::<u32>::Resumed));
}

#[test]
fn worker_without_stealing_waits() {
    let mut worker = Worker::new(0, false);
    assert!(matches!(worker.handle(WorkerEvent::<u32>::OwnQueueEmpty), WorkerAction::Wait));
    assert!(matches!(
        worker.handle(WorkerEvent::<u32>::ShutdownSet),
        WorkerAction::Exit(ExitReason::ShutdownObserved)
    ));
    let mut other = Worker::new(1, false);
    assert!(matches!(
        other.handle(WorkerEvent::<u32>::LockPoisoned),
        WorkerAction::Exit(ExitReason::LockPoisoned)
    ));
    assert_eq!(other.state, WorkerState::Exited);
}

#[test]
fn a_read_recomputes_only_after_its_second_look() {
    let mut read = Read::new();
    assert_eq!(read.state, ReadState::Start);
    assert!(!read.can_handle(ReadEvent::Hit));
    assert_eq!(read.handle(ReadEvent::Started), ReadAction::LookUp);
    assert_eq!(read.handle(ReadEvent::Miss), ReadAction::LockKey);
    assert!(!read.can_handle(ReadEvent::Miss));
    assert_eq!(read.handle(ReadEvent::KeyLocked), ReadAction::LookUp);
    assert_eq!(read.state, ReadState::SecondLook);
    assert_eq!(read.handle(ReadEvent::Miss), ReadAction::Recompute);
    assert!(!read.can_handle(ReadEvent::Miss));
    assert_eq!(read.handle(ReadEvent::Computed), ReadAction::Install);
    assert_eq!(read.handle(ReadEvent::Installed), ReadAction::ReturnComputed);
    assert_eq!(read.state, ReadState::Finished);
    assert!(!read.can_handle(ReadEvent::Started));
}

#[test]
fn a_read_that_hits_returns_what_it_found() {
    let mut fast = Read::new();
    fast.handle(ReadEvent::Started);
    assert_eq!(fast.handle(ReadEvent::Hit), ReadAction::ReturnCached);
    assert_eq!(fast.state, ReadState::Finished);

    let mut second = Read::new();
    second.handle(ReadEvent::Started);
    second.handle(ReadEvent::Miss);
    second.handle(ReadEvent::KeyLocked);
    assert_eq!(second.handle(ReadEvent::Hit), ReadAction::ReturnCached);
    assert_eq!(second.state, ReadState::Finished);
}

#[test]
fn a_read_passes_failures_on() {
    let mut failed = Read::new();
    failed.handle(ReadEvent::Started);
    failed.handle(ReadEvent::Miss);
    failed.handle(ReadEvent::KeyLocked);
    failed.handle(ReadEvent::Miss);
    assert_eq!(failed.handle(ReadEvent::Failed), ReadAction::ReturnFailure);
    assert_eq!(failed.state, ReadState::Finished);

    let mut unwritten = Read::new();
    unwritten.handle(ReadEvent::Started);
    unwritten.handle(ReadEvent::Miss);
    unwritten.handle(ReadEvent::KeyLocked);
    unwritten.handle(ReadEvent::Miss);
    unwritten.handle(ReadEvent::Computed);
    assert_eq!(unwritten.handle(ReadEvent::NotWritten), ReadAction::ReturnFailure);

    let mut poisoned = Read::new();
    poisoned.handle(ReadEvent::Started);
    assert_eq!(poisoned.handle(ReadEvent::Poisoned), ReadAction::ReturnFailure);
    assert_eq!(poisoned.state, ReadState::Finished);
}
