use rust_automation_orchestrator::config::{UploadConfig, WorkflowConfig};
use rust_automation_orchestrator::orchestrator::{AutomationOrchestrator, TaskInfo, TaskStatus, TaskType};
use rust_automation_orchestrator::time::{more_than, Span, Timestamp};
use rust_automation_orchestrator::upload::UploadManager;
use rust_automation_orchestrator::workflow::WorkflowEngine;

const HOUR: i64 = 3600;
const DAY: i64 = 24 * HOUR;

fn at(secs: i64) -> Timestamp {
    Timestamp { secs, nanos: 0 }
}

fn orchestrator(max_concurrent: usize) -> AutomationOrchestrator {
    let mut config = WorkflowConfig::default();
    config.max_concurrent_workflows = max_concurrent;
    AutomationOrchestrator::new(
        UploadManager::new(UploadConfig::default()),
        WorkflowEngine::new(config),
    )
}

fn running(orchestrator: &AutomationOrchestrator) -> usize {
    orchestrator
        .list_active_tasks()
        .iter()
        .filter(|t| t.status == TaskStatus::Running)
        .count()
}

#[test]
fn a_submitted_task_is_pending() {
    let mut o = orchestrator(2);
    o.submit_at(5, TaskType::Workflow, at(10));
    assert_eq!(
        o.get_task_status(5),
        Some(TaskInfo {
            id: 5,
            task_type: TaskType::Workflow,
            status: TaskStatus::Pending,
            created_at: at(10),
            started_at: None,
            completed_at: None,
            error_message: None,
        })
    );
    assert_eq!(o.get_task_status(6), None);
}

#[test]
fn a_task_goes_through_its_life() {
    let mut o = orchestrator(2);
    o.submit_at(5, TaskType::Upload, at(10));
    assert!(o.try_start_at(5, at(11)));
    let task = o.get_task_status(5).unwrap();
    assert_eq!(task.status, TaskStatus::Running);
    assert_eq!(task.started_at, Some(at(11)));
    assert_eq!(task.completed_at, None);
    o.finish_at(5, Ok(()), at(12));
    let task = o.get_task_status(5).unwrap();
    assert_eq!(task.status, TaskStatus::Completed);
    assert_eq!(task.task_type, TaskType::Upload);
    assert_eq!(task.created_at, at(10));
    assert_eq!(task.started_at, Some(at(11)));
    assert_eq!(task.completed_at, Some(at(12)));
    assert_eq!(task.error_message, None);
}

#[test]
fn a_failed_task_keeps_the_message() {
    let mut o = orchestrator(2);
    o.submit_at(5, TaskType::Workflow, at(10));
    assert!(o.try_start_at(5, at(11)));
    o.finish_at(5, Err("Step b failed: None".to_string()), at(12));
    let task = o.get_task_status(5).unwrap();
    assert_eq!(task.status, TaskStatus::Failed);
    assert_eq!(task.error_message, Some("Step b failed: None".to_string()));
    assert_eq!(task.completed_at, Some(at(12)));
}

#[test]
fn no_more_tasks_run_than_the_limit_allows() {
    let mut o = orchestrator(3);
    for id in 0..8u128 {
        o.submit_at(id, TaskType::Workflow, at(1));
    }
    let mut admitted = Vec::new();
    for id in 0..8u128 {
        if o.try_start_at(id, at(2)) {
            admitted.push(id);
        }
        assert!(running(&o) <= 3);
    }
    assert_eq!(admitted, vec![0, 1, 2]);
    assert_eq!(running(&o), 3);
    assert_eq!(o.get_task_status(3).unwrap().status, TaskStatus::Pending);
    o.finish_at(1, Ok(()), at(3));
    assert_eq!(running(&o), 2);
    assert!(o.try_start_at(7, at(4)));
    assert!(!o.try_start_at(6, at(4)));
    assert_eq!(running(&o), 3);
    for id in [0u128, 2, 7] {
        o.finish_at(id, Ok(()), at(5));
    }
    for id in [3u128, 4, 5] {
        assert!(o.try_start_at(id, at(6)));
    }
    assert!(!o.try_start_at(6, at(6)));
    assert_eq!(running(&o), 3);
}

#[test]
fn a_limit_of_zero_admits_nothing() {
    let mut o = orchestrator(0);
    o.submit_at(1, TaskType::Workflow, at(1));
    assert!(!o.try_start_at(1, at(2)));
    assert_eq!(o.get_task_status(1).unwrap().status, TaskStatus::Pending);
}

#[test]
fn asking_twice_takes_one_permit() {
    let mut o = orchestrator(2);
    o.submit_at(1, TaskType::Workflow, at(1));
    o.submit_at(2, TaskType::Workflow, at(1));
    assert!(o.try_start_at(1, at(2)));
    assert!(o.try_start_at(1, at(3)));
    assert_eq!(o.get_task_status(1).unwrap().started_at, Some(at(2)));
    assert!(o.try_start_at(2, at(4)));
}

#[test]
fn a_cancelled_task_keeps_its_permit_until_it_returns() {
    let mut o = orchestrator(1);
    o.submit_at(1, TaskType::Workflow, at(1));
    o.submit_at(2, TaskType::Workflow, at(1));
    assert!(o.try_start_at(1, at(2)));
    assert!(o.cancel_task_at(1, at(3)));
    let task = o.get_task_status(1).unwrap();
    assert_eq!(task.status, TaskStatus::Cancelled);
    assert_eq!(task.completed_at, Some(at(3)));
    assert!(!o.try_start_at(2, at(4)));
    o.finish_at(1, Ok(()), at(5));
    assert!(o.try_start_at(2, at(6)));
}

#[test]
fn cancelling_an_unknown_task_changes_nothing() {
    let mut o = orchestrator(1);
    o.submit_at(1, TaskType::Workflow, at(1));
    assert!(!o.cancel_task_at(9, at(2)));
    assert_eq!(o.list_active_tasks().len(), 1);
    assert_eq!(o.get_task_status(1).unwrap().status, TaskStatus::Pending);
}

#[test]
fn finishing_an_unknown_task_changes_nothing() {
    let mut o = orchestrator(1);
    o.submit_at(1, TaskType::Workflow, at(1));
    assert!(o.try_start_at(1, at(2)));
    o.finish_at(9, Ok(()), at(3));
    assert_eq!(o.get_task_status(9), None);
    assert_eq!(o.get_task_status(1).unwrap().status, TaskStatus::Running);
    o.submit_at(2, TaskType::Workflow, at(3));
    assert!(!o.try_start_at(2, at(4)));
}

#[test]
fn the_list_holds_every_task_once() {
    let mut o = orchestrator(2);
    for id in [30u128, 10, 20] {
        o.submit_at(id, TaskType::System, at(id as i64));
    }
    let mut ids: Vec<u128> = o.list_active_tasks().iter().map(|t| t.id).collect();
    ids.sort();
    assert_eq!(ids, vec![10, 20, 30]);
    for task in o.list_active_tasks() {
        assert_eq!(Some(task.clone()), o.get_task_status(task.id));
    }
}

#[test]
fn cleanup_removes_what_ended_long_ago() {
    let mut o = orchestrator(4);
    for id in 1..=4u128 {
        o.submit_at(id, TaskType::Workflow, at(0));
        assert!(o.try_start_at(id, at(1)));
    }
    o.finish_at(1, Ok(()), at(100));
    o.finish_at(2, Err("bad".to_string()), at(100));
    o.cancel_task_at(3, at(100));
    let now = at(100 + DAY + 1);
    assert_eq!(o.cleanup_completed_tasks_at(now), 3);
    assert_eq!(o.get_task_status(1), None);
    assert_eq!(o.get_task_status(2), None);
    assert_eq!(o.get_task_status(3), None);
    assert_eq!(o.get_task_status(4).unwrap().status, TaskStatus::Running);
}

#[test]
fn cleanup_twice_removes_only_once() {
    let mut o = orchestrator(4);
    o.submit_at(1, TaskType::Workflow, at(0));
    o.submit_at(2, TaskType::Workflow, at(0));
    o.finish_at(1, Ok(()), at(100));
    o.finish_at(2, Ok(()), at(100 + 10 * HOUR));
    let now = at(100 + 26 * HOUR);
    assert_eq!(o.cleanup_completed_tasks_at(now), 1);
    assert_eq!(o.cleanup_completed_tasks_at(now), 0);
    assert_eq!(o.list_active_tasks().len(), 1);
    assert_eq!(o.get_task_status(2).unwrap().status, TaskStatus::Completed);
}

#[test]
fn cleanup_keeps_what_ended_within_a_day() {
    let mut o = orchestrator(4);
    o.submit_at(1, TaskType::Workflow, at(0));
    o.finish_at(1, Ok(()), at(1000));
    assert_eq!(o.cleanup_completed_tasks_at(at(1000)), 0);
    assert_eq!(o.cleanup_completed_tasks_at(at(1000 + DAY - 1)), 0);
    assert_eq!(o.cleanup_completed_tasks_at(at(1000 + DAY)), 0);
    assert_eq!(o.cleanup_completed_tasks_at(at(900)), 0);
    assert!(o.get_task_status(1).is_some());
    assert_eq!(
        o.cleanup_completed_tasks_at(Timestamp { secs: 1000 + DAY, nanos: 1 }),
        1
    );
    assert!(o.get_task_status(1).is_none());
}

#[test]
fn cleanup_keeps_what_has_not_ended() {
    let mut o = orchestrator(4);
    o.submit_at(1, TaskType::Workflow, at(0));
    o.submit_at(2, TaskType::Workflow, at(0));
    assert!(o.try_start_at(2, at(1)));
    assert_eq!(o.cleanup_completed_tasks_at(at(1000 * DAY)), 0);
    assert_eq!(o.list_active_tasks().len(), 2);
}

#[test]
fn expiry_is_a_matter_of_status_and_age() {
    let mut task = TaskInfo {
        id: 1,
        task_type: TaskType::System,
        status: TaskStatus::Completed,
        created_at: at(0),
        started_at: Some(at(1)),
        completed_at: Some(at(10)),
        error_message: None,
    };
    assert!(task.is_expired(at(11 + DAY)));
    assert!(!task.is_expired(at(10 + DAY)));
    assert!(!task.is_expired(at(0)));
    task.status = TaskStatus::Running;
    assert!(!task.is_expired(at(11 + DAY)));
    task.status = TaskStatus::Pending;
    assert!(!task.is_expired(at(11 + DAY)));
    task.status = TaskStatus::Failed;
    assert!(task.is_expired(at(11 + DAY)));
    task.status = TaskStatus::Cancelled;
    assert!(task.is_expired(at(11 + DAY)));
    task.completed_at = None;
    assert!(!task.is_expired(at(11 + DAY)));
}

#[test]
fn an_instant_that_cannot_be_is_never_old() {
    let task = TaskInfo {
        id: 1,
        task_type: TaskType::System,
        status: TaskStatus::Completed,
        created_at: at(0),
        started_at: None,
        completed_at: Some(at(i64::MIN)),
        error_message: None,
    };
    assert!(!task.is_expired(at(0)));
}

#[test]
fn a_status_never_moves_backward() {
    fn rank(status: TaskStatus) -> u8 {
        match status {
            TaskStatus::Pending => 0,
            TaskStatus::Running => 1,
            _ => 2,
        }
    }
    let mut o = orchestrator(1);
    let mut seen = Vec::new();
    o.submit_at(1, TaskType::Workflow, at(0));
    seen.push(o.get_task_status(1).unwrap().status);
    o.try_start_at(1, at(1));
    seen.push(o.get_task_status(1).unwrap().status);
    o.cancel_task_at(1, at(2));
    seen.push(o.get_task_status(1).unwrap().status);
    o.finish_at(1, Err("late".to_string()), at(3));
    seen.push(o.get_task_status(1).unwrap().status);
    o.cleanup_completed_tasks_at(at(4));
    seen.push(o.get_task_status(1).unwrap().status);
    assert_eq!(
        seen,
        vec![
            TaskStatus::Pending,
            TaskStatus::Running,
            TaskStatus::Cancelled,
            TaskStatus::Failed,
            TaskStatus::Failed,
        ]
    );
    for pair in seen.windows(2) {
        assert!(rank(pair[0]) <= rank(pair[1]));
    }
}

#[test]
fn terminal_statuses_are_the_three_ends() {
    assert!(!TaskStatus::Pending.is_terminal());
    assert!(!TaskStatus::Running.is_terminal());
    assert!(TaskStatus::Completed.is_terminal());
    assert!(TaskStatus::Failed.is_terminal());
    assert!(TaskStatus::Cancelled.is_terminal());
}

#[test]
fn the_clock_stamps_what_happens_now() {
    let mut o = orchestrator(1);
    let id = o.submit(TaskType::Workflow).unwrap();
    let other = o.submit(TaskType::Upload).unwrap();
    assert_ne!(id, other);
    assert!(o.get_task_status(id).unwrap().created_at.secs > 1_600_000_000);
    assert!(o.try_start(id));
    assert!(!o.try_start(other));
    assert!(o.get_task_status(id).unwrap().started_at.is_some());
    assert!(o.cancel_task(other));
    assert_eq!(o.get_task_status(other).unwrap().status, TaskStatus::Cancelled);
    o.finish(id, Ok(()));
    let done = o.get_task_status(id).unwrap();
    assert_eq!(done.status, TaskStatus::Completed);
    assert!(done.completed_at.unwrap().secs >= done.created_at.secs);
    assert_eq!(o.cleanup_completed_tasks(), 0);
    assert_eq!(o.list_active_tasks().len(), 2);
}

#[test]
fn a_snapshot_is_a_copy() {
    let task = TaskInfo {
        id: 3,
        task_type: TaskType::Upload,
        status: TaskStatus::Failed,
        created_at: at(1),
        started_at: Some(at(2)),
        completed_at: Some(at(3)),
        error_message: Some("why".to_string()),
    };
    assert_eq!(task.snapshot(), task);
}

#[test]
fn a_span_is_compared_to_the_nanosecond() {
    assert!(Span { secs: 86_401, nanos: 0 }.exceeds(86_400));
    assert!(Span { secs: 86_400, nanos: 1 }.exceeds(86_400));
    assert!(!Span { secs: 86_400, nanos: 0 }.exceeds(86_400));
    assert!(!Span { secs: 86_400, nanos: -1 }.exceeds(86_400));
    assert!(!Span { secs: -5, nanos: 0 }.exceeds(0));
    assert!(Span { secs: i64::MAX, nanos: i32::MAX }.exceeds(i64::MAX));
    assert!(!Span { secs: i64::MIN, nanos: i32::MIN }.exceeds(i64::MIN));
}

#[test]
fn a_task_cancelled_while_it_waits_stays_cancelled() {
    let mut o = orchestrator(1);
    assert!(o.submit_at(1, TaskType::Workflow, at(1)));
    assert!(o.submit_at(2, TaskType::Workflow, at(1)));
    assert!(o.cancel_task_at(1, at(2)));
    assert!(o.try_start_at(1, at(3)));
    let task = o.get_task_status(1).unwrap();
    assert_eq!(task.status, TaskStatus::Cancelled);
    assert_eq!(task.started_at, None);
    assert_eq!(task.completed_at, Some(at(2)));
    assert!(!o.try_start_at(2, at(4)));
    o.finish_at(1, Ok(()), at(5));
    assert_eq!(o.get_task_status(1).unwrap().status, TaskStatus::Completed);
    assert!(o.try_start_at(2, at(6)));
}

#[test]
fn a_task_that_has_ended_is_not_started_again() {
    let mut o = orchestrator(2);
    o.submit_at(1, TaskType::Workflow, at(1));
    assert!(o.try_start_at(1, at(2)));
    o.finish_at(1, Err("bad".to_string()), at(3));
    assert!(o.try_start_at(1, at(4)));
    let task = o.get_task_status(1).unwrap();
    assert_eq!(task.status, TaskStatus::Failed);
    assert_eq!(task.started_at, Some(at(2)));
}

#[test]
fn an_identifier_in_use_keeps_its_task() {
    let mut o = orchestrator(2);
    assert!(o.submit_at(1, TaskType::Workflow, at(1)));
    assert!(o.try_start_at(1, at(2)));
    o.finish_at(1, Ok(()), at(3));
    let before = o.get_task_status(1);
    assert!(!o.submit_at(1, TaskType::Upload, at(4)));
    assert_eq!(o.get_task_status(1), before);
    assert_eq!(o.list_active_tasks().len(), 1);
}

#[test]
fn a_pending_task_that_holds_a_permit_is_started() {
    let mut o = orchestrator(1);
    assert!(o.try_start_at(5, at(1)));
    assert_eq!(o.get_task_status(5), None);
    assert!(o.submit_at(5, TaskType::Workflow, at(2)));
    assert_eq!(o.get_task_status(5).unwrap().status, TaskStatus::Pending);
    assert!(o.try_start_at(5, at(3)));
    let task = o.get_task_status(5).unwrap();
    assert_eq!(task.status, TaskStatus::Running);
    assert_eq!(task.started_at, Some(at(3)));
    o.submit_at(6, TaskType::Workflow, at(4));
    assert!(!o.try_start_at(6, at(5)));
}

#[test]
fn instants_are_compared_by_their_difference() {
    let far = 8_000_000_000_000;
    assert!(more_than(at(far), at(-far), 86_400));
    assert!(!more_than(at(-far), at(far), 86_400));
    assert!(more_than(at(far), at(far - 86_401), 86_400));
    assert!(!more_than(at(far), at(far - 86_400), 86_400));
    assert!(more_than(
        Timestamp { secs: -far + 86_400, nanos: 1 },
        at(-far),
        86_400
    ));
    assert!(!more_than(
        Timestamp { secs: 10, nanos: 999_999_999 },
        Timestamp { secs: 9, nanos: 999_999_999 },
        1
    ));
    assert!(more_than(
        Timestamp { secs: 11, nanos: 0 },
        Timestamp { secs: 9, nanos: 999_999_999 },
        1
    ));
    assert!(more_than(at(0), at(-1), 0));
    assert!(!more_than(at(0), at(0), 0));
    assert!(more_than(at(-5), at(-3), -3));
    assert!(!more_than(at(-5), at(-3), -2));
}

#[test]
fn an_instant_out_of_reach_is_not_compared() {
    assert!(!more_than(at(i64::MAX), at(0), 0));
    assert!(!more_than(at(0), at(i64::MIN), 0));
    assert!(!more_than(Timestamp { secs: 100, nanos: 2_000_000_000 }, at(0), 0));
}

#[test]
fn a_task_is_entered_on_every_submission() {
    let mut o = orchestrator(2);
    let mut ids = Vec::new();
    for _ in 0..50 {
        let id = o.submit(TaskType::Workflow).unwrap();
        assert_eq!((id >> 76) & 0xf, 4);
        assert_eq!((id >> 62) & 0x3, 2);
        assert_eq!(o.get_task_status(id).unwrap().status, TaskStatus::Pending);
        assert_eq!(o.get_task_status(id).unwrap().id, id);
        ids.push(id);
    }
    ids.sort();
    ids.dedup();
    assert_eq!(ids.len(), 50);
    assert_eq!(o.list_active_tasks().len(), 50);
}
