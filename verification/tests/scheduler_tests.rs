use std::sync::Arc;

use robot_scheduler::batch::AssignmentRecord;
use robot_scheduler::board::Dispatch;
use robot_scheduler::error::{AssignmentError, ProcessingError, SchedulingError};
use robot_scheduler::scheduler::Scheduler;
use robot_scheduler::task::{Task, TaskState};

fn weld_payload() -> Vec<u32> {
    vec![100.0f32, 10.0, 20.0, 30.0, 1.0].iter().map(|x| x.to_bits()).collect()
}

fn inspect_payload() -> Vec<u32> {
    vec![200.0f32, 20.0, 30.0, 40.0, 1.0].iter().map(|x| x.to_bits()).collect()
}

fn lifting_task(id: u32, robot: Option<&str>, required: &[&str], deadline: Option<u64>) -> Task {
    Task {
        id,
        task_type: "heavy_lifting".to_string(),
        priority: 1,
        deadline,
        target_robot: robot.map(|r| r.to_string()),
        required_capabilities: required.iter().map(|c| c.to_string()).collect(),
        payload: weld_payload(),
    }
}

fn command_task(id: u32, priority: u32, command: &str, payload: Vec<u32>) -> Task {
    Task {
        id,
        task_type: command.to_string(),
        priority,
        deadline: None,
        target_robot: None,
        required_capabilities: Vec::new(),
        payload,
    }
}

const INVALID_TASK: u32 = 404;

fn delegate(should_fail: bool, task: &Task) -> Result<String, AssignmentError> {
    if should_fail || task.id == INVALID_TASK {
        Err(AssignmentError { reason: "Python assignment failed".to_string() })
    } else {
        Ok(format!("ROBOT_{}", task.priority))
    }
}

fn working_delegator(task: &Task, _eligible: &Vec<String>) -> Result<String, AssignmentError> {
    delegate(false, task)
}

fn failing_delegator(task: &Task, _eligible: &Vec<String>) -> Result<String, AssignmentError> {
    delegate(true, task)
}

#[test]
fn lib_test_schedule_task() {
    let mut scheduler = Scheduler::new();
    scheduler.register_robot("Ford".to_string(), Vec::new()).unwrap();
    let task = lifting_task(1, Some("Ford"), &[], None);

    let result = scheduler.schedule_task(task.clone());
    assert!(result.is_ok());

    let status = scheduler.get_task_status(1);
    assert!(status.is_some());
    assert_eq!(status.unwrap().task.task_type, "heavy_lifting");
}

#[test]
fn test_duplicate_task() {
    let mut scheduler = Scheduler::new();
    scheduler.register_robot("Ford".to_string(), Vec::new()).unwrap();
    let task = lifting_task(1, Some("Ford"), &[], None);

    scheduler.schedule_task(task.clone()).unwrap();
    let result = scheduler.schedule_task(task);
    assert!(result.is_err());
    assert_eq!(result.unwrap_err(), SchedulingError::DuplicateTaskId(1));
}

#[test]
fn scheduler_test_schedule_task() {
    let mut scheduler = Scheduler::new();
    let robot_id = "Ford".to_string();
    scheduler.register_robot(robot_id.clone(), vec!["heavy_lifting".to_string()]).unwrap();

    let task = lifting_task(1, Some("Ford"), &["heavy_lifting"], None);

    let result = scheduler.schedule_task(task.clone());
    assert!(result.is_ok());
}

#[test]
fn test_missing_capability() {
    let mut scheduler = Scheduler::new();
    let robot_id = "Ford".to_string();
    scheduler.register_robot(robot_id.clone(), vec!["navigation".to_string()]).unwrap();

    let task = lifting_task(1, Some("Ford"), &["heavy_lifting"], None);

    let result = scheduler.schedule_task(task);
    assert!(result.is_err());
    let error = result.unwrap_err();
    assert!(error.message().contains("lacks required capabilities"));
    assert_eq!(
        error,
        SchedulingError::CapabilityMismatch {
            robot: "Ford".to_string(),
            missing: vec!["heavy_lifting".to_string()],
        }
    );
    assert_eq!(scheduler.pending_len(), 0);
    assert!(scheduler.get_task_status(1).is_none());
}

#[test]
fn test_deadline_miss() {
    let mut scheduler = Scheduler::new();
    let task = lifting_task(1, None, &[], Some(0));

    scheduler.schedule_task(task.clone()).unwrap();
    let received = scheduler.dispatch(1, 1);
    match received {
        Dispatch::Dropped(dropped) => assert_eq!(dropped.id, task.id),
        other => panic!("expected a dropped task, got {:?}", other),
    }
    let status = scheduler.get_task_status(1).unwrap();
    assert_eq!(status.state, TaskState::DroppedDeadlineMissed);
    assert_eq!(scheduler.pending_len(), 0);
}

#[test]
fn test_schedule_task_success() {
    let mut scheduler = Scheduler::new();
    let task = command_task(1, 10, "weld_component", weld_payload());

    let result = scheduler.schedule_task(task.clone());
    assert!(result.is_ok());

    assert_eq!(scheduler.pending_len(), 1);
    assert_eq!(scheduler.peek().unwrap().id, 1);

    match scheduler.dispatch(1, 0) {
        Dispatch::Forward(forwarded) => {
            let eligible = scheduler.eligible_robots(&forwarded);
            let answer = working_delegator(&forwarded, &eligible);
            assert_eq!(answer.clone().unwrap(), "ROBOT_10");
            assert!(scheduler.complete(1, answer));
        }
        other => panic!("expected a forwarded task, got {:?}", other),
    }
    let status = scheduler.get_task_status(1).unwrap();
    assert_eq!(status.state, TaskState::Assigned("ROBOT_10".to_string()));
}

#[test]
fn test_schedule_task_invalid_parameters() {
    let mut scheduler = Scheduler::new();
    let task = command_task(2, 10, "weld_component", vec![100.0f32.to_bits()]);

    let result = scheduler.schedule_task(task);
    assert!(result.is_err());
    let error = result.unwrap_err();
    assert_eq!(error, SchedulingError::InvalidPayload);
    assert_eq!(error.message(), "Task parameters must have length 5");
}

#[test]
fn test_schedule_task_python_failure() {
    let mut scheduler = Scheduler::new();
    let task = command_task(3, 10, "weld_component", weld_payload());

    scheduler.schedule_task(task).unwrap();
    let forwarded = match scheduler.dispatch(3, 0) {
        Dispatch::Forward(forwarded) => forwarded,
        other => panic!("expected a forwarded task, got {:?}", other),
    };
    let eligible = scheduler.eligible_robots(&forwarded);
    let result = failing_delegator(&forwarded, &eligible);
    assert!(result.is_err());
    assert!(result.clone().unwrap_err().reason.contains("Python assignment failed"));
    assert!(scheduler.complete(3, result));
    let status = scheduler.get_task_status(3).unwrap();
    assert_eq!(status.state, TaskState::AssignmentFailed("Python assignment failed".to_string()));
}

#[test]
fn test_process_queue_success() {
    let mut scheduler = Scheduler::new();
    let tasks = vec![
        command_task(1, 20, "weld_component", weld_payload()),
        command_task(2, 10, "inspect_part", inspect_payload()),
    ];

    for task in tasks.clone() {
        scheduler.schedule_task(task).unwrap();
    }

    let results = scheduler.drain_and_process(working_delegator).unwrap();
    assert_eq!(results.len(), 2);
    assert_eq!(results[0].message(), "Task 1 assigned to ROBOT_20");
    assert_eq!(results[1].message(), "Task 2 assigned to ROBOT_10");
    assert_eq!(scheduler.pending_len(), 0);
    assert_eq!(
        results,
        vec![
            AssignmentRecord { task_id: 1, robot_id: "ROBOT_20".to_string() },
            AssignmentRecord { task_id: 2, robot_id: "ROBOT_10".to_string() },
        ]
    );
}

#[test]
fn test_process_queue_zero_priority() {
    let mut scheduler = Scheduler::new();
    let task = command_task(4, 0, "weld_component", weld_payload());

    scheduler.schedule_task(task).unwrap();
    let result = scheduler.drain_and_process(working_delegator);
    assert!(result.is_err());
    let error = result.unwrap_err();
    assert_eq!(error.message(), "Zero priority tasks are not allowed");
    assert_eq!(error, ProcessingError::ZeroPriorityRejected(4));
    assert_eq!(scheduler.pending_len(), 0);
    assert!(scheduler.get_task_status(4).is_none());
}

#[test]
fn test_process_queue_python_failure() {
    let mut scheduler = Scheduler::new();
    let task = command_task(INVALID_TASK, 10, "weld_component", weld_payload());

    scheduler.schedule_task(task).unwrap();
    let result = scheduler.drain_and_process(working_delegator);
    assert!(result.is_err());
    let error = result.unwrap_err();
    assert!(error.message().contains("Python assignment failed"));
    assert_eq!(scheduler.pending_len(), 0);
    assert_eq!(
        scheduler.get_task_status(INVALID_TASK).unwrap().state,
        TaskState::AssignmentFailed("Python assignment failed".to_string())
    );
}

#[test]
fn test_concurrent_scheduling() {
    let runtime = tokio::runtime::Builder::new_multi_thread().worker_threads(4).build().unwrap();
    runtime.block_on(async {
        let scheduler = Arc::new(tokio::sync::Mutex::new(Scheduler::new()));
        let mut handles = vec![];

        for i in 1..=5u32 {
            let scheduler = Arc::clone(&scheduler);
            let task = command_task(i, i, "weld_component", weld_payload());
            handles.push(tokio::spawn(async move { scheduler.lock().await.schedule_task(task) }));
        }

        for handle in handles {
            assert!(handle.await.unwrap().is_ok());
        }

        let mut scheduler = scheduler.lock().await;
        assert_eq!(scheduler.pending_len(), 5);
        let drained = scheduler.drain_and_process(working_delegator).unwrap();
        let priorities: Vec<u32> = drained.iter().map(|record| record.task_id).collect();
        assert_eq!(priorities, vec![5, 4, 3, 2, 1]);
        assert_eq!(scheduler.pending_len(), 0);
    });
}

#[test]
fn targeted_task_with_matching_capability_is_never_a_mismatch() {
    let mut scheduler = Scheduler::new();
    scheduler.register_robot("Ford".to_string(), vec!["heavy_lifting".to_string()]).unwrap();
    let task = lifting_task(1, Some("Ford"), &["heavy_lifting"], None);
    let ack = scheduler.schedule_task(task).unwrap();
    assert_eq!(ack.task_id, 1);
    assert_eq!(ack.position, 0);
    assert_eq!(scheduler.get_task_status(1).unwrap().state, TaskState::Pending);
    let forwarded = match scheduler.dispatch(1, 1_000) {
        Dispatch::Forward(forwarded) => forwarded,
        other => panic!("expected a forwarded task, got {:?}", other),
    };
    assert_eq!(scheduler.get_task_status(1).unwrap().state, TaskState::Dispatched);
    assert_eq!(scheduler.eligible_robots(&forwarded), vec!["Ford".to_string()]);
    assert!(scheduler.complete(1, Ok("Ford".to_string())));
    assert_eq!(scheduler.get_task_status(1).unwrap().state, TaskState::Assigned("Ford".to_string()));
}

#[test]
fn duplicate_id_leaves_the_first_task_queued() {
    let mut scheduler = Scheduler::new();
    let first = command_task(7, 3, "weld_component", weld_payload());
    let second = command_task(7, 9, "inspect_part", inspect_payload());
    scheduler.schedule_task(first.clone()).unwrap();
    let refused = scheduler.schedule_task(second).unwrap_err();
    assert_eq!(refused, SchedulingError::DuplicateTaskId(7));
    assert_eq!(refused.message(), "Task ID 7 already exists");
    assert_eq!(scheduler.pending_len(), 1);
    assert_eq!(scheduler.peek().unwrap(), &first);
    let status = scheduler.get_task_status(7).unwrap();
    assert_eq!(status.task, first);
    assert_eq!(status.state, TaskState::Pending);
}

#[test]
fn duplicate_id_is_checked_before_payload_and_robot() {
    let mut scheduler = Scheduler::new();
    scheduler.schedule_task(command_task(7, 3, "weld_component", weld_payload())).unwrap();
    let mut bad = lifting_task(7, Some("Nobody"), &["x"], None);
    bad.payload = vec![1];
    assert_eq!(scheduler.schedule_task(bad).unwrap_err(), SchedulingError::DuplicateTaskId(7));
    let mut other = lifting_task(8, Some("Nobody"), &["x"], None);
    other.payload = vec![1, 2, 3, 4, 5, 6];
    assert_eq!(scheduler.schedule_task(other).unwrap_err(), SchedulingError::InvalidPayload);
    assert_eq!(scheduler.pending_len(), 1);
}

#[test]
fn id_is_free_again_once_the_task_is_finished() {
    let mut scheduler = Scheduler::new();
    scheduler.schedule_task(lifting_task(1, None, &[], Some(5))).unwrap();
    assert!(matches!(scheduler.dispatch(1, 6), Dispatch::Dropped(_)));
    let again = command_task(1, 2, "inspect_part", inspect_payload());
    assert!(scheduler.schedule_task(again.clone()).is_ok());
    let status = scheduler.get_task_status(1).unwrap();
    assert_eq!(status.task, again);
    assert_eq!(status.state, TaskState::Pending);
}

#[test]
fn id_stays_taken_while_the_backend_is_asked() {
    let mut scheduler = Scheduler::new();
    scheduler.schedule_task(lifting_task(1, None, &[], None)).unwrap();
    assert!(matches!(scheduler.dispatch(1, 6), Dispatch::Forward(_)));
    let refused = scheduler.schedule_task(lifting_task(1, None, &[], None)).unwrap_err();
    assert_eq!(refused, SchedulingError::DuplicateTaskId(1));
}

#[test]
fn unknown_target_robot_is_refused() {
    let mut scheduler = Scheduler::new();
    scheduler.register_robot("Ford".to_string(), vec!["heavy_lifting".to_string()]).unwrap();
    let refused = scheduler.schedule_task(lifting_task(1, Some("Kuka"), &[], None)).unwrap_err();
    assert_eq!(refused, SchedulingError::UnknownRobot("Kuka".to_string()));
    assert_eq!(refused.message(), "Unknown robot: Kuka");
    assert_eq!(scheduler.pending_len(), 0);
    assert!(scheduler.get_task_status(1).is_none());
}

#[test]
fn mismatch_lists_every_missing_capability_in_order() {
    let mut scheduler = Scheduler::new();
    scheduler
        .register_robot("Ford".to_string(), vec!["navigation".to_string(), "welding".to_string()])
        .unwrap();
    let task = lifting_task(1, Some("Ford"), &["vision", "welding", "heavy_lifting"], None);
    let refused = scheduler.schedule_task(task).unwrap_err();
    assert_eq!(
        refused,
        SchedulingError::CapabilityMismatch {
            robot: "Ford".to_string(),
            missing: vec!["vision".to_string(), "heavy_lifting".to_string()],
        }
    );
    assert_eq!(refused.message(), "Robot Ford lacks required capabilities: vision, heavy_lifting");
}

#[test]
fn priority_zero_is_admitted() {
    let mut scheduler = Scheduler::new();
    let ack = scheduler.schedule_task(command_task(1, 0, "weld_component", weld_payload()));
    assert!(ack.is_ok());
    assert_eq!(scheduler.pending_len(), 1);
}

#[test]
fn overdue_task_is_admitted_and_dropped_at_dispatch() {
    let mut scheduler = Scheduler::new();
    let task = lifting_task(1, None, &[], Some(1_000));
    assert!(scheduler.schedule_task(task.clone()).is_ok());
    assert_eq!(scheduler.dispatch(1, 1_001), Dispatch::Dropped(task));
    assert_eq!(scheduler.get_task_status(1).unwrap().state, TaskState::DroppedDeadlineMissed);
    assert!(!scheduler.complete(1, Ok("Ford".to_string())));
    assert_eq!(scheduler.get_task_status(1).unwrap().state, TaskState::DroppedDeadlineMissed);
}

#[test]
fn task_at_its_deadline_is_still_forwarded() {
    let mut scheduler = Scheduler::new();
    let task = lifting_task(1, None, &[], Some(1_000));
    scheduler.schedule_task(task.clone()).unwrap();
    assert_eq!(scheduler.dispatch(1, 1_000), Dispatch::Forward(task));
}

#[test]
fn dispatch_of_an_unknown_or_finished_task_is_stale() {
    let mut scheduler = Scheduler::new();
    assert_eq!(scheduler.dispatch(9, 0), Dispatch::Stale);
    scheduler.schedule_task(lifting_task(1, None, &[], None)).unwrap();
    assert!(matches!(scheduler.dispatch(1, 0), Dispatch::Forward(_)));
    assert_eq!(scheduler.dispatch(1, 0), Dispatch::Stale);
    assert_eq!(scheduler.get_task_status(1).unwrap().state, TaskState::Dispatched);
}

#[test]
fn answer_for_a_waiting_task_is_ignored() {
    let mut scheduler = Scheduler::new();
    scheduler.schedule_task(lifting_task(1, None, &[], None)).unwrap();
    assert!(!scheduler.complete(1, Ok("Ford".to_string())));
    assert!(!scheduler.complete(2, Ok("Ford".to_string())));
    assert_eq!(scheduler.get_task_status(1).unwrap().state, TaskState::Pending);
    assert_eq!(scheduler.pending_len(), 1);
}

#[test]
fn batch_confirms_in_order_of_priority() {
    let mut scheduler = Scheduler::new();
    scheduler.schedule_task(command_task(2, 10, "inspect_part", inspect_payload())).unwrap();
    scheduler.schedule_task(command_task(1, 20, "weld_component", weld_payload())).unwrap();
    let results = scheduler.drain_and_process(working_delegator).unwrap();
    let ids: Vec<u32> = results.iter().map(|r| r.task_id).collect();
    assert_eq!(ids, vec![1, 2]);
    assert_eq!(scheduler.get_task_status(1).unwrap().state, TaskState::Assigned("ROBOT_20".into()));
    assert_eq!(scheduler.get_task_status(2).unwrap().state, TaskState::Assigned("ROBOT_10".into()));
}

#[test]
fn batch_stops_at_priority_zero_without_putting_anything_back() {
    let mut scheduler = Scheduler::new();
    scheduler.schedule_task(command_task(1, 5, "weld_component", weld_payload())).unwrap();
    scheduler.schedule_task(command_task(2, 0, "weld_component", weld_payload())).unwrap();
    scheduler.schedule_task(command_task(3, 0, "weld_component", weld_payload())).unwrap();
    let error = scheduler.drain_and_process(working_delegator).unwrap_err();
    assert_eq!(error, ProcessingError::ZeroPriorityRejected(2));
    assert_eq!(scheduler.get_task_status(1).unwrap().state, TaskState::Assigned("ROBOT_5".into()));
    assert!(scheduler.get_task_status(2).is_none());
    assert_eq!(scheduler.pending_len(), 1);
    assert_eq!(scheduler.peek().unwrap().id, 3);
}

#[test]
fn batch_stops_at_the_first_refusal() {
    let mut scheduler = Scheduler::new();
    scheduler.schedule_task(command_task(1, 5, "weld_component", weld_payload())).unwrap();
    scheduler.schedule_task(command_task(INVALID_TASK, 4, "weld_component", weld_payload())).unwrap();
    scheduler.schedule_task(command_task(3, 3, "weld_component", weld_payload())).unwrap();
    let error = scheduler.drain_and_process(working_delegator).unwrap_err();
    assert_eq!(
        error,
        ProcessingError::Assignment(AssignmentError { reason: "Python assignment failed".into() })
    );
    assert_eq!(scheduler.pending_len(), 1);
    assert_eq!(scheduler.peek().unwrap().id, 3);
    assert_eq!(scheduler.get_task_status(3).unwrap().state, TaskState::Pending);
}

#[test]
fn batch_on_an_empty_queue_confirms_nothing() {
    let mut scheduler = Scheduler::new();
    assert_eq!(scheduler.drain_and_process(failing_delegator).unwrap(), Vec::new());
}

#[test]
fn batch_hands_the_eligible_robots_to_the_backend() {
    let mut scheduler = Scheduler::new();
    scheduler.register_robot("Ford".to_string(), vec!["heavy_lifting".to_string()]).unwrap();
    scheduler.register_robot("Kuka".to_string(), vec!["welding".to_string()]).unwrap();
    scheduler
        .register_robot("Abb".to_string(), vec!["welding".to_string(), "heavy_lifting".to_string()])
        .unwrap();
    scheduler.schedule_task(lifting_task(1, None, &["heavy_lifting"], None)).unwrap();
    let results = scheduler
        .drain_and_process(|_task: &Task, eligible: &Vec<String>| Ok(eligible.join("+")))
        .unwrap();
    assert_eq!(results, vec![AssignmentRecord { task_id: 1, robot_id: "Ford+Abb".to_string() }]);
}

#[test]
fn scheduler_parts_can_be_taken_apart_and_put_together() {
    let mut scheduler = Scheduler::new();
    scheduler.register_robot("Ford".to_string(), vec!["heavy_lifting".to_string()]).unwrap();
    scheduler.schedule_task(lifting_task(1, Some("Ford"), &["heavy_lifting"], None)).unwrap();
    let (registry, mut board) = scheduler.into_parts();
    assert_eq!(registry.len(), 1);
    assert_eq!(board.pending_len(), 1);
    let task = lifting_task(2, Some("Kuka"), &[], None);
    let verdict = registry.check_target(&task);
    assert_eq!(
        board.submit(task, verdict).unwrap_err(),
        SchedulingError::UnknownRobot("Kuka".to_string())
    );
    let scheduler = Scheduler::from_parts(registry, board);
    assert_eq!(scheduler.pending_len(), 1);
    assert!(scheduler.registry().is_registered(&"Ford".to_string()));
    assert!(scheduler.board().is_pending(1));
}
