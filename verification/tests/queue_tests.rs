use robot_scheduler::queue::TaskQueue;
use robot_scheduler::task::{compute_score, Task, TaskSnapshot, TaskState, PAYLOAD_LEN};

fn plain_task(id: u32, priority: u32, deadline: Option<u64>) -> Task {
    Task {
        id,
        task_type: "move".to_string(),
        priority,
        deadline,
        target_robot: None,
        required_capabilities: Vec::new(),
        payload: vec![0; PAYLOAD_LEN],
    }
}

fn drain_ids(queue: &mut TaskQueue) -> Vec<u32> {
    let mut ids = Vec::new();
    while let Some(task) = queue.pop_max() {
        ids.push(task.id);
    }
    ids
}

#[test]
fn score_has_the_stated_value() {
    assert_eq!(compute_score(0, None), 0);
    assert_eq!(compute_score(1, None), 18446744073709551617);
    assert_eq!(compute_score(0, Some(0)), 18446744073709551616);
    assert_eq!(compute_score(0, Some(u64::MAX)), 1);
    assert_eq!(compute_score(2, Some(5)), 2 * 18446744073709551617 + 18446744073709551616 - 5);
    assert_eq!(
        compute_score(u32::MAX, Some(0)),
        4294967295 * 18446744073709551617 + 18446744073709551616
    );
    assert_eq!(plain_task(1, 3, Some(7)).score(), compute_score(3, Some(7)));
}

#[test]
fn priority_outranks_any_deadline() {
    let urgent = plain_task(1, 2, None);
    let early = plain_task(2, 1, Some(0));
    assert!(urgent.outranks(&early));
    assert!(!early.outranks(&urgent));
}

#[test]
fn earlier_deadline_outranks_later_and_any_deadline_outranks_none() {
    let early = plain_task(1, 4, Some(10));
    let late = plain_task(2, 4, Some(11));
    let latest = plain_task(3, 4, Some(u64::MAX));
    let never = plain_task(4, 4, None);
    assert!(early.outranks(&late));
    assert!(!late.outranks(&early));
    assert!(late.outranks(&never));
    assert!(latest.outranks(&never));
    assert!(!never.outranks(&latest));
    assert!(!early.outranks(&plain_task(5, 4, Some(10))));
}

#[test]
fn payload_must_have_five_entries() {
    let mut task = plain_task(1, 1, None);
    assert!(task.has_valid_payload());
    task.payload.pop();
    assert!(!task.has_valid_payload());
    task.payload = vec![0; 6];
    assert!(!task.has_valid_payload());
    task.payload = Vec::new();
    assert!(!task.has_valid_payload());
}

#[test]
fn overdue_means_strictly_after_the_deadline() {
    let task = plain_task(1, 1, Some(100));
    assert!(!task.is_overdue(99));
    assert!(!task.is_overdue(100));
    assert!(task.is_overdue(101));
    assert!(!plain_task(2, 1, None).is_overdue(u64::MAX));
}

#[test]
fn duplicate_is_equal_to_its_source() {
    let mut task = plain_task(1, 1, Some(100));
    task.target_robot = Some("Ford".to_string());
    task.required_capabilities = vec!["a".to_string(), "b".to_string()];
    task.payload = vec![1, 2, 3, 4, 5];
    assert_eq!(task.duplicate(), task);
    let snapshot = TaskSnapshot { task, state: TaskState::Assigned("Ford".to_string()) };
    assert_eq!(snapshot.duplicate(), snapshot);
    assert_eq!(TaskState::AssignmentFailed("no".to_string()).duplicate(),
        TaskState::AssignmentFailed("no".to_string()));
}

#[test]
fn live_states_are_pending_and_dispatched() {
    assert!(TaskState::Pending.is_live());
    assert!(TaskState::Dispatched.is_live());
    assert!(!TaskState::DroppedDeadlineMissed.is_live());
    assert!(!TaskState::Assigned("r".to_string()).is_live());
    assert!(!TaskState::AssignmentFailed("r".to_string()).is_live());
}

#[test]
fn empty_queue_has_nothing_to_give() {
    let mut queue = TaskQueue::new();
    assert!(queue.is_empty());
    assert_eq!(queue.len(), 0);
    assert!(queue.peek().is_none());
    assert!(queue.pop_max().is_none());
    assert!(queue.remove_id(1).is_none());
    assert!(!queue.contains_id(1));
}

#[test]
fn same_priority_pops_by_deadline() {
    let mut queue = TaskQueue::new();
    queue.insert(plain_task(1, 5, None));
    queue.insert(plain_task(2, 5, Some(300)));
    queue.insert(plain_task(3, 5, Some(100)));
    queue.insert(plain_task(4, 5, Some(200)));
    assert_eq!(queue.peek().unwrap().id, 3);
    assert_eq!(drain_ids(&mut queue), vec![3, 4, 2, 1]);
    assert!(queue.is_empty());
}

#[test]
fn five_priorities_pop_in_descending_order() {
    for order in [[1u32, 2, 3, 4, 5], [5, 4, 3, 2, 1], [3, 1, 5, 2, 4], [2, 5, 1, 4, 3]] {
        let mut queue = TaskQueue::new();
        for p in order {
            queue.insert(plain_task(p, p, None));
        }
        assert_eq!(queue.len(), 5);
        assert_eq!(drain_ids(&mut queue), vec![5, 4, 3, 2, 1]);
    }
}

#[test]
fn equal_scores_pop_in_order_of_arrival() {
    let mut queue = TaskQueue::new();
    queue.insert(plain_task(10, 1, Some(50)));
    queue.insert(plain_task(11, 1, Some(50)));
    queue.insert(plain_task(12, 2, None));
    queue.insert(plain_task(13, 1, Some(50)));
    queue.insert(plain_task(14, 2, None));
    assert_eq!(drain_ids(&mut queue), vec![12, 14, 10, 11, 13]);
}

#[test]
fn position_for_counts_the_tasks_served_no_later() {
    let mut queue = TaskQueue::new();
    queue.insert(plain_task(1, 3, None));
    queue.insert(plain_task(2, 2, None));
    queue.insert(plain_task(3, 1, None));
    assert_eq!(queue.position_for(&plain_task(9, 4, None)), 0);
    assert_eq!(queue.position_for(&plain_task(9, 3, None)), 1);
    assert_eq!(queue.position_for(&plain_task(9, 3, Some(1))), 0);
    assert_eq!(queue.position_for(&plain_task(9, 2, None)), 2);
    assert_eq!(queue.position_for(&plain_task(9, 0, None)), 3);
}

#[test]
fn remove_id_takes_out_only_that_task() {
    let mut queue = TaskQueue::new();
    queue.insert(plain_task(1, 3, None));
    queue.insert(plain_task(2, 2, None));
    queue.insert(plain_task(3, 1, None));
    assert!(queue.contains_id(2));
    assert_eq!(queue.remove_id(2).unwrap().id, 2);
    assert!(!queue.contains_id(2));
    assert!(queue.remove_id(2).is_none());
    assert_eq!(drain_ids(&mut queue), vec![1, 3]);
}
