//! Laws that relate the operations of the scheduler to one another.

use vstd::prelude::*;
use crate::batch::RecordModel;
use crate::board::{
    lemma_admission_coherent, lemma_batch_step_coherent, lemma_taken_out_coherent,
    lemma_with_state_coherent, BatchStepModel, BoardModel, DispatchModel,
};
use crate::error::{ProcessingErrorModel, SchedulingErrorModel};
use crate::labels::{covers, lemma_missing_empty_iff_covers, missing_from, Label};
use crate::queue::{
    entry_position, holds_id, is_ordered, lemma_entry_position, lemma_with_task_ordered, with_task,
};
use crate::registry::{capabilities_in, knows};
use crate::scheduler::SchedulerModel;
use crate::task::{lemma_score_orders_by_rank, SnapshotModel, StateModel, TaskModel};

verus! {

/// In an ordered queue a task stands in front of every task that it
/// outranks: of two waiting tasks with the same priority, the one with the
/// earlier deadline is served first, and one with a deadline is served
/// before one without; a task with a higher priority is served before
/// both, whatever the deadlines.
pub proof fn law_outranking_task_served_first(queue: Seq<TaskModel>, i: int, j: int)
    requires
        is_ordered(queue),
        0 <= i < queue.len(),
        0 <= j < queue.len(),
        queue[i].outranks(queue[j]),
    ensures
        i < j,
{
    lemma_score_orders_by_rank(queue[i], queue[j]);
}

/// The order of service does not depend on the order of arrival: when two
/// tasks are admitted one after the other, in either order, the one that
/// outranks the other stands in front of it.
pub proof fn law_arrival_order_irrelevant(queue: Seq<TaskModel>, a: TaskModel, b: TaskModel)
    requires
        is_ordered(queue),
        a.outranks(b),
    ensures
        entry_position(with_task(queue, a), b) > entry_position(queue, a),
        with_task(with_task(queue, a), b)[entry_position(queue, a)] == a,
        entry_position(with_task(queue, b), a) <= entry_position(queue, b),
        with_task(with_task(queue, b), a)[entry_position(queue, b) + 1] == b,
{
    lemma_score_orders_by_rank(a, b);
    lemma_entry_position(queue, a);
    lemma_entry_position(queue, b);
    lemma_with_task_ordered(queue, a);
    lemma_with_task_ordered(queue, b);
    let qa = with_task(queue, a);
    let qb = with_task(queue, b);
    lemma_entry_position(qa, b);
    lemma_entry_position(qb, a);
    let pa = entry_position(queue, a);
    let pb = entry_position(queue, b);
    assert(qa[pa] == a);
    assert(qb[pb] == b);
    if entry_position(qa, b) <= pa {
        assert(qa[pa].score() < b.score());
    }
    if entry_position(qb, a) > pb {
        assert(qb[pb].score() >= a.score());
    }
}

/// A task whose id is that of a task admitted before and not yet finished
/// is refused as a duplicate, and the first task stays queued as it was.
pub proof fn law_duplicate_id_refused(s: SchedulerModel, first: TaskModel, second: TaskModel)
    requires
        s.coherent(),
        s.schedule_verdict(first) is Ok,
        second.id == first.id,
    ensures
        s.after_schedule(first).coherent(),
        s.after_schedule(first).schedule_verdict(second) == Err::<(), SchedulingErrorModel>(
            SchedulingErrorModel::DuplicateTaskId(first.id),
        ),
        s.after_schedule(first).after_schedule(second) == s.after_schedule(first),
        s.after_schedule(first).board.queue.contains(first),
        s.after_schedule(first).board.status(first.id) == Some(
            SnapshotModel { task: first, state: StateModel::Pending },
        ),
{
    lemma_admission_coherent(s.board, first);
    lemma_entry_position(s.board.queue, first);
    let after = s.after_schedule(first);
    assert(after.board.queue[entry_position(s.board.queue, first)] == first);
}

/// A task that names a robot which is not registered is refused for that
/// reason, provided its id is free and its payload well-formed.
pub proof fn law_unknown_robot_refused(s: SchedulerModel, task: TaskModel, robot: Label)
    requires
        task.target_robot == Some(robot),
        !knows(s.robots, robot),
        !s.board.is_live(task.id),
        task.has_valid_payload(),
    ensures
        s.schedule_verdict(task) == Err::<(), SchedulingErrorModel>(
            SchedulingErrorModel::UnknownRobot(robot),
        ),
        s.after_schedule(task) == s,
{
}

/// A task that names a registered robot which lacks one of the required
/// capabilities is refused with the list of what is missing, and that
/// capability is on the list, provided the task's id is free and its
/// payload well-formed.
pub proof fn law_missing_capability_refused(
    s: SchedulerModel,
    task: TaskModel,
    robot: Label,
    capability: Label,
)
    requires
        task.target_robot == Some(robot),
        knows(s.robots, robot),
        task.required_capabilities.contains(capability),
        !capabilities_in(s.robots, robot).contains(capability),
        !s.board.is_live(task.id),
        task.has_valid_payload(),
    ensures
        s.schedule_verdict(task) == Err::<(), SchedulingErrorModel>(
            SchedulingErrorModel::CapabilityMismatch {
                robot,
                missing: missing_from(capabilities_in(s.robots, robot), task.required_capabilities),
            },
        ),
        missing_from(capabilities_in(s.robots, robot), task.required_capabilities).contains(
            capability,
        ),
        s.after_schedule(task) == s,
{
    let have = capabilities_in(s.robots, robot);
    let pred = |l: Label| !have.contains(l);
    let k = choose|k: int|
        0 <= k < task.required_capabilities.len() && task.required_capabilities[k] == capability;
    task.required_capabilities.lemma_filter_contains(pred, k);
}

/// A task that names a registered robot is admitted exactly when the robot
/// has every required capability, provided the task's id is free and its
/// payload well-formed; it then waits in the queue as a pending task.
pub proof fn law_capable_target_accepted(s: SchedulerModel, task: TaskModel, robot: Label)
    requires
        s.coherent(),
        task.target_robot == Some(robot),
        knows(s.robots, robot),
        !s.board.is_live(task.id),
        task.has_valid_payload(),
    ensures
        s.schedule_verdict(task) is Ok <==> covers(
            capabilities_in(s.robots, robot),
            task.required_capabilities,
        ),
        s.schedule_verdict(task) is Ok ==> s.after_schedule(task).board.status(task.id) == Some(
            SnapshotModel { task, state: StateModel::Pending },
        ) && s.after_schedule(task).board.queue.contains(task),
{
    lemma_missing_empty_iff_covers(capabilities_in(s.robots, robot), task.required_capabilities);
    if s.schedule_verdict(task) is Ok {
        lemma_entry_position(s.board.queue, task);
        assert(s.after_schedule(task).board.queue[entry_position(s.board.queue, task)] == task);
    }
}

/// A task that names no robot is admitted whatever it requires, provided
/// its id is free and its payload well-formed.
pub proof fn law_untargeted_task_accepted(s: SchedulerModel, task: TaskModel)
    requires
        task.target_robot is None,
        !s.board.is_live(task.id),
        task.has_valid_payload(),
    ensures
        s.schedule_verdict(task) is Ok,
{
}

/// Admission looks at neither the priority nor the deadline of a task.
pub proof fn law_admission_ignores_urgency(
    s: SchedulerModel,
    task: TaskModel,
    priority: u32,
    deadline: Option<u64>,
)
    ensures
        s.schedule_verdict(task) == s.schedule_verdict(TaskModel { priority, deadline, ..task }),
{
}

/// A task whose deadline has passed is admitted like any other, and is
/// dropped, not forwarded, when the dispatcher takes it up: it leaves the
/// queue and its state is final.
pub proof fn law_overdue_task_dropped(s: SchedulerModel, task: TaskModel, now: u64)
    requires
        s.coherent(),
        s.schedule_verdict(task) is Ok,
        task.is_overdue(now),
    ensures
        s.after_schedule(task).board.dispatch_decision(task.id, now) == DispatchModel::Dropped(
            task,
        ),
        s.after_schedule(task).after_dispatch(task.id, now).coherent(),
        s.after_schedule(task).after_dispatch(task.id, now).board.status(task.id) == Some(
            SnapshotModel { task, state: StateModel::DroppedDeadlineMissed },
        ),
        !holds_id(s.after_schedule(task).after_dispatch(task.id, now).board.queue, task.id),
{
    lemma_admission_coherent(s.board, task);
    let admitted = s.after_schedule(task).board;
    lemma_taken_out_coherent(admitted, task.id, StateModel::DroppedDeadlineMissed);
    let after = s.after_schedule(task).after_dispatch(task.id, now).board;
    if holds_id(after.queue, task.id) {
        let k = choose|k: int| 0 <= k < after.queue.len() && (#[trigger] after.queue[k]).id
            == task.id;
        assert(after.records[after.queue[k].id].state is Pending);
    }
}

/// A task that is still on time when the dispatcher takes it up is
/// forwarded to the backend.
pub proof fn law_timely_task_forwarded(s: SchedulerModel, task: TaskModel, now: u64)
    requires
        s.coherent(),
        s.schedule_verdict(task) is Ok,
        !task.is_overdue(now),
    ensures
        s.after_schedule(task).board.dispatch_decision(task.id, now) == DispatchModel::Forward(
            task,
        ),
        s.after_schedule(task).after_dispatch(task.id, now).board.status(task.id) == Some(
            SnapshotModel { task, state: StateModel::Dispatched },
        ),
{
}

/// A batch that meets a task of priority zero at the head of the queue
/// ends with its rejection; the task is gone from the queue and forgotten,
/// and the tasks behind it stay where they were.
pub proof fn law_zero_priority_ends_batch(
    board: BoardModel,
    answers: spec_fn(int) -> Result<Label, Label>,
)
    requires
        board.coherent(),
        board.queue.len() > 0,
        board.queue[0].priority == 0,
    ensures
        board.batch(answers).outcome == Err::<Seq<RecordModel>, ProcessingErrorModel>(
            ProcessingErrorModel::ZeroPriorityRejected(board.queue[0].id),
        ),
        board.batch(answers).board.queue == board.queue.skip(1),
        board.batch(answers).board.status(board.queue[0].id) is None,
        !holds_id(board.batch(answers).board.queue, board.queue[0].id),
{
    let after = board.batch(answers).board;
    if holds_id(after.queue, board.queue[0].id) {
        let k = choose|k: int| 0 <= k < after.queue.len() && (#[trigger] after.queue[k]).id
            == board.queue[0].id;
        assert(after.queue[k] == board.queue[k + 1]);
    }
}

/// Where no waiting task has priority zero and the backend accepts every
/// task, a batch empties the queue and returns one confirmation for each
/// task, in the order of service, each with the robot that the backend
/// chose for it.
pub proof fn law_batch_confirms_in_order(
    board: BoardModel,
    answers: spec_fn(int) -> Result<Label, Label>,
    asked: int,
    done: Seq<RecordModel>,
)
    requires
        board.coherent(),
        forall|i: int| 0 <= i < board.queue.len() ==> (#[trigger] board.queue[i]).priority > 0,
        forall|k: int| asked <= k < asked + board.queue.len() ==> #[trigger] answers(k) is Ok,
    ensures
        board.batch_run(answers, asked, done).board.queue.len() == 0,
        board.batch_run(answers, asked, done).asked == asked + board.queue.len(),
        board.batch_run(answers, asked, done).outcome is Ok,
        board.batch_run(answers, asked, done).outcome->Ok_0.len() == done.len() + board.queue.len(),
        forall|i: int|
            0 <= i < done.len() ==> board.batch_run(answers, asked, done).outcome->Ok_0[i] == done[i],
        forall|i: int|
            0 <= i < board.queue.len() ==> #[trigger] board.batch_run(
                answers,
                asked,
                done,
            ).outcome->Ok_0[done.len() + i] == (RecordModel {
                task_id: board.queue[i].id,
                robot_id: answers(asked + i)->Ok_0,
            }),
    decreases board.queue.len(),
{
    if board.queue.len() > 0 {
        let task = board.queue[0];
        assert(task.priority > 0);
        assert(board.batch_step() == BatchStepModel::Assign(task));
        assert(answers(asked) is Ok);
        let robot = answers(asked)->Ok_0;
        let stepped = board.after_batch_step();
        lemma_batch_step_coherent(board);
        lemma_with_state_coherent(stepped, task.id, StateModel::Assigned(robot));
        let next = stepped.after_answer(task.id, answers(asked));
        let more = done.push(RecordModel { task_id: task.id, robot_id: robot });
        assert(next.queue == board.queue.skip(1));
        assert forall|i: int| 0 <= i < next.queue.len() implies (#[trigger] next.queue[i]).priority
            > 0 by {
            assert(next.queue[i] == board.queue[i + 1]);
        }
        assert forall|k: int| asked + 1 <= k < asked + 1 + next.queue.len() implies
            #[trigger] answers(k) is Ok by {}
        law_batch_confirms_in_order(next, answers, asked + 1, more);
        let result = board.batch_run(answers, asked, done);
        assert(result == next.batch_run(answers, asked + 1, more));
        assert forall|i: int| 0 <= i < done.len() implies result.outcome->Ok_0[i] == done[i] by {
            assert(more[i] == done[i]);
        }
        assert forall|i: int| 0 <= i < board.queue.len() implies #[trigger] result.outcome->Ok_0[done.len()
            + i] == (RecordModel {
            task_id: board.queue[i].id,
            robot_id: answers(asked + i)->Ok_0,
        }) by {
            if i == 0 {
                assert(result.outcome->Ok_0[done.len() as int] == more[done.len() as int]);
            } else {
                assert(next.queue[i - 1] == board.queue[i]);
                assert(result.outcome->Ok_0[more.len() + (i - 1)] == (RecordModel {
                    task_id: next.queue[i - 1].id,
                    robot_id: answers(asked + 1 + (i - 1))->Ok_0,
                }));
            }
        }
    }
}

} // verus!
