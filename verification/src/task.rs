//! Tasks, their life cycle, and the key by which pending tasks are ordered.

use vstd::prelude::*;
use crate::labels::{copy_labels, labels_of, Label};

verus! {

/// Number of entries every task payload must have.
pub const PAYLOAD_LEN: usize = 5;

/// Weight of one priority step in the ordering key. It is larger than any
/// urgency, so that priority always dominates the deadline.
pub const PRIORITY_WEIGHT: u128 = 18446744073709551617u128;

/// A unit of work submitted for execution by a robot.
#[derive(Clone, Debug, PartialEq, Eq)]
pub struct Task {
    /// Identifier, unique among the tasks that are not yet finished.
    pub id: u32,
    /// Free-form label of the command; never interpreted here.
    pub task_type: String,
    /// Urgency class; a higher value is served first.
    pub priority: u32,
    /// Latest dispatch time in milliseconds since the epoch, if any.
    pub deadline: Option<u64>,
    /// The robot that must execute the task, if one was chosen in advance.
    pub target_robot: Option<String>,
    /// Capabilities that the executing robot must have.
    pub required_capabilities: Vec<String>,
    /// Command arguments, each a single-precision number stored as its bit pattern.
    pub payload: Vec<u32>,
}

/// What contracts say of a task: its fields as mathematical values.
pub ghost struct TaskModel {
    pub id: u32,
    pub task_type: Label,
    pub priority: u32,
    pub deadline: Option<u64>,
    pub target_robot: Option<Label>,
    pub required_capabilities: Seq<Label>,
    pub payload: Seq<u32>,
}

/// The urgency that a deadline contributes to the ordering key: the earlier
/// the deadline, the larger the urgency; no deadline gives none at all.
pub open spec fn urgency_of(deadline: Option<u64>) -> int {
    match deadline {
        Some(d) => 18446744073709551616int - d as int,
        None => 0int,
    }
}

/// The ordering key of a task with the given priority and deadline.
pub open spec fn score_of(priority: u32, deadline: Option<u64>) -> int {
    priority as int * 18446744073709551617int + urgency_of(deadline)
}

impl TaskModel {
    /// The ordering key: a task with a larger score is served earlier.
    pub open spec fn score(self) -> int {
        score_of(self.priority, self.deadline)
    }

    /// Whether the task is served strictly before `other`.
    pub open spec fn outranks(self, other: TaskModel) -> bool {
        self.priority > other.priority || (self.priority == other.priority && match (
            self.deadline,
            other.deadline,
        ) {
            (Some(mine), Some(theirs)) => mine < theirs,
            (Some(_), None) => true,
            (None, _) => false,
        })
    }

    /// Whether the payload has the one accepted shape.
    pub open spec fn has_valid_payload(self) -> bool {
        self.payload.len() == PAYLOAD_LEN
    }

    /// Whether the deadline has passed at time `now`.
    pub open spec fn is_overdue(self, now: u64) -> bool {
        match self.deadline {
            Some(d) => now > d,
            None => false,
        }
    }
}

impl View for Task {
    type V = TaskModel;

    open spec fn view(&self) -> TaskModel {
        TaskModel {
            id: self.id,
            task_type: self.task_type@,
            priority: self.priority,
            deadline: self.deadline,
            target_robot: match self.target_robot {
                Some(r) => Some(r@),
                None => None,
            },
            required_capabilities: labels_of(self.required_capabilities@),
            payload: self.payload@,
        }
    }
}

/// Computes the ordering key of a priority and a deadline.
pub fn compute_score(priority: u32, deadline: Option<u64>) -> (score: u128)
    ensures
        score as int == score_of(priority, deadline),
{
    let urgency: u128 = match deadline {
        Some(d) => 18446744073709551616u128 - (d as u128),
        None => 0u128,
    };
    assert(priority as int * 18446744073709551617int <= 4294967295int * 18446744073709551617int)
        by (nonlinear_arith)
        requires
            priority <= 4294967295u32,
    ;
    (priority as u128) * PRIORITY_WEIGHT + urgency
}

/// The order of the scores is the order of service: priority first, then
/// the earlier deadline, and any deadline before none.
pub proof fn lemma_score_orders_by_rank(a: TaskModel, b: TaskModel)
    ensures
        a.score() > b.score() <==> a.outranks(b),
        a.score() == b.score() <==> (a.priority == b.priority && a.deadline == b.deadline),
{
    let w = 18446744073709551617int;
    assert(0 <= urgency_of(a.deadline) < w);
    assert(0 <= urgency_of(b.deadline) < w);
    if a.priority > b.priority {
        assert(a.priority as int * w >= (b.priority as int + 1) * w) by (nonlinear_arith)
            requires
                a.priority > b.priority,
                w > 0,
        ;
        assert((b.priority as int + 1) * w == b.priority as int * w + w) by (nonlinear_arith);
    } else if a.priority < b.priority {
        assert(b.priority as int * w >= (a.priority as int + 1) * w) by (nonlinear_arith)
            requires
                b.priority > a.priority,
                w > 0,
        ;
        assert((a.priority as int + 1) * w == a.priority as int * w + w) by (nonlinear_arith);
    }
}

impl Task {
    /// The ordering key of the task.
    pub fn score(&self) -> (score: u128)
        ensures
            score as int == self@.score(),
    {
        compute_score(self.priority, self.deadline)
    }

    /// Tells whether the task is served strictly before `other`.
    pub fn outranks(&self, other: &Task) -> (first: bool)
        ensures
            first == self@.outranks(other@),
            first == (self@.score() > other@.score()),
    {
        proof {
            lemma_score_orders_by_rank(self@, other@);
        }
        self.score() > other.score()
    }

    /// Tells whether the payload has the one accepted shape.
    pub fn has_valid_payload(&self) -> (valid: bool)
        ensures
            valid == self@.has_valid_payload(),
    {
        self.payload.len() == PAYLOAD_LEN
    }

    /// Tells whether the deadline has passed at time `now`.
    pub fn is_overdue(&self, now: u64) -> (overdue: bool)
        ensures
            overdue == self@.is_overdue(now),
    {
        match self.deadline {
            Some(d) => now > d,
            None => false,
        }
    }

    /// Makes an independent copy of the task.
    pub fn duplicate(&self) -> (copy: Task)
        ensures
            copy@ == self@,
    {
        let target_robot = match &self.target_robot {
            Some(r) => Some(r.clone()),
            None => None,
        };
        let mut payload: Vec<u32> = Vec::new();
        let mut i: usize = 0;
        while i < self.payload.len()
            invariant
                i <= self.payload.len(),
                payload@ == self.payload@.take(i as int),
            decreases self.payload.len() - i,
        {
            payload.push(self.payload[i]);
            assert(self.payload@.take(i + 1) =~= self.payload@.take(i as int).push(
                self.payload@[i as int],
            ));
            i += 1;
        }
        assert(self.payload@.take(i as int) =~= self.payload@);
        Task {
            id: self.id,
            task_type: self.task_type.clone(),
            priority: self.priority,
            deadline: self.deadline,
            target_robot,
            required_capabilities: copy_labels(&self.required_capabilities),
            payload,
        }
    }
}

/// Where a task stands in its life cycle.
#[derive(Clone, Debug, PartialEq, Eq)]
pub enum TaskState {
    /// Admitted and waiting in the queue.
    Pending,
    /// Taken from the queue and handed to the assignment backend.
    Dispatched,
    /// Discarded at dispatch because its deadline had passed.
    DroppedDeadlineMissed,
    /// Accepted by the backend for the named robot.
    Assigned(String),
    /// Refused by the backend, with its reason.
    AssignmentFailed(String),
}

/// What contracts say of a state.
pub ghost enum StateModel {
    Pending,
    Dispatched,
    DroppedDeadlineMissed,
    Assigned(Label),
    AssignmentFailed(Label),
}

impl StateModel {
    /// Whether the task can still change state.
    pub open spec fn is_live(self) -> bool {
        self is Pending || self is Dispatched
    }
}

impl View for TaskState {
    type V = StateModel;

    open spec fn view(&self) -> StateModel {
        match self {
            TaskState::Pending => StateModel::Pending,
            TaskState::Dispatched => StateModel::Dispatched,
            TaskState::DroppedDeadlineMissed => StateModel::DroppedDeadlineMissed,
            TaskState::Assigned(robot) => StateModel::Assigned(robot@),
            TaskState::AssignmentFailed(reason) => StateModel::AssignmentFailed(reason@),
        }
    }
}

impl TaskState {
    /// Tells whether the task can still change state.
    pub fn is_live(&self) -> (live: bool)
        ensures
            live == self@.is_live(),
    {
        match self {
            TaskState::Pending => true,
            TaskState::Dispatched => true,
            _ => false,
        }
    }

    /// Makes an independent copy of this state.
    pub fn duplicate(&self) -> (copy: TaskState)
        ensures
            copy@ == self@,
    {
        match self {
            TaskState::Pending => TaskState::Pending,
            TaskState::Dispatched => TaskState::Dispatched,
            TaskState::DroppedDeadlineMissed => TaskState::DroppedDeadlineMissed,
            TaskState::Assigned(robot) => TaskState::Assigned(robot.clone()),
            TaskState::AssignmentFailed(reason) => TaskState::AssignmentFailed(reason.clone()),
        }
    }
}

/// A task together with its current state.
#[derive(Clone, Debug, PartialEq, Eq)]
pub struct TaskSnapshot {
    pub task: Task,
    pub state: TaskState,
}

/// What contracts say of a snapshot.
pub ghost struct SnapshotModel {
    pub task: TaskModel,
    pub state: StateModel,
}

impl View for TaskSnapshot {
    type V = SnapshotModel;

    open spec fn view(&self) -> SnapshotModel {
        SnapshotModel { task: self.task@, state: self.state@ }
    }
}

impl TaskSnapshot {
    /// Makes an independent copy of this snapshot.
    pub fn duplicate(&self) -> (copy: TaskSnapshot)
        ensures
            copy@ == self@,
    {
        TaskSnapshot { task: self.task.duplicate(), state: self.state.duplicate() }
    }
}

} // verus!
