//! The board of admitted tasks: the queue of those that wait, and for every
//! task that was admitted the state it has reached.

use std::collections::HashMap;
use vstd::prelude::*;
use crate::error::{verdict_model, AssignmentError, SchedulingError, SchedulingErrorModel};
use crate::labels::Label;
use crate::queue::{
    entry_position, holds_id, is_ordered, lemma_entry_position, lemma_position_of_id,
    lemma_with_task_ordered, position_of_id, with_task, TaskQueue,
};
use crate::task::{SnapshotModel, StateModel, Task, TaskModel, TaskSnapshot, TaskState};

verus! {

broadcast use vstd::std_specs::hash::group_hash_axioms;

/// The receipt for an admitted task.
#[derive(Clone, Debug, PartialEq, Eq)]
pub struct Ack {
    /// The id of the task that was admitted.
    pub task_id: u32,
    /// The number of tasks that wait in front of it.
    pub position: usize,
}

/// What contracts say of a board.
pub ghost struct BoardModel {
    /// The waiting tasks in the order of service.
    pub queue: Seq<TaskModel>,
    /// Every known task with its state, by id.
    pub records: Map<u32, SnapshotModel>,
}

impl BoardModel {
    /// The board on which nothing was ever admitted.
    pub open spec fn empty() -> BoardModel {
        BoardModel { queue: Seq::empty(), records: Map::empty() }
    }

    /// Whether a task with this id is known and not yet finished.
    pub open spec fn is_live(self, id: u32) -> bool {
        self.records.contains_key(id) && self.records[id].state.is_live()
    }

    /// Whether a task with this id waits in the queue.
    pub open spec fn is_pending(self, id: u32) -> bool {
        self.records.contains_key(id) && self.records[id].state is Pending
    }

    /// The invariant of a board: the queue is ordered and holds no id
    /// twice, and the waiting tasks are exactly the pending records.
    pub open spec fn coherent(self) -> bool {
        &&& is_ordered(self.queue)
        &&& forall|i: int, j: int|
            0 <= i < j < self.queue.len() ==> (#[trigger] self.queue[i]).id != (
            #[trigger] self.queue[j]).id
        &&& forall|i: int|
            0 <= i < self.queue.len() ==> self.records.contains_key((#[trigger] self.queue[i]).id)
                && self.records[self.queue[i].id] == (SnapshotModel {
                task: self.queue[i],
                state: StateModel::Pending,
            })
        &&& forall|id: u32| #[trigger]
            self.records.contains_key(id) ==> self.records[id].task.id == id && (
            self.records[id].state is Pending ==> holds_id(self.queue, id))
    }

    /// The verdict on a task that asks for admission, given the verdict of
    /// the registry on the robot it names: a live id is refused first, then
    /// a malformed payload, then what the registry refused.
    pub open spec fn admission_verdict(
        self,
        task: TaskModel,
        target: Result<(), SchedulingErrorModel>,
    ) -> Result<(), SchedulingErrorModel> {
        if self.is_live(task.id) {
            Err(SchedulingErrorModel::DuplicateTaskId(task.id))
        } else if !task.has_valid_payload() {
            Err(SchedulingErrorModel::InvalidPayload)
        } else {
            target
        }
    }

    /// The board after `task` was admitted.
    pub open spec fn with_admitted(self, task: TaskModel) -> BoardModel {
        BoardModel {
            queue: with_task(self.queue, task),
            records: self.records.insert(
                task.id,
                SnapshotModel { task, state: StateModel::Pending },
            ),
        }
    }

    /// What a status query for `id` answers.
    pub open spec fn status(self, id: u32) -> Option<SnapshotModel> {
        if self.records.contains_key(id) {
            Some(self.records[id])
        } else {
            None
        }
    }
}

/// What the dispatcher does with a task that it received.
#[derive(Clone, Debug, PartialEq, Eq)]
pub enum Dispatch {
    /// The task is not waiting any more: there is nothing to do.
    Stale,
    /// The deadline has passed: the task was discarded.
    Dropped(Task),
    /// The task is to be handed to the assignment backend.
    Forward(Task),
}

/// What contracts say of a dispatch decision.
pub ghost enum DispatchModel {
    Stale,
    Dropped(TaskModel),
    Forward(TaskModel),
}

impl View for Dispatch {
    type V = DispatchModel;

    open spec fn view(&self) -> DispatchModel {
        match self {
            Dispatch::Stale => DispatchModel::Stale,
            Dispatch::Dropped(task) => DispatchModel::Dropped(task@),
            Dispatch::Forward(task) => DispatchModel::Forward(task@),
        }
    }
}

/// One step of a batch: what was taken from the head of the queue.
#[derive(Clone, Debug, PartialEq, Eq)]
pub enum BatchStep {
    /// The queue is empty.
    Finished,
    /// The task with this id has priority zero; it was discarded.
    Rejected(u32),
    /// The task is to be handed to the assignment backend.
    Assign(Task),
}

/// What contracts say of a batch step.
pub ghost enum BatchStepModel {
    Finished,
    Rejected(u32),
    Assign(TaskModel),
}

impl View for BatchStep {
    type V = BatchStepModel;

    open spec fn view(&self) -> BatchStepModel {
        match self {
            BatchStep::Finished => BatchStepModel::Finished,
            BatchStep::Rejected(id) => BatchStepModel::Rejected(*id),
            BatchStep::Assign(task) => BatchStepModel::Assign(task@),
        }
    }
}

/// The model of what the assignment backend answered: the robot it
/// chose, or its reason for refusing.
pub open spec fn answer_model(answer: Result<String, AssignmentError>) -> Result<Label, Label> {
    match answer {
        Ok(robot) => Ok(robot@),
        Err(e) => Err(e@),
    }
}

/// The state that a backend answer puts a task in.
pub open spec fn state_after(answer: Result<Label, Label>) -> StateModel {
    match answer {
        Ok(robot) => StateModel::Assigned(robot),
        Err(reason) => StateModel::AssignmentFailed(reason),
    }
}

impl BoardModel {
    /// The board with the state of the known task `id` changed.
    pub open spec fn with_state(self, id: u32, state: StateModel) -> BoardModel {
        BoardModel {
            queue: self.queue,
            records: self.records.insert(id, SnapshotModel { task: self.records[id].task, state }),
        }
    }

    /// The board without the first waiting task that has the given id.
    pub open spec fn without_waiting(self, id: u32) -> BoardModel {
        BoardModel {
            queue: self.queue.remove(position_of_id(self.queue, id)),
            records: self.records,
        }
    }

    /// What the dispatcher does with the task `id` at time `now`: nothing
    /// where it does not wait any more; it drops it where its deadline has
    /// passed; else it forwards it.
    pub open spec fn dispatch_decision(self, id: u32, now: u64) -> DispatchModel {
        if !self.is_pending(id) {
            DispatchModel::Stale
        } else if self.records[id].task.is_overdue(now) {
            DispatchModel::Dropped(self.records[id].task)
        } else {
            DispatchModel::Forward(self.records[id].task)
        }
    }

    /// The board after the dispatcher dealt with the task `id` at time `now`.
    pub open spec fn after_dispatch(self, id: u32, now: u64) -> BoardModel {
        match self.dispatch_decision(id, now) {
            DispatchModel::Stale => self,
            DispatchModel::Dropped(_) => self.without_waiting(id).with_state(
                id,
                StateModel::DroppedDeadlineMissed,
            ),
            DispatchModel::Forward(_) => self.without_waiting(id).with_state(
                id,
                StateModel::Dispatched,
            ),
        }
    }

    /// Whether the task `id` was handed to the backend and awaits its answer.
    pub open spec fn awaits_answer(self, id: u32) -> bool {
        self.records.contains_key(id) && self.records[id].state is Dispatched
    }

    /// The board after the backend answered for the task `id`. An answer
    /// for a task that awaits none changes nothing.
    pub open spec fn after_answer(self, id: u32, answer: Result<Label, Label>) -> BoardModel {
        if self.awaits_answer(id) {
            self.with_state(id, state_after(answer))
        } else {
            self
        }
    }

    /// What the next step of a batch takes from the queue.
    pub open spec fn batch_step(self) -> BatchStepModel {
        if self.queue.len() == 0 {
            BatchStepModel::Finished
        } else if self.queue[0].priority == 0 {
            BatchStepModel::Rejected(self.queue[0].id)
        } else {
            BatchStepModel::Assign(self.queue[0])
        }
    }

    /// The board after the next step of a batch: the head of the queue is
    /// gone; a rejected task is forgotten, any other awaits its answer.
    pub open spec fn after_batch_step(self) -> BoardModel {
        match self.batch_step() {
            BatchStepModel::Finished => self,
            BatchStepModel::Rejected(id) => BoardModel {
                queue: self.queue.skip(1),
                records: self.records.remove(id),
            },
            BatchStepModel::Assign(task) => BoardModel {
                queue: self.queue.skip(1),
                records: self.records.insert(
                    task.id,
                    SnapshotModel { task, state: StateModel::Dispatched },
                ),
            },
        }
    }
}

/// Taking a waiting task out and giving it a state other than pending
/// keeps a board coherent.
pub proof fn lemma_taken_out_coherent(board: BoardModel, id: u32, state: StateModel)
    requires
        board.coherent(),
        board.is_pending(id),
        !(state is Pending),
    ensures
        holds_id(board.queue, id),
        board.queue[position_of_id(board.queue, id)] == board.records[id].task,
        board.without_waiting(id).with_state(id, state).coherent(),
{
    lemma_position_of_id(board.queue, id);
    let p = position_of_id(board.queue, id);
    let after = board.without_waiting(id).with_state(id, state);
    assert(board.records[board.queue[p].id].task == board.queue[p]);
    assert forall|i: int| 0 <= i < after.queue.len() implies (#[trigger] after.queue[i])
        == board.queue[if i < p { i } else { i + 1 }] by {}
    assert forall|i: int, j: int| 0 <= i < j < after.queue.len() implies after.queue[i].score()
        >= after.queue[j].score() by {
        let a = if i < p { i } else { i + 1 };
        let b = if j < p { j } else { j + 1 };
        assert(after.queue[i] == board.queue[a] && after.queue[j] == board.queue[b]);
    }
    assert forall|i: int, j: int| 0 <= i < j < after.queue.len() implies (
    #[trigger] after.queue[i]).id != (#[trigger] after.queue[j]).id by {
        let a = if i < p { i } else { i + 1 };
        let b = if j < p { j } else { j + 1 };
        assert(after.queue[i] == board.queue[a] && after.queue[j] == board.queue[b]);
    }
    assert forall|i: int| 0 <= i < after.queue.len() implies after.records.contains_key(
        (#[trigger] after.queue[i]).id,
    ) && after.records[after.queue[i].id] == (SnapshotModel {
        task: after.queue[i],
        state: StateModel::Pending,
    }) by {
        let a = if i < p { i } else { i + 1 };
        assert(after.queue[i] == board.queue[a]);
        assert(board.queue[a].id != board.queue[p].id);
    }
    assert forall|other: u32| #[trigger] after.records.contains_key(other) implies after.records[other].task.id
        == other && (after.records[other].state is Pending ==> holds_id(after.queue, other)) by {
        if other != id && after.records[other].state is Pending {
            assert(board.records.contains_key(other));
            let k = choose|k: int| 0 <= k < board.queue.len() && (#[trigger] board.queue[k]).id
                == other;
            let k2 = if k < p { k } else { k - 1 };
            assert(after.queue[k2] == board.queue[k]);
        }
    }
}

/// Changing the state of a task that does not wait, to a state other than
/// pending, keeps a board coherent.
pub proof fn lemma_with_state_coherent(board: BoardModel, id: u32, state: StateModel)
    requires
        board.coherent(),
        board.records.contains_key(id),
        !(board.records[id].state is Pending),
        !(state is Pending),
    ensures
        board.with_state(id, state).coherent(),
{
    let after = board.with_state(id, state);
    assert forall|i: int| 0 <= i < after.queue.len() implies after.records.contains_key(
        (#[trigger] after.queue[i]).id,
    ) && after.records[after.queue[i].id] == (SnapshotModel {
        task: after.queue[i],
        state: StateModel::Pending,
    }) by {
        assert(board.records[board.queue[i].id].state is Pending);
    }
    assert forall|other: u32| #[trigger] after.records.contains_key(other) implies after.records[other].task.id
        == other && (after.records[other].state is Pending ==> holds_id(after.queue, other)) by {
        if other != id {
            assert(board.records.contains_key(other));
        }
    }
}

/// A step of a batch keeps a board coherent.
pub proof fn lemma_batch_step_coherent(board: BoardModel)
    requires
        board.coherent(),
    ensures
        board.after_batch_step().coherent(),
{
    let after = board.after_batch_step();
    if board.queue.len() > 0 {
        let head = board.queue[0];
        assert(board.records[head.id].task == head);
        assert forall|i: int| 0 <= i < after.queue.len() implies (#[trigger] after.queue[i])
            == board.queue[i + 1] by {}
        assert forall|i: int, j: int| 0 <= i < j < after.queue.len() implies after.queue[i].score()
            >= after.queue[j].score() by {
            assert(after.queue[i] == board.queue[i + 1] && after.queue[j] == board.queue[j + 1]);
        }
        assert forall|i: int, j: int| 0 <= i < j < after.queue.len() implies (
        #[trigger] after.queue[i]).id != (#[trigger] after.queue[j]).id by {
            assert(after.queue[i] == board.queue[i + 1] && after.queue[j] == board.queue[j + 1]);
        }
        assert forall|i: int| 0 <= i < after.queue.len() implies after.records.contains_key(
            (#[trigger] after.queue[i]).id,
        ) && after.records[after.queue[i].id] == (SnapshotModel {
            task: after.queue[i],
            state: StateModel::Pending,
        }) by {
            assert(after.queue[i] == board.queue[i + 1]);
            assert(board.queue[i + 1].id != board.queue[0].id);
        }
        assert forall|other: u32| #[trigger] after.records.contains_key(other) implies after.records[other].task.id
            == other && (after.records[other].state is Pending ==> holds_id(after.queue, other)) by {
            if other != head.id && after.records[other].state is Pending {
                assert(board.records.contains_key(other));
                let k = choose|k: int| 0 <= k < board.queue.len() && (#[trigger] board.queue[k]).id
                    == other;
                assert(after.queue[k - 1] == board.queue[k]);
            }
        }
    }
}

/// Admitting a task whose id is not live keeps a board coherent.
pub proof fn lemma_admission_coherent(board: BoardModel, task: TaskModel)
    requires
        board.coherent(),
        !board.is_live(task.id),
    ensures
        board.with_admitted(task).coherent(),
{
    let after = board.with_admitted(task);
    let p = entry_position(board.queue, task);
    lemma_entry_position(board.queue, task);
    lemma_with_task_ordered(board.queue, task);
    assert(!holds_id(board.queue, task.id)) by {
        if holds_id(board.queue, task.id) {
            let k = choose|k: int| 0 <= k < board.queue.len() && (#[trigger] board.queue[k]).id
                == task.id;
            assert(board.records[board.queue[k].id].state is Pending);
        }
    }
    assert forall|i: int| 0 <= i < after.queue.len() implies after.records.contains_key(
        (#[trigger] after.queue[i]).id,
    ) && after.records[after.queue[i].id] == (SnapshotModel {
        task: after.queue[i],
        state: StateModel::Pending,
    }) by {
        if i < p {
            assert(after.queue[i] == board.queue[i]);
        } else if i > p {
            assert(after.queue[i] == board.queue[i - 1]);
        }
    }
    assert forall|i: int, j: int| 0 <= i < j < after.queue.len() implies (
    #[trigger] after.queue[i]).id != (#[trigger] after.queue[j]).id by {
        let a = if i < p { i } else { i - 1 };
        let b = if j < p { j } else { j - 1 };
        if i != p {
            assert(after.queue[i] == board.queue[a]);
        }
        if j != p {
            assert(after.queue[j] == board.queue[b]);
        }
    }
    assert forall|id: u32| #[trigger] after.records.contains_key(id) implies after.records[id].task.id
        == id && (after.records[id].state is Pending ==> holds_id(after.queue, id)) by {
        if id == task.id {
            assert(after.queue[p].id == id);
        } else if after.records[id].state is Pending {
            assert(board.records.contains_key(id));
            let k = choose|k: int| 0 <= k < board.queue.len() && (#[trigger] board.queue[k]).id
                == id;
            let k2 = if k < p { k } else { k + 1 };
            assert(after.queue[k2] == board.queue[k]);
        }
    }
}

/// The board of admitted tasks.
pub struct TaskBoard {
    queue: TaskQueue,
    records: HashMap<u32, TaskSnapshot>,
}

impl View for TaskBoard {
    type V = BoardModel;

    closed spec fn view(&self) -> BoardModel {
        BoardModel {
            queue: self.queue@,
            records: self.records@.map_values(|s: TaskSnapshot| s@),
        }
    }
}

impl TaskBoard {
    /// The board's invariant.
    pub open spec fn wf(&self) -> bool {
        self@.coherent()
    }

    /// Makes a board on which nothing was admitted.
    pub fn new() -> (board: TaskBoard)
        ensures
            board.wf(),
            board@ == BoardModel::empty(),
    {
        let board = TaskBoard { queue: TaskQueue::new(), records: HashMap::new() };
        assert(board@.records =~= Map::<u32, SnapshotModel>::empty());
        board
    }

    /// The number of waiting tasks.
    pub fn pending_len(&self) -> (n: usize)
        ensures
            n == self@.queue.len(),
    {
        self.queue.len()
    }

    /// The waiting task that will be served next, if any.
    pub fn peek(&self) -> (next: Option<&Task>)
        ensures
            next is Some <==> self@.queue.len() > 0,
            next is Some ==> next.unwrap()@ == self@.queue[0],
    {
        self.queue.peek()
    }

    /// Tells whether a task with this id is known and not yet finished.
    pub fn is_live(&self, id: u32) -> (live: bool)
        ensures
            live == self@.is_live(id),
    {
        match self.records.get(&id) {
            Some(snapshot) => snapshot.state.is_live(),
            None => false,
        }
    }

    /// The task with this id and the state it has reached, if it is known.
    pub fn status(&self, id: u32) -> (found: Option<TaskSnapshot>)
        ensures
            match found {
                Some(snapshot) => self@.status(id) == Some(snapshot@),
                None => self@.status(id) is None,
            },
    {
        match self.records.get(&id) {
            Some(snapshot) => Some(snapshot.duplicate()),
            None => None,
        }
    }

    /// Admits a task, given the verdict of the registry on the robot that
    /// it names. A refused task leaves the board as it was.
    pub fn submit(&mut self, task: Task, target: Result<(), SchedulingError>) -> (outcome: Result<
        Ack,
        SchedulingError,
    >)
        requires
            old(self).wf(),
        ensures
            final(self).wf(),
            match outcome {
                Ok(ack) => old(self)@.admission_verdict(task@, verdict_model(target)) is Ok
                    && final(self)@ == old(self)@.with_admitted(task@) && ack.task_id == task@.id
                    && ack.position == entry_position(old(self)@.queue, task@),
                Err(e) => old(self)@.admission_verdict(task@, verdict_model(target)) == Err::<
                    (),
                    SchedulingErrorModel,
                >(e@) && final(self)@ == old(self)@,
            },
    {
        if self.is_live(task.id) {
            return Err(SchedulingError::DuplicateTaskId(task.id));
        }
        if !task.has_valid_payload() {
            return Err(SchedulingError::InvalidPayload);
        }
        match target {
            Err(e) => Err(e),
            Ok(_) => {
                proof {
                    lemma_admission_coherent(self@, task@);
                    lemma_entry_position(self@.queue, task@);
                }
                let id = task.id;
                let before = self.queue.len();
                let snapshot = TaskSnapshot { task: task.duplicate(), state: TaskState::Pending };
                self.records.insert(id, snapshot);
                let position = self.queue.position_for(&task);
                self.queue.insert(task);
                assert(self@.records =~= old(self)@.with_admitted(task@).records);
                Ok(Ack { task_id: id, position })
            },
        }
    }
}

impl TaskBoard {
    /// Tells whether a task with this id waits in the queue.
    pub fn is_pending(&self, id: u32) -> (pending: bool)
        ensures
            pending == self@.is_pending(id),
    {
        match self.records.get(&id) {
            Some(snapshot) => match snapshot.state {
                TaskState::Pending => true,
                _ => false,
            },
            None => false,
        }
    }

    /// Tells whether the task with this id awaits the backend's answer.
    pub fn awaits_answer(&self, id: u32) -> (waiting: bool)
        ensures
            waiting == self@.awaits_answer(id),
    {
        match self.records.get(&id) {
            Some(snapshot) => match snapshot.state {
                TaskState::Dispatched => true,
                _ => false,
            },
            None => false,
        }
    }

    /// Deals with a task that the dispatcher received, at time `now`. A
    /// task that still waits leaves the queue: where its deadline has
    /// passed it is dropped for good, otherwise it is to be forwarded to
    /// the backend. A task that does not wait any more is left alone.
    pub fn dispatch(&mut self, id: u32, now: u64) -> (decision: Dispatch)
        requires
            old(self).wf(),
        ensures
            final(self).wf(),
            decision@ == old(self)@.dispatch_decision(id, now),
            final(self)@ == old(self)@.after_dispatch(id, now),
    {
        if !self.is_pending(id) {
            return Dispatch::Stale;
        }
        proof {
            lemma_taken_out_coherent(self@, id, StateModel::Dispatched);
            lemma_taken_out_coherent(self@, id, StateModel::DroppedDeadlineMissed);
        }
        match self.queue.remove_id(id) {
            None => Dispatch::Stale,
            Some(task) => {
                let overdue = task.is_overdue(now);
                let state = if overdue {
                    TaskState::DroppedDeadlineMissed
                } else {
                    TaskState::Dispatched
                };
                self.records.insert(id, TaskSnapshot { task: task.duplicate(), state });
                assert(self@.records =~= old(self)@.after_dispatch(id, now).records);
                if overdue {
                    Dispatch::Dropped(task)
                } else {
                    Dispatch::Forward(task)
                }
            },
        }
    }

    /// Records what the backend answered for the task `id`: the task is
    /// assigned to the robot it chose, or has failed with its reason. An
    /// answer for a task that awaits none is ignored.
    pub fn complete(&mut self, id: u32, answer: Result<String, AssignmentError>) -> (applied: bool)
        requires
            old(self).wf(),
        ensures
            final(self).wf(),
            applied == old(self)@.awaits_answer(id),
            final(self)@ == old(self)@.after_answer(id, answer_model(answer)),
    {
        let task = match self.records.get(&id) {
            Some(snapshot) => match snapshot.state {
                TaskState::Dispatched => snapshot.task.duplicate(),
                _ => {
                    return false;
                },
            },
            None => {
                return false;
            },
        };
        let state = match answer {
            Ok(robot) => TaskState::Assigned(robot),
            Err(e) => TaskState::AssignmentFailed(e.reason),
        };
        proof {
            lemma_with_state_coherent(self@, id, state@);
        }
        self.records.insert(id, TaskSnapshot { task, state });
        assert(self@.records =~= old(self)@.after_answer(id, answer_model(answer)).records);
        true
    }

    /// Takes the next task of a batch from the head of the queue. A task
    /// of priority zero is discarded and forgotten; any other is to be
    /// handed to the backend and awaits its answer from now on.
    pub fn take_next(&mut self) -> (step: BatchStep)
        requires
            old(self).wf(),
        ensures
            final(self).wf(),
            step@ == old(self)@.batch_step(),
            final(self)@ == old(self)@.after_batch_step(),
    {
        proof {
            lemma_batch_step_coherent(self@);
        }
        match self.queue.pop_max() {
            None => BatchStep::Finished,
            Some(task) => {
                let id = task.id;
                if task.priority == 0 {
                    self.records.remove(&id);
                    assert(self@.records =~= old(self)@.after_batch_step().records);
                    BatchStep::Rejected(id)
                } else {
                    self.records.insert(
                        id,
                        TaskSnapshot { task: task.duplicate(), state: TaskState::Dispatched },
                    );
                    assert(self@.records =~= old(self)@.after_batch_step().records);
                    BatchStep::Assign(task)
                }
            },
        }
    }
}

} // verus!
