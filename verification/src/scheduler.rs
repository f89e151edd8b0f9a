//! The scheduler: admission control over a registry of robots and a board
//! of tasks.

use vstd::prelude::*;
use crate::batch::{answered_by, batch_outcome_model, AssignmentRecord};
use crate::board::{answer_model, Ack, BoardModel, Dispatch, TaskBoard};
use crate::error::{
    AssignmentError, ProcessingError, RegistrationError, RegistrationErrorModel, SchedulingError,
    SchedulingErrorModel,
};
use crate::labels::{labels_of, Label};
use crate::queue::entry_position;
use crate::boundary::{json_label_list, registration_reply, undecodable_reply};
use crate::registry::{
    distinct_ids, eligible_in, knows, target_verdict, with_robot, CapabilityRegistry, RobotModel,
};
use crate::task::{Task, TaskModel, TaskSnapshot};

verus! {

/// What contracts say of a scheduler.
pub ghost struct SchedulerModel {
    /// The registered robots in order of registration.
    pub robots: Seq<RobotModel>,
    /// The board of tasks.
    pub board: BoardModel,
}

impl SchedulerModel {
    /// The scheduler without robots and tasks.
    pub open spec fn empty() -> SchedulerModel {
        SchedulerModel { robots: Seq::empty(), board: BoardModel::empty() }
    }

    /// The invariant of a scheduler.
    pub open spec fn coherent(self) -> bool {
        distinct_ids(self.robots) && self.board.coherent()
    }

    /// The scheduler after a robot was registered; a known id changes nothing.
    pub open spec fn after_register(self, robot: RobotModel) -> SchedulerModel {
        SchedulerModel { robots: with_robot(self.robots, robot), board: self.board }
    }

    /// The verdict on a task that asks for admission. A task whose id is
    /// still live is refused first; then one with a malformed payload;
    /// then one that names an unknown robot; then one that names a robot
    /// without all the required capabilities. Priority plays no part.
    pub open spec fn schedule_verdict(self, task: TaskModel) -> Result<(), SchedulingErrorModel> {
        self.board.admission_verdict(task, target_verdict(self.robots, task))
    }

    /// The scheduler after a task asked for admission: an admitted task
    /// waits in the queue, a refused one changes nothing.
    pub open spec fn after_schedule(self, task: TaskModel) -> SchedulerModel {
        if self.schedule_verdict(task) is Ok {
            SchedulerModel { robots: self.robots, board: self.board.with_admitted(task) }
        } else {
            self
        }
    }

    /// The scheduler after the dispatcher dealt with the task `id` at time `now`.
    pub open spec fn after_dispatch(self, id: u32, now: u64) -> SchedulerModel {
        SchedulerModel { robots: self.robots, board: self.board.after_dispatch(id, now) }
    }

    /// The robots that may execute a task: those with every capability it requires.
    pub open spec fn eligible_for(self, task: TaskModel) -> Seq<Label> {
        eligible_in(self.robots, task.required_capabilities)
    }
}

/// Admission control over a registry of robots and a board of tasks.
pub struct Scheduler {
    registry: CapabilityRegistry,
    board: TaskBoard,
}

impl View for Scheduler {
    type V = SchedulerModel;

    closed spec fn view(&self) -> SchedulerModel {
        SchedulerModel { robots: self.registry@, board: self.board@ }
    }
}

impl Scheduler {
    /// The scheduler's invariant.
    pub open spec fn wf(&self) -> bool {
        self@.coherent()
    }

    /// Makes a scheduler without robots and tasks.
    pub fn new() -> (scheduler: Scheduler)
        ensures
            scheduler.wf(),
            scheduler@ == SchedulerModel::empty(),
    {
        Scheduler { registry: CapabilityRegistry::new(), board: TaskBoard::new() }
    }

    /// Puts a registry and a board together.
    pub fn from_parts(registry: CapabilityRegistry, board: TaskBoard) -> (scheduler: Scheduler)
        requires
            registry.wf(),
            board.wf(),
        ensures
            scheduler.wf(),
            scheduler@ == (SchedulerModel { robots: registry@, board: board@ }),
    {
        Scheduler { registry, board }
    }

    /// Takes the scheduler apart, so that each part can be guarded on its own.
    pub fn into_parts(self) -> (parts: (CapabilityRegistry, TaskBoard))
        requires
            self.wf(),
        ensures
            parts.0.wf(),
            parts.1.wf(),
            parts.0@ == self@.robots,
            parts.1@ == self@.board,
    {
        (self.registry, self.board)
    }

    /// The registry of robots.
    pub fn registry(&self) -> (registry: &CapabilityRegistry)
        ensures
            registry@ == self@.robots,
    {
        &self.registry
    }

    /// The board of tasks.
    pub fn board(&self) -> (board: &TaskBoard)
        ensures
            board@ == self@.board,
    {
        &self.board
    }

    /// Registers a robot with its capabilities. An id that is registered
    /// already is refused, and nothing changes.
    pub fn register_robot(&mut self, robot_id: String, capabilities: Vec<String>) -> (outcome:
        Result<(), RegistrationError>)
        requires
            old(self).wf(),
        ensures
            final(self).wf(),
            final(self)@ == old(self)@.after_register(
                RobotModel { id: robot_id@, capabilities: labels_of(capabilities@) },
            ),
            match outcome {
                Ok(_) => !knows(old(self)@.robots, robot_id@),
                Err(e) => knows(old(self)@.robots, robot_id@) && e@
                    == RegistrationErrorModel::DuplicateRobot(robot_id@),
            },
    {
        self.registry.register(robot_id, capabilities)
    }

    /// Registers a robot whose capabilities arrive as a JSON array of
    /// strings, and writes the reply. Where the text is no such array
    /// nothing changes and the reply passes the decoder's complaint on.
    pub fn register_robot_json(&mut self, robot_id: String, capabilities_json: &str) -> (reply:
        String)
        requires
            old(self).wf(),
        ensures
            final(self).wf(),
            match json_label_list(capabilities_json@) {
                Some(capabilities) => final(self)@ == old(self)@.after_register(
                    RobotModel { id: robot_id@, capabilities },
                ) && reply@ == registration_reply(old(self)@.robots, robot_id@),
                None => final(self)@ == old(self)@ && exists|complaint: Seq<char>|
                    reply@ == #[trigger] undecodable_reply(complaint),
            },
    {
        self.registry.register_json(robot_id, capabilities_json)
    }

    /// Asks for the admission of a task. An admitted task waits in the
    /// queue behind every task that is served no later than it; a refused
    /// task changes nothing.
    pub fn schedule_task(&mut self, task: Task) -> (outcome: Result<Ack, SchedulingError>)
        requires
            old(self).wf(),
        ensures
            final(self).wf(),
            final(self)@ == old(self)@.after_schedule(task@),
            match outcome {
                Ok(ack) => old(self)@.schedule_verdict(task@) is Ok && ack.task_id == task@.id
                    && ack.position == entry_position(old(self)@.board.queue, task@),
                Err(e) => old(self)@.schedule_verdict(task@) == Err::<(), SchedulingErrorModel>(
                    e@,
                ),
            },
    {
        let target = self.registry.check_target(&task);
        self.board.submit(task, target)
    }

    /// The task with this id and the state it has reached, if it is known.
    pub fn get_task_status(&self, id: u32) -> (found: Option<TaskSnapshot>)
        ensures
            match found {
                Some(snapshot) => self@.board.status(id) == Some(snapshot@),
                None => self@.board.status(id) is None,
            },
    {
        self.board.status(id)
    }

    /// The number of waiting tasks.
    pub fn pending_len(&self) -> (n: usize)
        ensures
            n == self@.board.queue.len(),
    {
        self.board.pending_len()
    }

    /// The waiting task that will be served next, if any.
    pub fn peek(&self) -> (next: Option<&Task>)
        ensures
            next is Some <==> self@.board.queue.len() > 0,
            next is Some ==> next.unwrap()@ == self@.board.queue[0],
    {
        self.board.peek()
    }

    /// The ids, in order of registration, of the robots that may execute `task`.
    pub fn eligible_robots(&self, task: &Task) -> (eligible: Vec<String>)
        ensures
            labels_of(eligible@) == self@.eligible_for(task@),
    {
        self.registry.eligible_robots(&task.required_capabilities)
    }

    /// Deals with a task that the dispatcher received, at time `now`: a
    /// waiting task leaves the queue and is dropped where its deadline has
    /// passed, and is to be forwarded to the backend otherwise.
    pub fn dispatch(&mut self, id: u32, now: u64) -> (decision: Dispatch)
        requires
            old(self).wf(),
        ensures
            final(self).wf(),
            decision@ == old(self)@.board.dispatch_decision(id, now),
            final(self)@ == old(self)@.after_dispatch(id, now),
    {
        self.board.dispatch(id, now)
    }

    /// Records what the backend answered for the task `id`.
    pub fn complete(&mut self, id: u32, answer: Result<String, AssignmentError>) -> (applied: bool)
        requires
            old(self).wf(),
        ensures
            final(self).wf(),
            applied == old(self)@.board.awaits_answer(id),
            final(self)@ == (SchedulerModel {
                robots: old(self)@.robots,
                board: old(self)@.board.after_answer(id, answer_model(answer)),
            }),
    {
        self.board.complete(id, answer)
    }

    /// Serves the whole queue in one batch, handing each task in turn to
    /// `assign` together with the robots that may execute it. The batch
    /// ends at the first task of priority zero or the first refusal, and
    /// nothing that was taken out is put back.
    pub fn drain_and_process<F>(&mut self, assign: F) -> (outcome: Result<
        Vec<AssignmentRecord>,
        ProcessingError,
    >) where F: Fn(&Task, &Vec<String>) -> Result<String, AssignmentError>
        requires
            old(self).wf(),
            forall|task: &Task, eligible: &Vec<String>|
                old(self)@.board.queue.contains(task@) && labels_of(eligible@)
                    == old(self)@.eligible_for(task@) ==> #[trigger] call_requires(
                    assign,
                    (task, eligible),
                ),
        ensures
            final(self).wf(),
            final(self)@.robots == old(self)@.robots,
            exists|answers: spec_fn(int) -> Result<Label, Label>|
                {
                    let run = #[trigger] old(self)@.board.batch(answers);
                    &&& run.board == final(self)@.board
                    &&& run.outcome == batch_outcome_model(outcome)
                    &&& forall|k: int|
                        0 <= k < run.asked ==> answered_by(
                            assign,
                            old(self)@.robots,
                            old(self)@.board.queue[k],
                            #[trigger] answers(k),
                        )
                },
    {
        self.board.drain_and_process(&self.registry, assign)
    }
}

} // verus!
