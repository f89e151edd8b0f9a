//! Serving the whole queue in one batch.

use vstd::prelude::*;
use crate::board::{answer_model, BatchStep, BatchStepModel, BoardModel, TaskBoard};
use crate::error::{AssignmentError, ProcessingError, ProcessingErrorModel};
use crate::labels::{labels_of, Label};
use crate::registry::{eligible_in, CapabilityRegistry, RobotModel};
use crate::task::{Task, TaskModel};
use crate::text::{decimal, decimal_text};

verus! {

/// The confirmation that a task of a batch was assigned.
#[derive(Clone, Debug, PartialEq, Eq)]
pub struct AssignmentRecord {
    /// The task that was assigned.
    pub task_id: u32,
    /// The robot that the backend chose for it.
    pub robot_id: String,
}

/// What contracts say of a confirmation.
pub ghost struct RecordModel {
    pub task_id: u32,
    pub robot_id: Label,
}

impl View for AssignmentRecord {
    type V = RecordModel;

    open spec fn view(&self) -> RecordModel {
        RecordModel { task_id: self.task_id, robot_id: self.robot_id@ }
    }
}

impl RecordModel {
    /// The confirmation as a line of text.
    pub open spec fn message(self) -> Seq<char> {
        "Task "@ + decimal(self.task_id as nat) + " assigned to "@ + self.robot_id
    }
}

impl AssignmentRecord {
    /// The confirmation as a line of text.
    pub fn message(&self) -> (text: String)
        ensures
            text@ == self@.message(),
    {
        let mut text = String::from_str("Task ");
        text.append(decimal_text(self.task_id).as_str());
        text.append(" assigned to ");
        text.append(self.robot_id.as_str());
        text
    }
}

/// The models of a list of confirmations, in order.
pub open spec fn confirmations_of(records: Seq<AssignmentRecord>) -> Seq<RecordModel> {
    records.map_values(|r: AssignmentRecord| r@)
}

/// The model of what a batch returned.
pub open spec fn batch_outcome_model(
    outcome: Result<Vec<AssignmentRecord>, ProcessingError>,
) -> Result<Seq<RecordModel>, ProcessingErrorModel> {
    match outcome {
        Ok(records) => Ok(confirmations_of(records@)),
        Err(e) => Err(e@),
    }
}

/// Whether the first answers of the backend are those of `log`.
pub open spec fn starts_with(
    answers: spec_fn(int) -> Result<Label, Label>,
    log: Seq<Result<Label, Label>>,
) -> bool {
    forall|k: int| 0 <= k < log.len() ==> #[trigger] answers(k) == log[k]
}

/// The answers of `log`, followed by refusals without a reason.
pub open spec fn answers_from(log: Seq<Result<Label, Label>>) -> spec_fn(int) -> Result<
    Label,
    Label,
> {
    |k: int|
        if 0 <= k < log.len() {
            log[k]
        } else {
            Err(Seq::<char>::empty())
        }
}

/// How a batch ended.
pub ghost struct BatchRun {
    /// The board as the batch left it.
    pub board: BoardModel,
    /// The confirmations, or why the batch was cut short.
    pub outcome: Result<Seq<RecordModel>, ProcessingErrorModel>,
    /// The number of tasks that were handed to the backend.
    pub asked: int,
}

impl BoardModel {
    /// Runs a batch to its end, where `answers(k)` is what the backend
    /// answers to the `k`-th task handed to it, `asked` tasks were handed
    /// to it so far and `done` are the confirmations so far. The tasks
    /// leave the queue head first. A task of priority zero ends the batch
    /// with a rejection, a refusal by the backend ends it with that
    /// refusal, and an empty queue ends it with the confirmations in the
    /// order of service. Nothing that was taken out is put back.
    pub open spec fn batch_run(
        self,
        answers: spec_fn(int) -> Result<Label, Label>,
        asked: int,
        done: Seq<RecordModel>,
    ) -> BatchRun
        decreases self.queue.len(),
    {
        match self.batch_step() {
            BatchStepModel::Finished => BatchRun { board: self, outcome: Ok(done), asked },
            BatchStepModel::Rejected(id) => BatchRun {
                board: self.after_batch_step(),
                outcome: Err(ProcessingErrorModel::ZeroPriorityRejected(id)),
                asked,
            },
            BatchStepModel::Assign(task) => {
                let next = self.after_batch_step().after_answer(task.id, answers(asked));
                match answers(asked) {
                    Ok(robot) => next.batch_run(
                        answers,
                        asked + 1,
                        done.push(RecordModel { task_id: task.id, robot_id: robot }),
                    ),
                    Err(reason) => BatchRun {
                        board: next,
                        outcome: Err(ProcessingErrorModel::Assignment(reason)),
                        asked: asked + 1,
                    },
                }
            },
        }
    }

    /// Runs a whole batch from its start.
    pub open spec fn batch(self, answers: spec_fn(int) -> Result<Label, Label>) -> BatchRun {
        self.batch_run(answers, 0, Seq::empty())
    }
}

/// Whether `answer` is what `assign` gave when it was handed a task with
/// the model `task` together with the robots of `robots` that may execute it.
pub open spec fn answered_by<F: Fn(&Task, &Vec<String>) -> Result<String, AssignmentError>>(
    assign: F,
    robots: Seq<RobotModel>,
    task: TaskModel,
    answer: Result<Label, Label>,
) -> bool {
    exists|t: &Task, e: &Vec<String>, r: Result<String, AssignmentError>|
        t@ == task && labels_of(e@) == eligible_in(robots, task.required_capabilities)
            && answer_model(r) == answer && #[trigger] call_ensures(assign, (t, e), r)
}

impl TaskBoard {
    /// Serves the whole queue in one batch. Each task in turn leaves the
    /// queue and goes to `assign` together with the robots of `registry`
    /// that have its required capabilities; the answer is recorded as the
    /// task's final state. The batch ends at the first task of priority
    /// zero or the first refusal, and otherwise returns the confirmations
    /// in the order of service.
    pub fn drain_and_process<F>(&mut self, registry: &CapabilityRegistry, assign: F) -> (outcome:
        Result<Vec<AssignmentRecord>, ProcessingError>) where
        F: Fn(&Task, &Vec<String>) -> Result<String, AssignmentError>,

        requires
            old(self).wf(),
            forall|task: &Task, eligible: &Vec<String>|
                old(self)@.queue.contains(task@) && labels_of(eligible@) == eligible_in(
                    registry@,
                    task@.required_capabilities,
                ) ==> #[trigger] call_requires(assign, (task, eligible)),
        ensures
            final(self).wf(),
            exists|answers: spec_fn(int) -> Result<Label, Label>|
                {
                    let run = #[trigger] old(self)@.batch(answers);
                    &&& run.board == final(self)@
                    &&& run.outcome == batch_outcome_model(outcome)
                    &&& forall|k: int|
                        0 <= k < run.asked ==> answered_by(
                            assign,
                            registry@,
                            old(self)@.queue[k],
                            #[trigger] answers(k),
                        )
                },
    {
        let mut confirmations: Vec<AssignmentRecord> = Vec::new();
        let ghost mut log: Seq<Result<Label, Label>> = Seq::empty();
        assert(confirmations_of(confirmations@) =~= Seq::<RecordModel>::empty());
        assert(self@.queue =~= old(self)@.queue.skip(0));
        loop
            invariant
                self.wf(),
                log.len() <= old(self)@.queue.len(),
                self@.queue == old(self)@.queue.skip(log.len() as int),
                forall|task: &Task, eligible: &Vec<String>|
                    old(self)@.queue.contains(task@) && labels_of(eligible@) == eligible_in(
                        registry@,
                        task@.required_capabilities,
                    ) ==> #[trigger] call_requires(assign, (task, eligible)),
                forall|k: int|
                    0 <= k < log.len() ==> answered_by(
                        assign,
                        registry@,
                        old(self)@.queue[k],
                        #[trigger] log[k],
                    ),
                forall|answers: spec_fn(int) -> Result<Label, Label>|
                    starts_with(answers, log) ==> #[trigger] old(self)@.batch(answers)
                        == self@.batch_run(
                        answers,
                        log.len() as int,
                        confirmations_of(confirmations@),
                    ),
            decreases self@.queue.len(),
        {
            let ghost before = self@;
            let ghost done = confirmations_of(confirmations@);
            match self.take_next() {
                BatchStep::Finished => {
                    proof {
                        let answers = answers_from(log);
                        assert(starts_with(answers, log));
                        let run = old(self)@.batch(answers);
                        assert(run.board == self@);
                        assert(run.outcome == batch_outcome_model(Ok(confirmations)));
                        assert(run.asked == log.len());
                    }
                    return Ok(confirmations);
                },
                BatchStep::Rejected(id) => {
                    proof {
                        let answers = answers_from(log);
                        assert(starts_with(answers, log));
                        let run = old(self)@.batch(answers);
                        assert(run.board == self@);
                        assert(run.outcome == Err::<Seq<RecordModel>, ProcessingErrorModel>(
                            ProcessingErrorModel::ZeroPriorityRejected(id),
                        ));
                        assert(run.asked == log.len());
                    }
                    return Err(ProcessingError::ZeroPriorityRejected(id));
                },
                BatchStep::Assign(task) => {
                    let id = task.id;
                    let eligible = registry.eligible_robots(&task.required_capabilities);
                    proof {
                        assert(old(self)@.queue[log.len() as int] == before.queue[0]);
                        assert(old(self)@.queue.contains(task@));
                        assert(self@.queue =~= old(self)@.queue.skip(log.len() as int + 1));
                    }
                    let answer = assign(&task, &eligible);
                    let ghost earlier = log;
                    proof {
                        log = log.push(answer_model(answer));
                        assert(answered_by(
                            assign,
                            registry@,
                            old(self)@.queue[earlier.len() as int],
                            answer_model(answer),
                        )) by {
                            assert(call_ensures(assign, (&task, &eligible), answer));
                        }
                        assert forall|k: int| 0 <= k < log.len() implies answered_by(
                            assign,
                            registry@,
                            old(self)@.queue[k],
                            #[trigger] log[k],
                        ) by {
                            if k < earlier.len() {
                                assert(log[k] == earlier[k]);
                            }
                        }
                    }
                    match answer {
                        Ok(robot) => {
                            self.complete(id, Ok(robot.clone()));
                            confirmations.push(AssignmentRecord { task_id: id, robot_id: robot });
                            proof {
                                let entry = RecordModel { task_id: id, robot_id: robot@ };
                                assert(confirmations_of(confirmations@) =~= done.push(entry));
                                assert forall|answers: spec_fn(int) -> Result<Label, Label>|
                                    starts_with(answers, log) implies #[trigger] old(self)@.batch(
                                    answers,
                                ) == self@.batch_run(
                                    answers,
                                    log.len() as int,
                                    confirmations_of(confirmations@),
                                ) by {
                                    assert(starts_with(answers, earlier)) by {
                                        assert forall|k: int| 0 <= k < earlier.len() implies
                                            #[trigger] answers(k) == earlier[k] by {
                                            assert(log[k] == earlier[k]);
                                        }
                                    }
                                    assert(answers(earlier.len() as int) == log[earlier.len() as int]);
                                }
                            }
                        },
                        Err(e) => {
                            let reason = e.reason.clone();
                            self.complete(id, Err(AssignmentError { reason }));
                            proof {
                                let answers = answers_from(log);
                                assert(starts_with(answers, earlier)) by {
                                    assert forall|k: int| 0 <= k < earlier.len() implies
                                        #[trigger] answers(k) == earlier[k] by {
                                        assert(log[k] == earlier[k]);
                                    }
                                }
                                assert(answers(earlier.len() as int) == log[earlier.len() as int]);
                                let run = old(self)@.batch(answers);
                                assert(run.board == self@);
                                assert(run.outcome == Err::<Seq<RecordModel>, ProcessingErrorModel>(
                                    ProcessingErrorModel::Assignment(e@),
                                ));
                                assert(run.asked == log.len());
                            }
                            return Err(ProcessingError::Assignment(e));
                        },
                    }
                },
            }
        }
    }
}

} // verus!
