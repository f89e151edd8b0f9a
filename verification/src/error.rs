//! The errors that admission, registration and batch processing report.

use vstd::prelude::*;
use crate::labels::{labels_of, Label};
use crate::text::{decimal, decimal_text, join_labels, joined};

verus! {

/// Why a robot could not be registered.
#[derive(Clone, Debug, PartialEq, Eq)]
pub enum RegistrationError {
    /// A robot with this id is registered already.
    DuplicateRobot(String),
}

/// What contracts say of a registration error.
pub ghost enum RegistrationErrorModel {
    DuplicateRobot(Label),
}

impl View for RegistrationError {
    type V = RegistrationErrorModel;

    open spec fn view(&self) -> RegistrationErrorModel {
        match self {
            RegistrationError::DuplicateRobot(id) => RegistrationErrorModel::DuplicateRobot(id@),
        }
    }
}

/// Why a task was not admitted.
#[derive(Clone, Debug, PartialEq, Eq)]
pub enum SchedulingError {
    /// A task with this id is still pending or being dispatched.
    DuplicateTaskId(u32),
    /// The payload does not have the one accepted shape.
    InvalidPayload,
    /// The task names a robot that is not registered.
    UnknownRobot(String),
    /// The named robot lacks some of the required capabilities.
    CapabilityMismatch { robot: String, missing: Vec<String> },
}

/// What contracts say of a scheduling error.
pub ghost enum SchedulingErrorModel {
    DuplicateTaskId(u32),
    InvalidPayload,
    UnknownRobot(Label),
    CapabilityMismatch { robot: Label, missing: Seq<Label> },
}

impl View for SchedulingError {
    type V = SchedulingErrorModel;

    open spec fn view(&self) -> SchedulingErrorModel {
        match self {
            SchedulingError::DuplicateTaskId(id) => SchedulingErrorModel::DuplicateTaskId(*id),
            SchedulingError::InvalidPayload => SchedulingErrorModel::InvalidPayload,
            SchedulingError::UnknownRobot(robot) => SchedulingErrorModel::UnknownRobot(robot@),
            SchedulingError::CapabilityMismatch { robot, missing } => {
                SchedulingErrorModel::CapabilityMismatch {
                    robot: robot@,
                    missing: labels_of(missing@),
                }
            },
        }
    }
}

/// A refusal by the assignment backend, passed on as it came.
#[derive(Clone, Debug, PartialEq, Eq)]
pub struct AssignmentError {
    pub reason: String,
}

impl View for AssignmentError {
    type V = Label;

    open spec fn view(&self) -> Label {
        self.reason@
    }
}

/// Why a batch was cut short.
#[derive(Clone, Debug, PartialEq, Eq)]
pub enum ProcessingError {
    /// The task with this id has priority zero.
    ZeroPriorityRejected(u32),
    /// The backend refused a task.
    Assignment(AssignmentError),
}

/// What contracts say of a processing error.
pub ghost enum ProcessingErrorModel {
    ZeroPriorityRejected(u32),
    Assignment(Label),
}

impl View for ProcessingError {
    type V = ProcessingErrorModel;

    open spec fn view(&self) -> ProcessingErrorModel {
        match self {
            ProcessingError::ZeroPriorityRejected(id) => ProcessingErrorModel::ZeroPriorityRejected(
                *id,
            ),
            ProcessingError::Assignment(e) => ProcessingErrorModel::Assignment(e@),
        }
    }
}

/// The model of an admission verdict.
pub open spec fn verdict_model(verdict: Result<(), SchedulingError>) -> Result<
    (),
    SchedulingErrorModel,
> {
    match verdict {
        Ok(_) => Ok(()),
        Err(e) => Err(e@),
    }
}

impl RegistrationErrorModel {
    /// The message for the caller.
    pub open spec fn message(self) -> Seq<char> {
        match self {
            RegistrationErrorModel::DuplicateRobot(id) => "Robot "@ + id + " already registered"@,
        }
    }
}

impl RegistrationError {
    /// The message for the caller.
    pub fn message(&self) -> (text: String)
        ensures
            text@ == self@.message(),
    {
        match self {
            RegistrationError::DuplicateRobot(id) => {
                let mut text = String::from_str("Robot ");
                text.append(id.as_str());
                text.append(" already registered");
                text
            },
        }
    }
}

impl SchedulingErrorModel {
    /// The message for the caller.
    pub open spec fn message(self) -> Seq<char> {
        match self {
            SchedulingErrorModel::DuplicateTaskId(id) => "Task ID "@ + decimal(id as nat)
                + " already exists"@,
            SchedulingErrorModel::InvalidPayload => "Task parameters must have length 5"@,
            SchedulingErrorModel::UnknownRobot(robot) => "Unknown robot: "@ + robot,
            SchedulingErrorModel::CapabilityMismatch { robot, missing } => "Robot "@ + robot
                + " lacks required capabilities: "@ + joined(missing),
        }
    }
}

impl SchedulingError {
    /// The message for the caller.
    pub fn message(&self) -> (text: String)
        ensures
            text@ == self@.message(),
    {
        match self {
            SchedulingError::DuplicateTaskId(id) => {
                let mut text = String::from_str("Task ID ");
                text.append(decimal_text(*id).as_str());
                text.append(" already exists");
                text
            },
            SchedulingError::InvalidPayload => String::from_str(
                "Task parameters must have length 5",
            ),
            SchedulingError::UnknownRobot(robot) => {
                let mut text = String::from_str("Unknown robot: ");
                text.append(robot.as_str());
                text
            },
            SchedulingError::CapabilityMismatch { robot, missing } => {
                let mut text = String::from_str("Robot ");
                text.append(robot.as_str());
                text.append(" lacks required capabilities: ");
                text.append(join_labels(missing).as_str());
                text
            },
        }
    }
}

impl ProcessingErrorModel {
    /// The message for the caller: a refusal of the backend is passed on as it came.
    pub open spec fn message(self) -> Seq<char> {
        match self {
            ProcessingErrorModel::ZeroPriorityRejected(_) => "Zero priority tasks are not allowed"@,
            ProcessingErrorModel::Assignment(reason) => reason,
        }
    }
}

impl ProcessingError {
    /// The message for the caller.
    pub fn message(&self) -> (text: String)
        ensures
            text@ == self@.message(),
    {
        match self {
            ProcessingError::ZeroPriorityRejected(_) => String::from_str(
                "Zero priority tasks are not allowed",
            ),
            ProcessingError::Assignment(e) => e.reason.clone(),
        }
    }
}

} // verus!
