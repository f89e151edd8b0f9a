//! The text boundary: requests that arrive as text, and the replies that
//! go back as text.

use vstd::prelude::*;
use crate::board::Ack;
use crate::error::{RegistrationError, RegistrationErrorModel, SchedulingError};
use crate::labels::labels_of;
use crate::registry::{knows, with_robot, CapabilityRegistry, RobotModel};

verus! {

/// The error type of `serde_json`, carried through as it comes.
#[verifier::external_type_specification]
#[verifier::external_body]
pub struct ExJsonError(serde_json::Error);

/// What `serde_json::from_str` makes of a text when a list of strings is
/// asked for: the strings of the list, or nothing where it reports an error.
pub uninterp spec fn json_label_list(text: Seq<char>) -> Option<Seq<Seq<char>>>;

/// Calls `serde_json::from_str` for a `Vec<String>`. Nothing is proved of
/// it: the contract only gives the outcome its name, a function of the
/// text alone, which is `Some` exactly when the call succeeds.
#[verifier::external_body]
fn parse_label_list(text: &str) -> (parsed: Result<Vec<String>, serde_json::Error>)
    ensures
        match parsed {
            Ok(list) => json_label_list(text@) == Some(labels_of(list@)),
            Err(_) => json_label_list(text@) is None,
        },
{
    serde_json::from_str::<Vec<String>>(text)
}

/// Calls the `Display` implementation of `serde_json::Error` through
/// `to_string`. Nothing is claimed of the text that comes back.
#[verifier::external_body]
fn describe_json_error(error: &serde_json::Error) -> (text: String) {
    error.to_string()
}

/// The reply to a request that was carried out.
pub open spec fn success_reply() -> Seq<char> {
    "Success"@
}

/// The reply to a request that failed with the given message.
pub open spec fn error_reply(message: Seq<char>) -> Seq<char> {
    "Error: "@ + message
}

/// The reply to a request whose capability list could not be decoded,
/// given the decoder's complaint.
pub open spec fn undecodable_reply(complaint: Seq<char>) -> Seq<char> {
    error_reply("JSON parsing failed: "@ + complaint)
}

/// The reply to a registration request for `robot_id` on a scheduler that
/// knows `robots`.
pub open spec fn registration_reply(robots: Seq<RobotModel>, robot_id: Seq<char>) -> Seq<char> {
    if knows(robots, robot_id) {
        error_reply(RegistrationErrorModel::DuplicateRobot(robot_id).message())
    } else {
        success_reply()
    }
}

/// Writes the reply to a failed request.
pub fn write_error_reply(message: &str) -> (reply: String)
    ensures
        reply@ == error_reply(message@),
{
    let mut reply = String::from_str("Error: ");
    reply.append(message);
    reply
}

/// Writes the reply to a registration request.
pub fn write_registration_reply(outcome: &Result<(), RegistrationError>) -> (reply: String)
    ensures
        reply@ == match outcome {
            Ok(_) => success_reply(),
            Err(e) => error_reply(e@.message()),
        },
{
    match outcome {
        Ok(_) => String::from_str("Success"),
        Err(e) => write_error_reply(e.message().as_str()),
    }
}

/// Writes the reply to a scheduling request.
pub fn write_scheduling_reply(outcome: &Result<Ack, SchedulingError>) -> (reply: String)
    ensures
        reply@ == match outcome {
            Ok(_) => success_reply(),
            Err(e) => error_reply(e@.message()),
        },
{
    match outcome {
        Ok(_) => String::from_str("Success"),
        Err(e) => write_error_reply(e.message().as_str()),
    }
}

impl CapabilityRegistry {
    /// Registers a robot whose capability list was decoded beforehand:
    /// `decoded` holds the list, or the decoder's complaint. With a list
    /// the robot is registered as by `register`; with a complaint nothing
    /// changes. The reply says which.
    pub fn register_decoded(
        &mut self,
        robot_id: String,
        decoded: Result<Vec<String>, String>,
    ) -> (reply: String)
        requires
            old(self).wf(),
        ensures
            final(self).wf(),
            match decoded {
                Ok(capabilities) => final(self)@ == with_robot(
                    old(self)@,
                    RobotModel { id: robot_id@, capabilities: labels_of(capabilities@) },
                ) && reply@ == registration_reply(old(self)@, robot_id@),
                Err(complaint) => final(self)@ == old(self)@ && reply@ == undecodable_reply(
                    complaint@,
                ),
            },
    {
        match decoded {
            Ok(capabilities) => {
                let outcome = self.register(robot_id, capabilities);
                write_registration_reply(&outcome)
            },
            Err(complaint) => {
                let mut message = String::from_str("JSON parsing failed: ");
                message.append(complaint.as_str());
                write_error_reply(message.as_str())
            },
        }
    }

    /// Registers a robot whose capabilities arrive as a JSON array of
    /// strings. Where the text is such an array the robot is registered as
    /// by `register`; where it is not, nothing changes and the reply
    /// passes the decoder's complaint on.
    pub fn register_json(&mut self, robot_id: String, capabilities_json: &str) -> (reply: String)
        requires
            old(self).wf(),
        ensures
            final(self).wf(),
            match json_label_list(capabilities_json@) {
                Some(capabilities) => final(self)@ == with_robot(
                    old(self)@,
                    RobotModel { id: robot_id@, capabilities },
                ) && reply@ == registration_reply(old(self)@, robot_id@),
                None => final(self)@ == old(self)@ && exists|complaint: Seq<char>|
                    reply@ == #[trigger] undecodable_reply(complaint),
            },
    {
        let decoded = match parse_label_list(capabilities_json) {
            Ok(capabilities) => Ok(capabilities),
            Err(e) => Err(describe_json_error(&e)),
        };
        self.register_decoded(robot_id, decoded)
    }
}

} // verus!
