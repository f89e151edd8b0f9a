//! The robots that may execute tasks, each with the capabilities it declared.

use vstd::prelude::*;
use crate::error::{
    verdict_model, RegistrationError, RegistrationErrorModel, SchedulingError, SchedulingErrorModel,
};
use crate::labels::{
    collect_missing, copy_labels, covers, covers_all, labels_of, missing_from, Label,
};
use crate::task::{Task, TaskModel};

verus! {

/// A registered robot.
pub struct Robot {
    id: String,
    capabilities: Vec<String>,
}

/// What contracts say of a registered robot.
pub ghost struct RobotModel {
    pub id: Label,
    pub capabilities: Seq<Label>,
}

impl View for Robot {
    type V = RobotModel;

    closed spec fn view(&self) -> RobotModel {
        RobotModel { id: self.id@, capabilities: labels_of(self.capabilities@) }
    }
}

/// Whether a robot with the given id is among `robots`.
pub open spec fn knows(robots: Seq<RobotModel>, id: Label) -> bool {
    exists|i: int| 0 <= i < robots.len() && (#[trigger] robots[i]).id == id
}

/// The index of the first robot with the given id, or the length of
/// `robots` where there is none.
pub open spec fn robot_position(robots: Seq<RobotModel>, id: Label) -> int
    decreases robots.len(),
{
    if robots.len() == 0 || robots[0].id == id {
        0
    } else {
        1 + robot_position(robots.skip(1), id)
    }
}

/// The capabilities that the robot with the given id declared.
pub open spec fn capabilities_in(robots: Seq<RobotModel>, id: Label) -> Seq<Label>
    recommends
        knows(robots, id),
{
    robots[robot_position(robots, id)].capabilities
}

/// The robots after one more asked to be registered: it is added at the end
/// unless its id is taken, in which case nothing changes.
pub open spec fn with_robot(robots: Seq<RobotModel>, robot: RobotModel) -> Seq<RobotModel> {
    if knows(robots, robot.id) {
        robots
    } else {
        robots.push(robot)
    }
}

/// Whether no two robots share an id.
pub open spec fn distinct_ids(robots: Seq<RobotModel>) -> bool {
    forall|i: int, j: int|
        0 <= i < j < robots.len() ==> (#[trigger] robots[i]).id != (#[trigger] robots[j]).id
}

/// The ids, in order of registration, of the robots that have every
/// capability of `required`.
pub open spec fn eligible_in(robots: Seq<RobotModel>, required: Seq<Label>) -> Seq<Label> {
    robots.filter(|r: RobotModel| covers(r.capabilities, required)).map_values(
        |r: RobotModel| r.id,
    )
}

/// Whether a task may go to the robot it names: it may where it names
/// none; otherwise the robot has to be registered and to have every
/// required capability.
pub open spec fn target_verdict(robots: Seq<RobotModel>, task: TaskModel) -> Result<
    (),
    SchedulingErrorModel,
> {
    match task.target_robot {
        None => Ok(()),
        Some(robot) => if !knows(robots, robot) {
            Err(SchedulingErrorModel::UnknownRobot(robot))
        } else {
            let missing = missing_from(capabilities_in(robots, robot), task.required_capabilities);
            if missing.len() == 0 {
                Ok(())
            } else {
                Err(SchedulingErrorModel::CapabilityMismatch { robot, missing })
            }
        },
    }
}

/// The position of an id lies within the sequence exactly when a robot has
/// the id, and it is the first place at which one does.
pub proof fn lemma_robot_position(robots: Seq<RobotModel>, id: Label)
    ensures
        0 <= robot_position(robots, id) <= robots.len(),
        robot_position(robots, id) < robots.len() <==> knows(robots, id),
        robot_position(robots, id) < robots.len() ==> robots[robot_position(robots, id)].id == id,
        forall|i: int| 0 <= i < robot_position(robots, id) ==> (#[trigger] robots[i]).id != id,
    decreases robots.len(),
{
    if robots.len() == 0 {
    } else if robots[0].id == id {
        assert(robots[0].id == id);
    } else {
        let rest = robots.skip(1);
        lemma_robot_position(rest, id);
        let p = robot_position(rest, id);
        assert forall|i: int| 0 <= i < p + 1 implies (#[trigger] robots[i]).id != id by {
            if i > 0 {
                assert(robots[i] == rest[i - 1]);
            }
        }
        if p < rest.len() {
            assert(robots[p + 1] == rest[p]);
            assert(robots[p + 1].id == id);
        }
        if knows(robots, id) {
            let k = choose|k: int| 0 <= k < robots.len() && (#[trigger] robots[k]).id == id;
            assert(rest[k - 1] == robots[k]);
            assert(rest[k - 1].id == id);
        }
    }
}

/// The registry of robots. A robot is registered once and never changed.
pub struct CapabilityRegistry {
    robots: Vec<Robot>,
}

impl View for CapabilityRegistry {
    type V = Seq<RobotModel>;

    closed spec fn view(&self) -> Seq<RobotModel> {
        self.robots@.map_values(|r: Robot| r@)
    }
}

impl CapabilityRegistry {
    /// The registry's invariant: no two robots share an id.
    pub open spec fn wf(&self) -> bool {
        distinct_ids(self@)
    }

    /// Makes a registry without robots.
    pub fn new() -> (registry: CapabilityRegistry)
        ensures
            registry.wf(),
            registry@ == Seq::<RobotModel>::empty(),
    {
        let registry = CapabilityRegistry { robots: Vec::new() };
        assert(registry@ =~= Seq::<RobotModel>::empty());
        registry
    }

    /// The number of registered robots.
    pub fn len(&self) -> (n: usize)
        ensures
            n == self@.len(),
    {
        self.robots.len()
    }

    /// Makes an independent copy of the registry.
    pub fn duplicate(&self) -> (copy: CapabilityRegistry)
        ensures
            copy@ == self@,
            self.wf() ==> copy.wf(),
    {
        let mut robots: Vec<Robot> = Vec::new();
        let mut i: usize = 0;
        while i < self.robots.len()
            invariant
                i <= self.robots.len(),
                robots.len() == i,
                forall|k: int| 0 <= k < i ==> robots@[k]@ == self.robots@[k]@,
            decreases self.robots.len() - i,
        {
            let robot = &self.robots[i];
            robots.push(Robot { id: robot.id.clone(), capabilities: copy_labels(&robot.capabilities) });
            i += 1;
        }
        let copy = CapabilityRegistry { robots };
        assert(copy@ =~= self@);
        copy
    }

    /// Finds the place of the robot with the given id.
    fn find(&self, robot_id: &String) -> (place: usize)
        ensures
            place == robot_position(self@, robot_id@),
            place <= self.robots@.len(),
            place < self.robots@.len() <==> knows(self@, robot_id@),
    {
        proof {
            lemma_robot_position(self@, robot_id@);
        }
        let mut i: usize = 0;
        while i < self.robots.len() && self.robots[i].id != *robot_id
            invariant
                i <= self.robots.len(),
                forall|k: int| 0 <= k < i ==> (#[trigger] self@[k]).id != robot_id@,
            decreases self.robots.len() - i,
        {
            i += 1;
        }
        proof {
            let p = robot_position(self@, robot_id@);
            if i < self.robots.len() {
                assert(self@[i as int].id == robot_id@);
                if p < i {
                    assert(self@[p].id != robot_id@);
                }
            } else {
                if p < i {
                    assert(self@[p].id != robot_id@);
                }
            }
        }
        i
    }

    /// Tells whether a robot with the given id is registered.
    pub fn is_registered(&self, robot_id: &String) -> (known: bool)
        ensures
            known == knows(self@, robot_id@),
    {
        self.find(robot_id) < self.robots.len()
    }

    /// Registers a robot with its capabilities. An id that is registered
    /// already is refused and the registry stays as it was.
    pub fn register(&mut self, robot_id: String, capabilities: Vec<String>) -> (outcome: Result<
        (),
        RegistrationError,
    >)
        requires
            old(self).wf(),
        ensures
            final(self).wf(),
            final(self)@ == with_robot(
                old(self)@,
                RobotModel { id: robot_id@, capabilities: labels_of(capabilities@) },
            ),
            match outcome {
                Ok(_) => !knows(old(self)@, robot_id@),
                Err(e) => knows(old(self)@, robot_id@) && e@
                    == RegistrationErrorModel::DuplicateRobot(robot_id@),
            },
    {
        if self.is_registered(&robot_id) {
            return Err(RegistrationError::DuplicateRobot(robot_id));
        }
        let ghost entry = RobotModel { id: robot_id@, capabilities: labels_of(capabilities@) };
        self.robots.push(Robot { id: robot_id, capabilities });
        proof {
            assert(self@ =~= old(self)@.push(entry));
            assert forall|i: int, j: int| 0 <= i < j < self@.len() implies (#[trigger] self@[i]).id
                != (#[trigger] self@[j]).id by {
                assert(self@[i] == old(self)@[i]);
                if j < old(self)@.len() {
                    assert(self@[j] == old(self)@[j]);
                }
            }
        }
        Ok(())
    }

    /// The capabilities that the robot with the given id declared.
    pub fn capabilities_of(&self, robot_id: &String) -> (outcome: Result<
        &Vec<String>,
        SchedulingError,
    >)
        ensures
            match outcome {
                Ok(capabilities) => knows(self@, robot_id@) && labels_of(capabilities@)
                    == capabilities_in(self@, robot_id@),
                Err(e) => !knows(self@, robot_id@) && e@ == SchedulingErrorModel::UnknownRobot(
                    robot_id@,
                ),
            },
    {
        let place = self.find(robot_id);
        if place < self.robots.len() {
            assert(self@[place as int] == self.robots@[place as int]@);
            Ok(&self.robots[place].capabilities)
        } else {
            Err(SchedulingError::UnknownRobot(robot_id.clone()))
        }
    }

    /// Decides whether a task may go to the robot it names.
    pub fn check_target(&self, task: &Task) -> (verdict: Result<(), SchedulingError>)
        ensures
            verdict_model(verdict) == target_verdict(self@, task@),
    {
        match &task.target_robot {
            None => Ok(()),
            Some(robot) => {
                match self.capabilities_of(robot) {
                    Err(e) => Err(e),
                    Ok(capabilities) => {
                        let missing = collect_missing(capabilities, &task.required_capabilities);
                        if missing.len() == 0 {
                            Ok(())
                        } else {
                            Err(
                                SchedulingError::CapabilityMismatch {
                                    robot: robot.clone(),
                                    missing,
                                },
                            )
                        }
                    },
                }
            },
        }
    }

    /// The ids, in order of registration, of the robots that have every
    /// capability of `required`.
    pub fn eligible_robots(&self, required: &Vec<String>) -> (eligible: Vec<String>)
        ensures
            labels_of(eligible@) == eligible_in(self@, labels_of(required@)),
    {
        let ghost need = labels_of(required@);
        let ghost pred = |r: RobotModel| covers(r.capabilities, need);
        let ghost name = |r: RobotModel| r.id;
        let mut eligible: Vec<String> = Vec::new();
        let mut i: usize = 0;
        proof {
            reveal(Seq::filter);
            assert(self@.take(0) =~= Seq::<RobotModel>::empty());
            assert(labels_of(eligible@) =~= self@.take(0).filter(pred).map_values(name));
        }
        while i < self.robots.len()
            invariant
                i <= self.robots.len(),
                need == labels_of(required@),
                pred == |r: RobotModel| covers(r.capabilities, need),
                name == |r: RobotModel| r.id,
                labels_of(eligible@) == self@.take(i as int).filter(pred).map_values(name),
            decreases self.robots.len() - i,
        {
            let ghost before = labels_of(eligible@);
            let fits = covers_all(&self.robots[i].capabilities, required);
            if fits {
                eligible.push(self.robots[i].id.clone());
            }
            proof {
                let head = self@.take(i as int);
                let robot = self@[i as int];
                assert(robot == self.robots@[i as int]@);
                assert(self@.take(i + 1) =~= head.push(robot));
                Seq::lemma_filter_push(head, robot, pred);
                assert(pred(robot) == fits);
                if fits {
                    assert(labels_of(eligible@) =~= before.push(robot.id));
                    assert(head.filter(pred).push(robot).map_values(name) =~= head.filter(
                        pred,
                    ).map_values(name).push(robot.id));
                }
            }
            i += 1;
        }
        assert(self@.take(i as int) =~= self@);
        eligible
    }
}

} // verus!
