use robot_scheduler::error::{RegistrationError, SchedulingError};
use robot_scheduler::labels::{collect_missing, contains_label, copy_labels, covers_all};
use robot_scheduler::registry::CapabilityRegistry;
use robot_scheduler::task::Task;
use robot_scheduler::text::{decimal_text, join_labels};

fn labels(items: &[&str]) -> Vec<String> {
    items.iter().map(|s| s.to_string()).collect()
}

fn targeted(robot: Option<&str>, required: &[&str]) -> Task {
    Task {
        id: 1,
        task_type: "lift".to_string(),
        priority: 1,
        deadline: None,
        target_robot: robot.map(|r| r.to_string()),
        required_capabilities: labels(required),
        payload: vec![0; 5],
    }
}

#[test]
fn registering_twice_is_refused_and_keeps_the_first_entry() {
    let mut registry = CapabilityRegistry::new();
    assert_eq!(registry.len(), 0);
    assert_eq!(registry.register("Ford".to_string(), labels(&["heavy_lifting"])), Ok(()));
    let refused = registry.register("Ford".to_string(), labels(&["navigation"])).unwrap_err();
    assert_eq!(refused, RegistrationError::DuplicateRobot("Ford".to_string()));
    assert_eq!(refused.message(), "Robot Ford already registered");
    assert_eq!(registry.len(), 1);
    assert_eq!(registry.capabilities_of(&"Ford".to_string()).unwrap(), &labels(&["heavy_lifting"]));
}

#[test]
fn capabilities_of_an_unknown_robot_is_an_error() {
    let mut registry = CapabilityRegistry::new();
    registry.register("Ford".to_string(), labels(&["heavy_lifting"])).unwrap();
    assert!(registry.is_registered(&"Ford".to_string()));
    assert!(!registry.is_registered(&"ford".to_string()));
    assert_eq!(
        registry.capabilities_of(&"Kuka".to_string()).unwrap_err(),
        SchedulingError::UnknownRobot("Kuka".to_string())
    );
}

#[test]
fn capabilities_are_found_for_every_robot() {
    let mut registry = CapabilityRegistry::new();
    registry.register("Ford".to_string(), labels(&["heavy_lifting"])).unwrap();
    registry.register("Kuka".to_string(), labels(&[])).unwrap();
    registry.register("Abb".to_string(), labels(&["welding", "vision"])).unwrap();
    assert_eq!(registry.capabilities_of(&"Kuka".to_string()).unwrap(), &labels(&[]));
    assert_eq!(registry.capabilities_of(&"Abb".to_string()).unwrap(), &labels(&["welding", "vision"]));
}

#[test]
fn target_check_covers_every_case() {
    let mut registry = CapabilityRegistry::new();
    registry.register("Ford".to_string(), labels(&["navigation"])).unwrap();
    assert_eq!(registry.check_target(&targeted(None, &["anything"])), Ok(()));
    assert_eq!(registry.check_target(&targeted(Some("Ford"), &[])), Ok(()));
    assert_eq!(registry.check_target(&targeted(Some("Ford"), &["navigation"])), Ok(()));
    assert_eq!(
        registry.check_target(&targeted(Some("Kuka"), &["navigation"])),
        Err(SchedulingError::UnknownRobot("Kuka".to_string()))
    );
    assert_eq!(
        registry.check_target(&targeted(Some("Ford"), &["heavy_lifting"])),
        Err(SchedulingError::CapabilityMismatch {
            robot: "Ford".to_string(),
            missing: labels(&["heavy_lifting"]),
        })
    );
}

#[test]
fn eligible_robots_come_in_order_of_registration() {
    let mut registry = CapabilityRegistry::new();
    registry.register("Ford".to_string(), labels(&["lift", "weld"])).unwrap();
    registry.register("Kuka".to_string(), labels(&["weld"])).unwrap();
    registry.register("Abb".to_string(), labels(&["weld", "lift", "see"])).unwrap();
    assert_eq!(registry.eligible_robots(&labels(&[])), labels(&["Ford", "Kuka", "Abb"]));
    assert_eq!(registry.eligible_robots(&labels(&["weld"])), labels(&["Ford", "Kuka", "Abb"]));
    assert_eq!(registry.eligible_robots(&labels(&["lift", "weld"])), labels(&["Ford", "Abb"]));
    assert_eq!(registry.eligible_robots(&labels(&["see"])), labels(&["Abb"]));
    assert_eq!(registry.eligible_robots(&labels(&["fly"])), labels(&[]));
}

#[test]
fn label_lists_behave_as_sets_for_covering() {
    let have = labels(&["a", "b", "c"]);
    assert!(contains_label(&have, &"b".to_string()));
    assert!(!contains_label(&have, &"d".to_string()));
    assert!(covers_all(&have, &labels(&["c", "a", "a"])));
    assert!(covers_all(&have, &labels(&[])));
    assert!(!covers_all(&have, &labels(&["a", "z"])));
    assert_eq!(collect_missing(&have, &labels(&["z", "a", "y", "z"])), labels(&["z", "y", "z"]));
    assert_eq!(collect_missing(&have, &labels(&["a"])), labels(&[]));
    assert_eq!(copy_labels(&have), have);
}

#[test]
fn numbers_are_written_in_decimal() {
    assert_eq!(decimal_text(0), "0");
    assert_eq!(decimal_text(7), "7");
    assert_eq!(decimal_text(10), "10");
    assert_eq!(decimal_text(1234567890), "1234567890");
    assert_eq!(decimal_text(u32::MAX), "4294967295");
}

#[test]
fn labels_are_joined_with_comma_and_space() {
    assert_eq!(join_labels(&labels(&[])), "");
    assert_eq!(join_labels(&labels(&["a"])), "a");
    assert_eq!(join_labels(&labels(&["a", "b", "c"])), "a, b, c");
}
