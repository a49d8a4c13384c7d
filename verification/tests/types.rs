use containerd_manager::types::{
    ContainerId, TaskStatus, STATUS_CREATED, STATUS_PAUSED, STATUS_PAUSING, STATUS_RUNNING,
    STATUS_STOPPED,
};

#[test]
fn task_status_from_running() {
    assert_eq!(TaskStatus::from(STATUS_RUNNING), TaskStatus::Running);
}

#[test]
fn task_status_from_stopped() {
    assert_eq!(TaskStatus::from(STATUS_STOPPED), TaskStatus::Stopped);
}

#[test]
fn task_status_from_paused() {
    assert_eq!(TaskStatus::from(STATUS_PAUSED), TaskStatus::Paused);
}

#[test]
fn task_status_from_unknown() {
    assert_eq!(TaskStatus::from(99), TaskStatus::Unknown);
}

#[test]
fn transient_task_states_surface_as_what_they_become() {
    assert_eq!(TaskStatus::from(STATUS_CREATED), TaskStatus::Running);
    assert_eq!(TaskStatus::from(STATUS_PAUSING), TaskStatus::Paused);
    assert_eq!(TaskStatus::from(0), TaskStatus::Unknown);
}

#[test]
fn container_id_round_trips() {
    let id = ContainerId::new("my-container").unwrap();
    assert_eq!(id.as_str(), "my-container");
    assert_eq!(id.to_string(), "my-container");
}

#[test]
fn container_id_rejects_invalid() {
    assert!(ContainerId::new("").is_err());
    assert!(ContainerId::new("../foo").is_err());
    assert!(ContainerId::new("foo;ls").is_err());
    assert!(ContainerId::new("foo bar").is_err());
}

#[test]
fn container_id_try_from() {
    let id: ContainerId = "abc".try_into().unwrap();
    assert_eq!(id.as_str(), "abc");
    let owned: ContainerId = String::from("abc").try_into().unwrap();
    assert_eq!(owned.as_str(), "abc");
    assert_eq!(id, owned);
    assert_eq!(id, id.clone());
    assert!(ContainerId::try_from("a b").is_err());
}
