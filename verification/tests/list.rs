use containerd_manager::error::{Code, Status};
use containerd_manager::inspect::{ContainerRecord, ProcessState};
use containerd_manager::list::{build_label_filter, build_list_request, list_containers};
use containerd_manager::maps::StringMap;
use containerd_manager::{Error, TaskStatus};

#[test]
fn build_label_filter_parses_correctly() {
    let filter = build_label_filter("app=test");
    assert_eq!(filter, Some("labels.\"app\"==test".to_string()));
}

#[test]
fn build_label_filter_handles_values_with_equals() {
    let filter = build_label_filter("key=value=with=equals");
    assert_eq!(filter, Some("labels.\"key\"==value=with=equals".to_string()));
}

#[test]
fn build_label_filter_returns_none_for_invalid() {
    let filter = build_label_filter("noequals");
    assert_eq!(filter, None);
}

#[test]
fn build_list_request_no_filter() {
    let req = build_list_request(&[]);
    assert!(req.filters.is_empty());
}

#[test]
fn build_list_request_with_filter() {
    let req = build_list_request(&["app=myapp"]);
    assert_eq!(req.filters.len(), 1);
    assert_eq!(req.filters[0], "labels.\"app\"==myapp");
}

#[test]
fn build_list_request_ignores_invalid_filter() {
    let req = build_list_request(&["invalid"]);
    assert!(req.filters.is_empty());
}

#[test]
fn build_list_request_multiple_filters_joined_as_and() {
    let req = build_list_request(&["app=myapp", "env=prod"]);
    assert_eq!(req.filters.len(), 1);
    assert_eq!(req.filters[0], "labels.\"app\"==myapp,labels.\"env\"==prod");
}

#[test]
fn build_list_request_skips_invalid_keeps_valid() {
    let req = build_list_request(&["invalid", "app=myapp"]);
    assert_eq!(req.filters.len(), 1);
    assert_eq!(req.filters[0], "labels.\"app\"==myapp");
}

fn record(id: &str) -> ContainerRecord {
    ContainerRecord {
        id: id.to_string(),
        image: "busybox".to_string(),
        runtime: None,
        spec: None,
        snapshotter: "overlayfs".to_string(),
        snapshot_key: "k".to_string(),
        labels: StringMap::new(),
    }
}

#[test]
fn a_listing_joins_containers_with_their_tasks() {
    let tasks = vec![
        ("b".to_string(), ProcessState { pid: 1, status: 2, exit_status: 0 }),
        ("c".to_string(), ProcessState { pid: 2, status: 3, exit_status: 5 }),
        ("b".to_string(), ProcessState { pid: 9, status: 3, exit_status: u32::MAX }),
    ];
    let infos = list_containers(Ok(vec![record("a"), record("b"), record("c")]), &Ok(tasks)).unwrap();
    assert_eq!(infos.len(), 3);
    assert_eq!(infos[0].id.as_str(), "a");
    assert!(infos[0].task.is_none());
    let b = infos[1].task.unwrap();
    assert_eq!((b.pid, b.status, b.exit_code), (9, TaskStatus::Stopped, Some(-1)));
    assert_eq!(infos[2].task.unwrap().exit_code, Some(5));
}

#[test]
fn a_listing_fails_on_an_invalid_id() {
    let out = list_containers(Ok(vec![record("a"), record("b b"), record("")]), &Ok(vec![]));
    match out {
        Err(Error::InvalidArgument(m)) => {
            assert_eq!(m, "identifier contains invalid character ' ': \"b b\"")
        }
        _ => panic!("an invalid id went through"),
    }
}

#[test]
fn containers_are_listed_without_tasks_if_those_cannot_be() {
    let broken = || Status { code: Code::Unavailable, message: "m".to_string() };
    let infos = list_containers(Ok(vec![record("a")]), &Err(broken())).unwrap();
    assert!(infos[0].task.is_none());
    assert!(matches!(
        list_containers(Err(broken()), &Ok(vec![])),
        Err(Error::Containerd { op: "list_containers", .. })
    ));
}
