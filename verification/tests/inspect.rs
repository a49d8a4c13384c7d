use containerd_manager::container::{env_strings, Any};
use containerd_manager::error::{Code, Status};
use containerd_manager::inspect::{
    container_found, container_to_info, get_task_info, inspect_container, parse_env_vars,
    process_info, summarize, ContainerRecord, ProcessState,
};
use containerd_manager::maps::StringMap;
use containerd_manager::oci::SpecSummary;
use containerd_manager::{Error, TaskInfo, TaskStatus};

fn record(id: &str, spec: Option<&str>) -> ContainerRecord {
    ContainerRecord {
        id: id.to_string(),
        image: "busybox".to_string(),
        runtime: None,
        spec: spec.map(|s| Any { type_url: "t".to_string(), value: s.as_bytes().to_vec() }),
        snapshotter: "overlayfs".to_string(),
        snapshot_key: "k".to_string(),
        labels: StringMap::from_pairs(&[("containerd-manager.port.80", "5000"), ("a", "b")]),
    }
}

#[test]
fn parse_env_vars_splits_correctly() {
    let env = vec![
        "KEY=value".to_string(),
        "PATH=/usr/bin:/bin".to_string(),
        "EMPTY=".to_string(),
    ];
    let parsed = parse_env_vars(&env);
    assert_eq!(parsed.len(), 3);
    assert_eq!(parsed.get("KEY").unwrap(), "value");
    assert_eq!(parsed.get("PATH").unwrap(), "/usr/bin:/bin");
    assert_eq!(parsed.get("EMPTY").unwrap(), "");
}

#[test]
fn parse_env_vars_ignores_malformed() {
    let env = vec!["NOEQUALS".to_string(), "VALID=yes".to_string()];
    let parsed = parse_env_vars(&env);
    assert_eq!(parsed.len(), 1);
    assert_eq!(parsed.get("VALID").unwrap(), "yes");
}

#[test]
fn the_last_value_of_a_variable_counts() {
    let env = vec!["A=1".to_string(), "B=x=y".to_string(), "A=2".to_string()];
    let parsed = parse_env_vars(&env);
    assert_eq!(parsed.len(), 2);
    assert_eq!(parsed.get("A").unwrap(), "2");
    assert_eq!(parsed.get("B").unwrap(), "x=y");
}

#[test]
fn only_a_stopped_task_has_an_exit_code() {
    let running = ProcessState { pid: 7, status: 2, exit_status: 9 };
    assert_eq!(
        process_info(&running),
        TaskInfo { pid: 7, status: TaskStatus::Running, exit_code: None }
    );
    let stopped = ProcessState { pid: 7, status: 3, exit_status: 137 };
    assert_eq!(process_info(&stopped).exit_code, Some(137));
    let odd = ProcessState { pid: 7, status: 3, exit_status: u32::MAX };
    assert_eq!(process_info(&odd).exit_code, Some(i32::MAX));
}

#[test]
fn a_failed_task_look_up_shows_no_task() {
    let failed: Result<Option<ProcessState>, Status> =
        Err(Status { code: Code::Unavailable, message: "m".to_string() });
    assert!(get_task_info(&failed).is_none());
    assert!(get_task_info(&Ok(None)).is_none());
    let p = ProcessState { pid: 1, status: 4, exit_status: 0 };
    assert_eq!(get_task_info(&Ok(Some(p))).unwrap().status, TaskStatus::Paused);
}

#[test]
fn a_parsed_spec_is_summarized() {
    let summary = SpecSummary {
        env: Some(vec!["A=1".to_string(), "odd".to_string()]),
        mounts: Some(vec![
            (Some("/src".to_string()), "/dst".to_string()),
            (None, "/proc".to_string()),
        ]),
    };
    let (env, mounts) = summarize(&summary);
    assert_eq!(env.len(), 1);
    assert_eq!(env.get("A").unwrap(), "1");
    assert_eq!(
        mounts,
        vec![
            ("/src".to_string(), "/dst".to_string()),
            (String::new(), "/proc".to_string())
        ]
    );
    let (env, mounts) = summarize(&SpecSummary { env: None, mounts: None });
    assert!(env.is_empty());
    assert!(mounts.is_empty());
}

#[test]
fn a_record_shows_its_spec_and_labels() {
    let spec = r#"{
        "ociVersion": "1.0.2",
        "process": { "user": { "uid": 0, "gid": 0 }, "cwd": "/", "env": ["K=v"] },
        "mounts": [ { "destination": "/data", "source": "/host" } ]
    }"#;
    let task = Ok(Some(ProcessState { pid: 3, status: 2, exit_status: 0 }));
    let info = inspect_container(record("web", Some(spec)), &task).unwrap();
    assert_eq!(info.id.as_str(), "web");
    assert_eq!(info.image, "busybox");
    assert_eq!(info.env.get("K").unwrap(), "v");
    assert_eq!(info.mounts, vec![("/host".to_string(), "/data".to_string())]);
    assert_eq!(info.port_forwards, vec![(5000, 80)]);
    assert_eq!(info.labels.len(), 2);
    assert_eq!(info.task.unwrap().pid, 3);
}

#[test]
fn a_foreign_spec_shows_nothing() {
    let info = container_to_info(record("web", Some("no json")), None).unwrap();
    assert!(info.env.is_empty());
    assert!(info.mounts.is_empty());
    assert_eq!(info.port_forwards, vec![(5000, 80)]);
    let info = container_to_info(record("web", None), None).unwrap();
    assert!(info.env.is_empty());
    assert!(info.task.is_none());
}

#[test]
fn a_record_with_an_invalid_id_is_refused() {
    assert!(matches!(
        container_to_info(record("../x", None), None),
        Err(Error::InvalidArgument(_))
    ));
}

#[test]
fn container_look_ups_are_mapped() {
    assert_eq!(container_found("a", Ok(Some(record("a", None)))).unwrap().id, "a");
    assert!(matches!(
        container_found("a", Ok(None)),
        Err(Error::ContainerNotFound(id)) if id == "a"
    ));
    let gone = Status { code: Code::NotFound, message: "m".to_string() };
    assert!(matches!(
        container_found("a", Err(gone)),
        Err(Error::ContainerNotFound(id)) if id == "a"
    ));
    let broken = Status { code: Code::Internal, message: "m".to_string() };
    assert!(matches!(
        container_found("a", Err(broken)),
        Err(Error::Containerd { op: "get_container", source }) if source.message == "m"
    ));
}

#[test]
fn an_environment_is_read_back() {
    let env = StringMap::from_pairs(&[("A", "1"), ("EMPTY", ""), ("B", "x=y=z")]);
    let back = parse_env_vars(&env_strings(&env));
    assert_eq!(back.len(), 3);
    assert_eq!(back.get("A").unwrap(), "1");
    assert_eq!(back.get("EMPTY").unwrap(), "");
    assert_eq!(back.get("B").unwrap(), "x=y=z");
    // A name that holds `=` is cut there.
    let odd = StringMap::from_pairs(&[("A=B", "1")]);
    assert_eq!(parse_env_vars(&env_strings(&odd)).get("A").unwrap(), "B=1");
}
