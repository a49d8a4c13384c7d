use containerd_manager::container::Any;
use containerd_manager::error::{Code, Status};
use containerd_manager::exec::{
    build_exec_process_spec, build_exec_request, exec_request, generate_exec_id, io_paths,
    read_capped, read_exec_process_spec, ExecCall, ExecEvent, ExecOp, ExecPhase,
};
use containerd_manager::maps::StringMap;
use containerd_manager::{Error, ExecOpts, ExecOutput, DEFAULT_EXEC_MAX_OUTPUT_BYTES};

#[test]
fn exec_output_str_lossy_on_non_utf8() {
    // Lossy UTF-8 decode preserves a valid prefix and replaces invalid
    // sequences.
    let output = ExecOutput {
        stdout: b"ok\xff\xfemore".to_vec(),
        stderr: Vec::new(),
        exit_code: 0,
        truncated_stdout: false,
        truncated_stderr: false,
    };
    let s = output.stdout_str();
    assert!(s.starts_with("ok"));
    assert!(s.ends_with("more"));
    assert!(s.contains('\u{FFFD}'));
    assert_eq!(output.stderr_str(), "");
}

#[test]
fn read_capped_truncates_oversize() {
    assert_eq!(read_capped(1024, 100), (100, true));
}

#[test]
fn read_capped_passthrough_when_under_cap() {
    assert_eq!(read_capped(5, 100), (5, false));
    assert_eq!(read_capped(100, 100), (100, false));
}

#[test]
fn generate_exec_id_is_unique() {
    let id1 = generate_exec_id(77, 0);
    let id2 = generate_exec_id(77, 1);
    assert_ne!(id1, id2);
    assert!(id1.starts_with("exec-"));
    assert!(id2.starts_with("exec-"));
    assert_eq!(id1, "exec-77-0");
    assert_ne!(generate_exec_id(1, 11), generate_exec_id(11, 1));
}

#[test]
fn build_exec_process_spec_sets_args() {
    let any = build_exec_process_spec(&["echo", "hello"], vec![]).expect("should build spec");
    assert_eq!(
        any.type_url,
        "types.containerd.io/opencontainers/runtime-spec/1/Process"
    );
    assert!(!any.value.is_empty());

    let parsed: serde_json::Value =
        serde_json::from_slice(&any.value).expect("should be valid json");
    let args = parsed["args"].as_array().expect("should have args");
    assert_eq!(args.len(), 2);
    assert_eq!(args[0], "echo");
    assert_eq!(args[1], "hello");
    assert_eq!(parsed["cwd"], "/");
}

#[test]
fn build_exec_process_spec_single_arg() {
    let any = build_exec_process_spec(&["ls"], vec![]).expect("should build spec");
    let parsed: serde_json::Value = serde_json::from_slice(&any.value).unwrap();
    let args = parsed["args"].as_array().unwrap();
    assert_eq!(args.len(), 1);
    assert_eq!(args[0], "ls");
}

#[test]
fn build_exec_request_sets_fields() {
    let spec = Any {
        type_url: "test".to_string(),
        value: vec![1, 2, 3],
    };
    let req = build_exec_request("my-container", "exec-1", "/tmp/stdout", "/tmp/stderr", spec);
    assert_eq!(req.container_id, "my-container");
    assert_eq!(req.exec_id, "exec-1");
    assert_eq!(req.stdout, "/tmp/stdout");
    assert_eq!(req.stderr, "/tmp/stderr");
    assert!(req.stdin.is_empty());
    assert!(!req.terminal);
    assert!(req.spec.is_some());
}

#[test]
fn build_exec_request_empty_stdin() {
    let spec = Any {
        type_url: String::new(),
        value: Vec::new(),
    };
    let req = build_exec_request("c1", "e1", "/a/stdout", "/a/stderr", spec);
    assert!(req.stdin.is_empty());
}

#[test]
fn an_exec_is_read_back() {
    let any = build_exec_process_spec(&["echo", "hi there"], vec!["A=1".to_string()]).unwrap();
    let process = read_exec_process_spec(&any).unwrap();
    assert_eq!(process.terminal, Some(false));
    assert_eq!((process.uid, process.gid), (0, 0));
    assert_eq!(process.args.unwrap(), vec!["echo".to_string(), "hi there".to_string()]);
    assert_eq!(process.env.unwrap(), vec!["A=1".to_string()]);
    assert_eq!(process.cwd, "/");
    let garbled = Any { type_url: any.type_url, value: b"{".to_vec() };
    match read_exec_process_spec(&garbled) {
        Err(Error::InvalidArgument(m)) => assert!(m.starts_with("parse process spec: EOF")),
        _ => panic!("read a garbled process"),
    }
}

#[test]
fn an_exec_inherits_the_environment() {
    let io = io_paths(Some("/home/me"), "exec-1-0").unwrap();
    let env = StringMap::from_pairs(&[("A", "1"), ("B", "x=y")]);
    let req = exec_request("c1", "exec-1-0", &["true"], &env, &io).unwrap();
    let process: oci_spec::runtime::Process =
        serde_json::from_slice(&req.spec.unwrap().value).unwrap();
    assert_eq!(
        process.env().as_ref().unwrap(),
        &vec!["A=1".to_string(), "B=x=y".to_string()]
    );
    assert_eq!(process.args().as_ref().unwrap(), &vec!["true".to_string()]);
    assert_eq!(
        process.capabilities().as_ref().unwrap().bounding().as_ref().unwrap().len(),
        14
    );
    assert_eq!(req.stdout, "/home/me/.containerd-manager/exec-io/exec-1-0/stdout");
    assert_eq!(req.stderr, "/home/me/.containerd-manager/exec-io/exec-1-0/stderr");
}

#[test]
fn exec_paths_need_a_home() {
    let io = io_paths(Some("/h"), "e").unwrap();
    assert_eq!(io.base, "/h/.containerd-manager/exec-io");
    assert_eq!(io.dir, "/h/.containerd-manager/exec-io/e");
    assert!(matches!(io_paths(None, "e"), Err(Error::Io { context: "home directory", .. })));
}

#[test]
fn an_exec_needs_a_command() {
    assert!(ExecOp::begin("c1", "exec-1-0", &["ls"]).is_ok());
    assert_eq!(
        ExecOp::begin("c1", "exec-1-0", &[]).unwrap_err().message(),
        "invalid argument: command must not be empty"
    );
}

#[test]
fn exec_opts_have_a_cap() {
    assert_eq!(ExecOpts::default().max_output_bytes, DEFAULT_EXEC_MAX_OUTPUT_BYTES);
    assert_eq!(DEFAULT_EXEC_MAX_OUTPUT_BYTES, 16 * 1024 * 1024);
    assert_eq!(ExecOpts::builder().max_output_bytes(5).build().max_output_bytes, 5);
}

fn well() -> Vec<ExecEvent> {
    vec![
        ExecEvent::Done,
        ExecEvent::Done,
        ExecEvent::Done,
        ExecEvent::Done,
        ExecEvent::Exited { status: 3 },
        ExecEvent::Output { data: b"out".to_vec(), truncated: true },
        ExecEvent::Output { data: "\u{e9}rr".as_bytes().to_vec(), truncated: false },
    ]
}

#[test]
fn an_exec_goes_through_its_phases() {
    let mut op = ExecOp::begin("c1", "exec-1-0", &["ls"]).unwrap();
    let mut seen = vec![op.phase];
    for ev in well() {
        op.advance(ev);
        seen.push(op.phase);
    }
    // A record that cannot be dropped does not fail the exec.
    op.advance(ExecEvent::Failed(Error::NotImplemented));
    seen.push(op.phase);
    assert_eq!(
        seen,
        vec![
            ExecPhase::PrepareIo,
            ExecPhase::Inspect,
            ExecPhase::Create,
            ExecPhase::Start,
            ExecPhase::Wait,
            ExecPhase::ReadStdout,
            ExecPhase::ReadStderr,
            ExecPhase::Delete,
            ExecPhase::Finished,
        ]
    );
    let output = op.outcome().unwrap();
    assert_eq!(output.exit_code, 3);
    assert_eq!(output.stdout_str(), "out");
    assert_eq!(output.stderr_str(), "\u{e9}rr");
    assert!(output.truncated_stdout);
    assert!(!output.truncated_stderr);
}

#[test]
fn exit_statuses_are_signed() {
    for (status, code) in [(u32::MAX, -1), (1 << 31, i32::MIN), (137, 137)] {
        let mut op = ExecOp::begin("c1", "exec-1-0", &["ls"]).unwrap();
        for ev in well() {
            op.advance(match ev {
                ExecEvent::Exited { .. } => ExecEvent::Exited { status },
                other => other,
            });
        }
        op.advance(ExecEvent::Done);
        assert_eq!(op.outcome().unwrap().exit_code, code);
    }
}

#[test]
fn refusals_are_named_by_their_phase() {
    for (before, name) in [
        (1, "get_container"),
        (2, "exec_create"),
        (3, "exec_start"),
        (4, "exec_wait"),
    ] {
        let mut op = ExecOp::begin("c1", "exec-1-0", &["ls"]).unwrap();
        for ev in well().into_iter().take(before) {
            op.advance(ev);
        }
        op.advance(ExecEvent::Refused(Status {
            code: Code::NotFound,
            message: "m".to_string(),
        }));
        assert_eq!(op.phase, ExecPhase::Finished);
        assert!(matches!(op.outcome(), Err(Error::Containerd { op, .. }) if op == name));
    }
    let mut op = ExecOp::begin("c1", "exec-1-0", &["ls"]).unwrap();
    op.advance(ExecEvent::Failed(Error::ContainerNotFound("c".to_string())));
    assert!(matches!(op.outcome(), Err(Error::ContainerNotFound(_))));
}

#[test]
fn every_call_of_an_exec_names_its_process() {
    let io = io_paths(Some("/home/me"), "exec-1-0").unwrap();
    let mut op = ExecOp::begin("c1", "exec-1-0", &["ls"]).unwrap();
    let req = op.request(&["ls"], &StringMap::new(), &io).unwrap();
    assert_eq!((req.container_id.as_str(), req.exec_id.as_str()), ("c1", "exec-1-0"));
    let mut calls = vec![];
    for ev in well() {
        op.advance(ev);
        match op.call() {
            Some(ExecCall::Start { container_id, exec_id }) => {
                calls.push(("start", container_id, exec_id))
            }
            Some(ExecCall::Wait { container_id, exec_id }) => {
                calls.push(("wait", container_id, exec_id))
            }
            Some(ExecCall::Delete { container_id, exec_id }) => {
                calls.push(("delete", container_id, exec_id))
            }
            None => {}
        }
    }
    let named = |what| (what, "c1".to_string(), "exec-1-0".to_string());
    assert_eq!(calls, vec![named("start"), named("wait"), named("delete")]);
}
