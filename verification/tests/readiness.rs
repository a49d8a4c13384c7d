use containerd_manager::exec::ExecOutput;
use containerd_manager::json::Json;
use containerd_manager::readiness::{
    check_passed, classify_health, find_healthcheck, look_at_task, next_interval,
    parse_healthcheck, probe_health, resolve_strategy, run_check, wait_ready, Look, PollTiming,
    ReadinessStrategy, ReadyRound, ResolvedCheck, DEFAULT_HC_INTERVAL_SECS,
    DEFAULT_HC_TIMEOUT_SECS, INITIAL_INTERVAL_MS,
};
use containerd_manager::time::Duration;
use containerd_manager::{Error, HealthStatus, TaskInfo, TaskStatus};

#[test]
fn backoff_interval_growth() {
    let mut interval = Duration::from_millis(INITIAL_INTERVAL_MS);
    let steps: Vec<Duration> = (0..6)
        .map(|_| {
            let current = interval;
            interval = next_interval(interval);
            current
        })
        .collect();
    assert_eq!(steps[0], Duration::from_millis(100));
    assert_eq!(steps[1], Duration::from_millis(200));
    assert_eq!(steps[2], Duration::from_millis(400));
    assert_eq!(steps[3], Duration::from_millis(800));
    assert_eq!(steps[4], Duration::from_millis(1600));
    assert_eq!(steps[5], Duration::from_secs(2));
}

#[test]
fn parse_healthcheck_cmd_format() {
    let json = r#"{
        "config": {
            "Healthcheck": {
                "Test": ["CMD", "mongosh", "--eval", "db.runCommand({ping:1})"],
                "Interval": 30000000000,
                "Timeout": 30000000000,
                "Retries": 3,
                "StartPeriod": 5000000000
            }
        }
    }"#;
    let hc = parse_healthcheck(json.as_bytes()).unwrap();
    assert_eq!(hc.test, vec!["mongosh", "--eval", "db.runCommand({ping:1})"]);
    assert_eq!(hc.interval, Duration::from_secs(30));
    assert_eq!(hc.timeout, Duration::from_secs(30));
    assert_eq!(hc.start_period, Duration::from_secs(5));
}

#[test]
fn parse_healthcheck_cmd_shell_format() {
    let json = r#"{
        "config": {
            "Healthcheck": {
                "Test": ["CMD-SHELL", "curl -f http://localhost/ || exit 1"],
                "Interval": 10000000000
            }
        }
    }"#;
    let hc = parse_healthcheck(json.as_bytes()).unwrap();
    assert_eq!(hc.test, vec!["/bin/sh", "-c", "curl -f http://localhost/ || exit 1"]);
    assert_eq!(hc.interval, Duration::from_secs(10));
    assert_eq!(hc.timeout, Duration::from_secs(DEFAULT_HC_TIMEOUT_SECS));
    assert_eq!(hc.start_period, Duration::from_secs(0));
}

#[test]
fn parse_healthcheck_none_returns_none() {
    let json = r#"{
        "config": {
            "Healthcheck": {
                "Test": ["NONE"]
            }
        }
    }"#;
    assert!(parse_healthcheck(json.as_bytes()).is_none());
}

#[test]
fn parse_healthcheck_missing_healthcheck() {
    let json = r#"{ "config": {} }"#;
    assert!(parse_healthcheck(json.as_bytes()).is_none());
}

#[test]
fn parse_healthcheck_missing_config() {
    let json = r#"{ "architecture": "amd64" }"#;
    assert!(parse_healthcheck(json.as_bytes()).is_none());
}

#[test]
fn parse_healthcheck_empty_test_array() {
    let json = r#"{
        "config": {
            "Healthcheck": {
                "Test": []
            }
        }
    }"#;
    assert!(parse_healthcheck(json.as_bytes()).is_none());
}

#[test]
fn parse_healthcheck_defaults_applied() {
    let json = r#"{
        "config": {
            "Healthcheck": {
                "Test": ["CMD", "true"]
            }
        }
    }"#;
    let hc = parse_healthcheck(json.as_bytes()).unwrap();
    assert_eq!(hc.test, vec!["true"]);
    assert_eq!(hc.interval, Duration::from_secs(DEFAULT_HC_INTERVAL_SECS));
    assert_eq!(hc.timeout, Duration::from_secs(DEFAULT_HC_TIMEOUT_SECS));
    assert_eq!(hc.start_period, Duration::from_secs(0));
}

#[test]
fn parse_healthcheck_invalid_json() {
    assert!(parse_healthcheck(b"not json").is_none());
}

#[test]
fn parse_healthcheck_cmd_shell_missing_command() {
    let json = r#"{
        "config": {
            "Healthcheck": {
                "Test": ["CMD-SHELL"]
            }
        }
    }"#;
    assert!(parse_healthcheck(json.as_bytes()).is_none());
}

#[test]
fn poll_timing_default_uses_backoff() {
    let timing = PollTiming::default();
    assert_eq!(timing.initial_interval, Duration::from_millis(INITIAL_INTERVAL_MS));
    assert!(timing.use_backoff);
    assert!(timing.check_timeout.is_none());
    assert_eq!(timing.start_period, Duration::from_secs(0));
}

#[test]
fn a_healthcheck_takes_strings_and_whole_numbers_only() {
    let hc = Json::Object(vec![
        (
            "Test".to_string(),
            Json::Array(vec![
                Json::Null,
                Json::Str("curl".to_string()),
                Json::Bool(true),
                Json::Str("x".to_string()),
            ]),
        ),
        ("Interval".to_string(), Json::Number(None)),
        ("Timeout".to_string(), Json::Number(Some(7))),
    ]);
    let doc = Json::Object(vec![(
        "config".to_string(),
        Json::Object(vec![("Healthcheck".to_string(), hc)]),
    )]);
    let found = find_healthcheck(&doc).unwrap();
    // Words without a `CMD` prefix are the command itself.
    assert_eq!(found.test, vec!["curl", "x"]);
    assert_eq!(found.interval, Duration::from_secs(30));
    assert_eq!(found.timeout, Duration::from_nanos(7));
}

#[test]
fn a_lone_cmd_is_no_healthcheck() {
    let json = r#"{"config":{"Healthcheck":{"Test":["CMD"]}}}"#;
    assert!(parse_healthcheck(json.as_bytes()).is_none());
}

#[test]
fn strategies_resolve() {
    let hc = || parse_healthcheck(
        br#"{"config":{"Healthcheck":{"Test":["CMD","t"],"Timeout":5,"StartPeriod":6}}}"#,
    );
    let (check, timing) = resolve_strategy(&ReadinessStrategy::ImageHealthcheck, hc());
    assert!(matches!(check, ResolvedCheck::Exec(args) if args == vec!["t"]));
    assert_eq!(timing.check_timeout, Some(Duration::from_nanos(5)));
    assert_eq!(timing.start_period, Duration::from_nanos(6));
    assert!(!timing.use_backoff);

    let (check, timing) = resolve_strategy(&ReadinessStrategy::ImageHealthcheck, None);
    assert!(matches!(check, ResolvedCheck::ProcessRunning));
    assert_eq!(timing, PollTiming::default());

    let (check, timing) = resolve_strategy(&ReadinessStrategy::TcpPort(80), hc());
    assert!(matches!(check, ResolvedCheck::TcpPort(80)));
    assert_eq!(timing, PollTiming::default());

    let exec = ReadinessStrategy::Exec(vec!["a".to_string(), "b".to_string()]);
    let (check, _) = resolve_strategy(&exec, None);
    assert!(matches!(check, ResolvedCheck::Exec(args) if args == vec!["a", "b"]));
    let (check, _) = resolve_strategy(&ReadinessStrategy::ProcessRunning, hc());
    assert!(matches!(check, ResolvedCheck::ProcessRunning));
}

#[test]
fn waiting_looks_at_the_task_first() {
    let task = |status| Some(TaskInfo { pid: 1, status, exit_code: None });
    assert!(matches!(look_at_task("c", &task(TaskStatus::Running)), Look::RunCheck));
    assert!(matches!(look_at_task("c", &task(TaskStatus::Paused)), Look::NotYet));
    assert!(matches!(look_at_task("c", &task(TaskStatus::Unknown)), Look::NotYet));
    assert!(matches!(
        look_at_task("c", &task(TaskStatus::Stopped)),
        Look::Failed(Error::TaskExited(id)) if id == "c"
    ));
    assert!(matches!(
        look_at_task("c", &None),
        Look::Failed(Error::TaskNotFound(id)) if id == "c"
    ));
}

#[test]
fn waiting_gives_up_after_the_timeout() {
    let task = |status| Some(TaskInfo { pid: 1, status, exit_code: None });
    let interval = Duration::from_millis(100);
    let timeout = Duration::from_millis(1500);
    let late = Duration::from_millis(1501);
    let round = |status, ok, elapsed, backoff| {
        wait_ready("c", &task(status), ok, elapsed, timeout, interval, backoff)
    };
    assert!(matches!(
        round(TaskStatus::Running, false, timeout, true),
        ReadyRound::Sleep { now, next }
            if now == interval && next == Duration::from_millis(200)
    ));
    assert!(matches!(
        round(TaskStatus::Running, false, timeout, false),
        ReadyRound::Sleep { next, .. } if next == interval
    ));
    match round(TaskStatus::Running, false, late, true) {
        ReadyRound::Failed(e) => assert_eq!(
            e.message(),
            "timeout: container c did not become ready within 1.5s"
        ),
        other => panic!("waited past the timeout: {other:?}"),
    }
    // A check that passes counts even behind the deadline, but only on a
    // running task.
    assert!(matches!(round(TaskStatus::Running, true, late, true), ReadyRound::Ready));
    assert!(matches!(
        round(TaskStatus::Paused, true, timeout, true),
        ReadyRound::Sleep { .. }
    ));
    assert!(matches!(
        round(TaskStatus::Stopped, true, timeout, true),
        ReadyRound::Failed(Error::TaskExited(_))
    ));
    assert!(matches!(
        wait_ready("c", &None, true, timeout, timeout, interval, true),
        ReadyRound::Failed(Error::TaskNotFound(_))
    ));
}

#[test]
fn intervals_stay_at_the_maximum() {
    assert_eq!(next_interval(Duration::from_secs(2)), Duration::from_secs(2));
    assert_eq!(next_interval(Duration::from_secs(u64::MAX)), Duration::from_secs(2));
}

fn output(exit_code: i32) -> ExecOutput {
    ExecOutput {
        exit_code,
        stdout: vec![],
        stderr: vec![],
        truncated_stdout: false,
        truncated_stderr: false,
    }
}

#[test]
fn a_check_passes_with_exit_code_zero() {
    assert!(check_passed(&Some(Ok(output(0)))));
    assert!(!check_passed(&Some(Ok(output(1)))));
    assert!(!check_passed(&Some(Err(Error::NotImplemented))));
    assert!(!check_passed(&None));
}

#[test]
fn failures_in_the_grace_window_count_as_starting() {
    let grace = Duration::from_secs(5);
    let early = Some(Duration::from_secs(4));
    assert_eq!(classify_health(true, grace, None), HealthStatus::Healthy);
    assert_eq!(classify_health(false, grace, early), HealthStatus::Starting);
    assert_eq!(classify_health(false, grace, Some(grace)), HealthStatus::Unhealthy);
    assert_eq!(classify_health(false, grace, None), HealthStatus::Unhealthy);
    assert_eq!(
        classify_health(false, Duration::from_secs(0), early),
        HealthStatus::Unhealthy
    );
}

#[test]
fn each_check_looks_at_its_own_outcome() {
    let ran = Some(Ok(output(0)));
    assert!(run_check(&ResolvedCheck::ProcessRunning, false, &None));
    assert!(run_check(&ResolvedCheck::TcpPort(80), true, &None));
    assert!(!run_check(&ResolvedCheck::TcpPort(80), false, &ran));
    assert!(run_check(&ResolvedCheck::Exec(vec![]), false, &ran));
    assert!(!run_check(&ResolvedCheck::Exec(vec![]), true, &None));
}

#[test]
fn a_probe_classifies_its_outcome() {
    let hc = parse_healthcheck(
        br#"{"config":{"Healthcheck":{"Test":["CMD","t"],"StartPeriod":5000000000}}}"#,
    );
    assert_eq!(probe_health(&None, &None, None), HealthStatus::NoHealthcheck);
    assert_eq!(probe_health(&hc, &Some(Ok(output(0))), None), HealthStatus::Healthy);
    let early = Some(Duration::from_secs(1));
    assert_eq!(probe_health(&hc, &Some(Ok(output(1))), early), HealthStatus::Starting);
    assert_eq!(probe_health(&hc, &None, Some(Duration::from_secs(9))), HealthStatus::Unhealthy);
}
