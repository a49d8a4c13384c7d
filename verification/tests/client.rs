use std::sync::Arc;

use containerd_manager::client::{
    forwards_to_start, is_bridge_mode, ExitWatcher, SharedState, WATCH_MAX_ERRORS,
};
use containerd_manager::container::ImageMetadata;
use containerd_manager::maps::StringMap;
use containerd_manager::oci::ImageConfig;
use containerd_manager::time::Duration;
use containerd_manager::{Client, ContainerId, ContainerInfo, Error, TaskInfo, TaskStatus};

fn dummy_metadata() -> Arc<ImageMetadata> {
    Arc::new(ImageMetadata {
        chain_id: "sha256:abc".to_string(),
        config: ImageConfig { config: None, diff_ids: vec!["sha256:abc".to_string()] },
        raw_config: b"{}".to_vec(),
    })
}

fn at(secs: u64) -> Duration {
    Duration::from_secs(secs)
}

#[test]
fn image_cache_starts_empty() {
    let c = Client::new();
    let s = SharedState::new();
    assert_eq!(c.image_cache_len(&s), 0);
    assert!(c.lookup_image_metadata(&s, "sha256:abc").is_none());
}

#[test]
fn image_cache_store_then_lookup() {
    let c = Client::new();
    let mut s = SharedState::new();
    c.store_image_metadata(&mut s, "sha256:abc".into(), dummy_metadata());
    assert_eq!(c.image_cache_len(&s), 1);

    let hit = c.lookup_image_metadata(&s, "sha256:abc").unwrap();
    assert_eq!(hit.chain_id, "sha256:abc");
}

#[test]
fn image_cache_miss_for_other_digest() {
    let c = Client::new();
    let mut s = SharedState::new();
    c.store_image_metadata(&mut s, "sha256:abc".into(), dummy_metadata());
    assert!(c.lookup_image_metadata(&s, "sha256:def").is_none());
}

#[test]
fn image_cache_clear_drops_all_entries() {
    let c = Client::new();
    let mut s = SharedState::new();
    c.store_image_metadata(&mut s, "sha256:abc".into(), dummy_metadata());
    c.store_image_metadata(&mut s, "sha256:def".into(), dummy_metadata());
    assert_eq!(c.image_cache_len(&s), 2);
    c.clear_image_cache(&mut s);
    assert_eq!(c.image_cache_len(&s), 0);
}

#[test]
fn image_cache_shared_with_clone_and_namespace() {
    let a = Client::new();
    let mut s = SharedState::new();
    let b = a.clone();
    let other = a.with_namespace("other");
    a.store_image_metadata(&mut s, "sha256:abc".into(), dummy_metadata());
    assert_eq!(b.image_cache_len(&s), 1);
    assert!(other.lookup_image_metadata(&s, "sha256:abc").is_some());
    other.clear_image_cache(&mut s);
    assert_eq!(a.image_cache_len(&s), 0);
}

#[test]
fn task_uptime_none_until_recorded() {
    let c = Client::new();
    let mut s = SharedState::new();
    assert!(c.task_uptime(&s, "c1", at(5)).is_none());
    c.record_task_start(&mut s, "c1", at(5));
    assert_eq!(c.task_uptime(&s, "c1", at(8)), Some(at(3)));
    assert_eq!(c.task_uptime(&s, "c1", at(1)), Some(at(0)));
}

#[test]
fn task_uptime_evicted_by_forget() {
    let c = Client::new();
    let mut s = SharedState::new();
    c.record_task_start(&mut s, "c1", at(5));
    c.forget_task_start(&mut s, "c1");
    assert!(c.task_uptime(&s, "c1", at(6)).is_none());
}

#[test]
fn task_uptime_keyed_per_namespace() {
    let c = Client::new();
    let mut s = SharedState::new();
    c.record_task_start(&mut s, "c1", at(1));
    let other = c.with_namespace("other");
    // Same container id, different namespace - independent entry.
    assert!(other.task_uptime(&s, "c1", at(2)).is_none());
    other.record_task_start(&mut s, "c1", at(2));
    assert!(other.task_uptime(&s, "c1", at(2)).is_some());
    // Original namespace still has its entry.
    assert!(c.task_uptime(&s, "c1", at(2)).is_some());
}

#[test]
fn ns_req_attaches_containerd_namespace_metadata() {
    let c = Client::new().with_namespace("attached-ns");
    let (key, value) = c.ns_req();
    assert_eq!(key, "containerd-namespace");
    assert_eq!(value, "attached-ns");
}

#[test]
fn with_namespace_shares_image_cache() {
    let c = Client::new();
    let mut s = SharedState::new();
    c.store_image_metadata(&mut s, "sha256:abc".into(), dummy_metadata());
    let other = c.with_namespace("other");
    // Image cache content-addressed, namespace-independent.
    assert_eq!(other.image_cache_len(&s), 1);
    assert!(other.lookup_image_metadata(&s, "sha256:abc").is_some());
}

#[test]
fn with_namespace_shares_task_start_times_arc_but_keyed_per_ns() {
    // Same state, but the key includes the namespace so entries don't collide
    // across namespaces.
    let c = Client::new();
    let mut s = SharedState::new();
    c.record_task_start(&mut s, "c1", at(1));
    let other = c.with_namespace("other");
    assert!(other.task_uptime(&s, "c1", at(2)).is_none());
    assert!(c.task_uptime(&s, "c1", at(2)).is_some());
}

#[test]
fn try_with_namespace_rejects_invalid() {
    let c = Client::new();
    let bad = c.try_with_namespace("contains\nnewline");
    assert!(bad.is_err(), "newline must be rejected for header value");
    assert_eq!(
        c.try_with_namespace("a\nb").unwrap_err().message(),
        "invalid argument: namespace \"a\\nb\" is not valid as a gRPC metadata header value \
         (ASCII visible chars only)"
    );
    assert!(c.try_with_namespace("caf\u{e9}").is_err());
    assert!(c.try_with_namespace("\u{7f}").is_err());
    assert_eq!(c.try_with_namespace("k8s.io ~").unwrap().namespace(), "k8s.io ~");
}

#[test]
fn namespace_defaults_and_changes() {
    let c = Client::new();
    assert_eq!(c.namespace(), "default");
    let other = c.with_namespace("other");
    assert_eq!(other.namespace(), "other");
    assert_eq!(other.clone().namespace(), "other");
    assert_eq!(other.ns_key("c1"), "other/c1");
    assert_ne!(c.ns_key("c1"), other.ns_key("c1"));
}

fn info(mode: &str) -> ContainerInfo {
    ContainerInfo {
        id: ContainerId::new("c1").unwrap(),
        image: "busybox".to_string(),
        labels: StringMap::from_pairs(&[("containerd-manager.network.mode", mode)]),
        env: StringMap::new(),
        mounts: vec![],
        task: None,
        port_forwards: vec![(5001, 80), (5002, 443)],
    }
}

#[test]
fn only_bridge_mode_forwards_ports() {
    assert!(is_bridge_mode(&info("bridge")));
    assert!(!is_bridge_mode(&info("host")));
    assert_eq!(forwards_to_start(&info("bridge")), vec![(5001, 80), (5002, 443)]);
    assert!(forwards_to_start(&info("isolated")).is_empty());
    let mut unlabelled = info("bridge");
    unlabelled.labels = StringMap::new();
    assert!(!is_bridge_mode(&unlabelled));
}

fn task(status: TaskStatus) -> TaskInfo {
    TaskInfo { pid: 1, status, exit_code: None }
}

#[test]
fn watcher_ends_with_the_task() {
    let mut w = ExitWatcher::new();
    assert_eq!(w.interval, Duration::from_millis(250));
    assert!(!w.look(&Ok(Some(task(TaskStatus::Running)))));
    assert!(!w.look(&Ok(None)));
    assert!(w.look(&Ok(Some(task(TaskStatus::Stopped)))));
    assert!(w.look(&Err(Error::ContainerNotFound("c1".to_string()))));
}

#[test]
fn watcher_backs_off_and_gives_up() {
    let mut w = ExitWatcher::new();
    assert!(!w.look(&Err(Error::NotImplemented)));
    assert_eq!(w.interval, Duration::from_millis(500));
    for _ in 0..6 {
        w.look(&Err(Error::NotImplemented));
    }
    assert_eq!(w.interval, Duration::from_secs(5));
    assert!(!w.look(&Ok(None)));
    assert_eq!(w.errors, 0);
    assert_eq!(w.interval, Duration::from_millis(250));
    for _ in 0..WATCH_MAX_ERRORS - 1 {
        assert!(!w.look(&Err(Error::NotImplemented)));
    }
    assert!(w.look(&Err(Error::NotImplemented)));
}
