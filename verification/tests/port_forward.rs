use containerd_manager::maps::StringMap;
use containerd_manager::port_forward::{
    listen_failed, parse_port_binding_labels, start_port_forward, ListenStage,
};
use containerd_manager::{Error, PortForwardOpts};

#[test]
fn parse_port_binding_labels_parses_valid_entries() {
    let mut labels = StringMap::new();
    labels.insert("containerd-manager.port.27017".to_string(), "50123".to_string());
    labels.insert("containerd-manager.port.443".to_string(), "8443".to_string());
    labels.insert("unrelated-label".to_string(), "value".to_string());

    let mut forwards = parse_port_binding_labels(&labels);
    forwards.sort();
    assert_eq!(forwards, vec![(8443, 443), (50123, 27017)]);
}

#[test]
fn parse_port_binding_labels_empty() {
    assert!(parse_port_binding_labels(&StringMap::new()).is_empty());
}

#[test]
fn parse_port_binding_labels_ignores_malformed() {
    let mut labels = StringMap::new();
    labels.insert("containerd-manager.port.notanumber".to_string(), "50123".to_string());
    labels.insert("containerd-manager.port.27017".to_string(), "notanumber".to_string());
    labels.insert("containerd-manager.port.".to_string(), "50123".to_string());

    assert!(parse_port_binding_labels(&labels).is_empty());
}

#[test]
fn ports_are_sixteen_bits() {
    let labels = StringMap::from_pairs(&[
        ("containerd-manager.port.65535", "65536"),
        ("containerd-manager.port.65536", "1"),
        ("containerd-manager.port.+8", "009"),
        ("containerd-manager.port.-8", "9"),
    ]);
    assert_eq!(parse_port_binding_labels(&labels), vec![(9, 8)]);
}

/// 127.0.0.1 is the default because host networking + bridge proxy both route
/// through loopback. Lock so a refactor doesn't silently change it.
#[test]
fn port_forward_default_target_addr_is_loopback() {
    assert_eq!(PortForwardOpts::default().target_addr, "127.0.0.1");
}

#[test]
fn a_forward_listens_on_loopback_and_dials_the_target() {
    let opts = PortForwardOpts::builder().target_addr("10.88.1.7").build();
    let plan = start_port_forward("web", 5000, 80, &opts).unwrap();
    assert_eq!(plan.container_id, "web");
    assert_eq!(plan.listen, "127.0.0.1:5000");
    assert_eq!(plan.target, "10.88.1.7:80");
    assert_eq!((plan.host_port, plan.container_port), (5000, 80));
}

#[test]
fn a_forward_needs_ports() {
    let opts = PortForwardOpts::default();
    assert!(matches!(
        start_port_forward("web", 0, 0, &opts),
        Err(Error::PortForward(m)) if m == "host_port cannot be 0"
    ));
    assert!(matches!(
        start_port_forward("web", 1, 0, &opts),
        Err(Error::PortForward(m)) if m == "container_port cannot be 0"
    ));
}

#[test]
fn listen_failures_name_the_stage() {
    let text = |stage| listen_failed(stage, 5000, "busy").message();
    assert_eq!(
        text(ListenStage::Bind),
        "port forwarding error: failed to bind port 5000: busy"
    );
    assert_eq!(
        text(ListenStage::NonBlocking),
        "port forwarding error: failed to set non-blocking on port 5000: busy"
    );
    assert_eq!(
        text(ListenStage::Listener),
        "port forwarding error: failed to create tokio listener: busy"
    );
}
