use std::collections::HashSet;

use containerd_manager::bridge::{
    alloc_bridge_ip, free_octets, octet_or_exhausted, parse_octet, pick_free_octet,
    pick_free_port_failed, poststart_hook_script, poststop_hook_script, prestart_hook_script,
    socat_log_file, socat_pid_file, used_octets, veth_name, PortStage,
};
use containerd_manager::consts::BRIDGE_IP_LABEL;
use containerd_manager::maps::StringMap;
use containerd_manager::Error;

#[test]
fn parse_octet_last_segment() {
    assert_eq!(parse_octet("10.88.1.42"), Some(42));
    assert_eq!(parse_octet("10.88.1.2"), Some(2));
    assert_eq!(parse_octet("10.88.1.254"), Some(254));
}

#[test]
fn parse_octet_rejects_garbage() {
    assert_eq!(parse_octet(""), None);
    assert_eq!(parse_octet("not-an-ip"), None);
    assert_eq!(parse_octet("10.88.1.999"), None);
    assert_eq!(parse_octet("10.88.1.-1"), None);
    // Four octets are required.
    assert_eq!(parse_octet("42"), None);
    assert_eq!(parse_octet("foo.42"), None);
}

#[test]
fn parse_octet_wants_the_canonical_form() {
    assert_eq!(parse_octet("10.88.1.0"), Some(0));
    assert_eq!(parse_octet("255.255.255.255"), Some(255));
    assert_eq!(parse_octet("10.88.1.042"), None);
    assert_eq!(parse_octet("10.88.1.+4"), None);
    assert_eq!(parse_octet("10.88.1.4."), None);
    assert_eq!(parse_octet("10.88.1.4 "), None);
    assert_eq!(parse_octet("10.88..4"), None);
    assert_eq!(parse_octet("256.88.1.4"), None);
}

#[test]
fn pick_free_octet_returns_in_range() {
    let used = HashSet::new();
    for _ in 0..50 {
        let o = pick_free_octet(&used).unwrap();
        assert!((2..=254).contains(&o));
    }
}

#[test]
fn pick_free_octet_avoids_used() {
    let used: HashSet<u8> = (2..=253).collect();
    // Only 254 is free.
    let o = pick_free_octet(&used).unwrap();
    assert_eq!(o, 254);
}

#[test]
fn pick_free_octet_errors_on_exhaustion() {
    let used: HashSet<u8> = (2..=254).collect();
    let err = pick_free_octet(&used).unwrap_err();
    assert!(matches!(err, Error::ResourceExhausted(_)));
    assert_eq!(
        err.message(),
        "resource exhausted: no free bridge IPs in 10.88.1.0/24 (253 octets in use)"
    );
}

#[test]
fn free_octets_are_those_not_in_use() {
    let used: HashSet<u8> = (3..=252).collect();
    assert_eq!(free_octets(&used), vec![2, 253, 254]);
    let all: HashSet<u8> = (0..=255).collect();
    assert!(free_octets(&all).is_empty());
}

#[test]
fn octet_or_exhausted_hands_a_pick_through() {
    assert_eq!(octet_or_exhausted(Some(7), 3).unwrap(), 7);
    assert!(octet_or_exhausted(None, 3).is_err());
}

#[test]
fn used_octets_come_from_labels() {
    let containers = vec![
        StringMap::from_pairs(&[(BRIDGE_IP_LABEL, "10.88.1.7")]),
        StringMap::from_pairs(&[("app", "10.88.1.8")]),
        StringMap::from_pairs(&[(BRIDGE_IP_LABEL, "nonsense")]),
        StringMap::from_pairs(&[(BRIDGE_IP_LABEL, "10.88.1.9")]),
    ];
    let used = used_octets(&containers);
    assert_eq!(used.len(), 2);
    assert!(used.contains(&7));
    assert!(used.contains(&9));
}

#[test]
fn allocated_address_is_not_in_use() {
    let mut containers = Vec::new();
    for octet in 2..=253 {
        let ip = format!("10.88.1.{octet}");
        containers.push(StringMap::from_pairs(&[(BRIDGE_IP_LABEL, ip.as_str())]));
    }
    assert_eq!(alloc_bridge_ip(&containers).unwrap(), "10.88.1.254");
    containers.push(StringMap::from_pairs(&[(BRIDGE_IP_LABEL, "10.88.1.254")]));
    assert!(matches!(
        alloc_bridge_ip(&containers),
        Err(Error::ResourceExhausted(_))
    ));
}

#[test]
fn veth_name_is_15_chars_and_stable() {
    let a = veth_name("my-container");
    let b = veth_name("my-container");
    assert_eq!(a, b);
    assert_eq!(a.len(), 15);
    assert!(a.starts_with("cm"));
}

#[test]
fn veth_name_distinguishes_prefix_siblings() {
    assert_ne!(veth_name("foo"), veth_name("foo-2"));
    assert_ne!(veth_name("containerd-demo"), veth_name("containerd-demo-2"));
}

#[test]
fn veth_name_is_a_hash() {
    let mut hash: u64 = 0xcbf2_9ce4_8422_2325;
    for b in "foo".bytes() {
        hash = (hash ^ b as u64).wrapping_mul(0x0000_0100_0000_01b3);
    }
    let want = format!("cm{:013x}", hash & 0x000f_ffff_ffff_ffff);
    assert_eq!(veth_name("foo"), want);
    assert_eq!(veth_name(""), "cm29ce484222325");
}

#[test]
fn poststart_one_port_emits_one_socat() {
    let script = poststart_hook_script("cid", "10.88.1.5", &[(27017, 50123)]);
    assert_eq!(script.matches("socat TCP-LISTEN").count(), 1);
    assert!(script.contains("TCP-LISTEN:50123"));
    assert!(script.contains("TCP:10.88.1.5:27017"));
    assert!(script.contains("/tmp/socat-cid-27017.pid"));
}

#[test]
fn poststart_multi_port_emits_one_socat_per_binding() {
    let script = poststart_hook_script("cid", "10.88.1.5", &[(27017, 50001), (8080, 50002)]);
    assert_eq!(script.matches("socat TCP-LISTEN").count(), 2);
    assert!(script.contains("TCP-LISTEN:50001"));
    assert!(script.contains("TCP-LISTEN:50002"));
    assert!(script.contains("TCP:10.88.1.5:27017"));
    assert!(script.contains("TCP:10.88.1.5:8080"));
    // Per-port pid files prevent socats from clobbering each other.
    assert!(script.contains("/tmp/socat-cid-27017.pid"));
    assert!(script.contains("/tmp/socat-cid-8080.pid"));
}

#[test]
fn poststart_no_ports_emits_no_socat() {
    let script = poststart_hook_script("cid", "10.88.1.5", &[]);
    assert!(!script.contains("socat"));
}

#[test]
fn poststart_block_is_exact() {
    let script = poststart_hook_script("cid", "10.88.1.5", &[(80, 8080)]);
    let want = "\nnohup /usr/bin/socat TCP-LISTEN:8080,fork,reuseaddr TCP:10.88.1.5:80 \\\n  \
         >/tmp/socat-cid-80.log 2>&1 &\n\
         SOCAT_PID=$!\n\
         echo $SOCAT_PID > /tmp/socat-cid-80.pid\n\
         # Give socat a moment to fail-fast on exec / bind errors.\n\
         sleep 0.1\n\
         if ! kill -0 $SOCAT_PID 2>/dev/null; then\n\
         echo \"poststart: socat $SOCAT_PID exited (port 8080)\" >&2\n\
         cat /tmp/socat-cid-80.log >&2 2>/dev/null || true\n\
         rm -f /tmp/socat-cid-80.pid\n\
         exit 1\n\
         fi\n";
    assert_eq!(script, want);
}

#[test]
fn poststop_kills_each_socat_then_deletes_veth() {
    let script = poststop_hook_script("cid", &[(27017, 50001), (8080, 50002)]);
    // Each binding loads pid then SIGTERM then SIGKILL.
    assert_eq!(script.matches("SOCAT_PID=$(cat").count(), 2);
    assert_eq!(script.matches("kill -9 $SOCAT_PID").count(), 2);
    assert!(script.contains("/tmp/socat-cid-27017.pid"));
    assert!(script.contains("/tmp/socat-cid-8080.pid"));
    // Scoping by host port would risk killing an unrelated forwarder that
    // reused the port.
    assert!(!script.contains("TCP-LISTEN"));
    assert!(script.contains("ip link delete"));
    // Veth delete happens once, after all kills.
    let veth_idx = script.find("ip link delete").unwrap();
    let last_kill_idx = script.rfind("kill -9 $SOCAT_PID").unwrap();
    assert!(veth_idx > last_kill_idx);
}

#[test]
fn poststop_block_is_exact() {
    let script = poststop_hook_script("cid", &[(80, 8080)]);
    let want = format!(
        "\nSOCAT_PID=$(cat /tmp/socat-cid-80.pid 2>/dev/null || echo)\n\
         if [ -n \"$SOCAT_PID\" ]; then\n\
         kill $SOCAT_PID 2>/dev/null || true\n\
         for i in 1 2 3 4 5; do\n\
         kill -0 $SOCAT_PID 2>/dev/null || break\n\
         sleep 0.1\n\
         done\n\
         kill -9 $SOCAT_PID 2>/dev/null || true\n\
         fi\n\
         rm -f /tmp/socat-cid-80.pid /tmp/socat-cid-80.log\n\
         ip link delete \"{}\" 2>/dev/null || true\n",
        veth_name("cid")
    );
    assert_eq!(script, want);
}

#[test]
fn prestart_names_its_parts() {
    let script = prestart_hook_script("10.88.1.5", "cid");
    assert!(script.starts_with("\nSTATE=$(cat)\nCONTAINER_PID=$(echo \"$STATE\""));
    assert!(script.contains(&format!("HOST_VETH=\"{}\"\n", veth_name("cid"))));
    assert!(script.contains("BRIDGE=\"cni0\"\nGATEWAY=\"10.88.0.1\"\nCONTAINER_IP=\"10.88.1.5\"\n"));
    assert!(script.contains("print(d.get('pid',0))\")\n"));
    assert!(script.contains("|| \\\n  iptables -t nat -A POSTROUTING"));
    assert!(script.ends_with("-j MASQUERADE\n"));
}

#[test]
fn pid_and_log_files_are_per_port() {
    assert_eq!(socat_pid_file("a-1", 2), "/tmp/socat-a-1-2.pid");
    assert_eq!(socat_log_file("a-1", 2), "/tmp/socat-a-1-2.log");
    assert_ne!(socat_pid_file("a-1", 2), socat_pid_file("a", 12));
}

#[test]
fn port_failures_name_the_stage() {
    assert_eq!(
        pick_free_port_failed(PortStage::Bind, "none").message(),
        "resource exhausted: could not bind ephemeral host port: none"
    );
    assert_eq!(
        pick_free_port_failed(PortStage::LocalAddr, "none").message(),
        "resource exhausted: could not read ephemeral port local_addr: none"
    );
}
