use sha2::Digest;
use containerd_manager::container::{
    build_args, build_bridge_hooks, build_cwd, build_labels, build_merged_env, build_mounts,
    build_namespaces, build_oci_spec, compute_chain_id, default_exec_capabilities, follow_manifest,
    metadata_of, read_image_config, read_manifest, read_sub_manifest, sh_hook, snapshot_key_for,
    spec_to_any, CreateContainerOpts, ManifestStep, Mount, NetworkMode, NetworkOpts,
};
use containerd_manager::json::Json;
use containerd_manager::oci::{CapabilityKind, ImageConfig, NamespaceKind, RunConfig};
use containerd_manager::Error;

fn test_image_config() -> ImageConfig {
    ImageConfig { config: None, diff_ids: vec!["sha256:abc123".to_string()] }
}

fn test_image_config_with_entrypoint() -> ImageConfig {
    ImageConfig {
        config: Some(RunConfig {
            labels: None,
            entrypoint: Some(vec!["/entrypoint.sh".to_string()]),
            cmd: Some(vec!["--flag".to_string()]),
            env: Some(vec!["PATH=/usr/bin".to_string(), "HOME=/root".to_string()]),
            working_dir: Some("/app".to_string()),
        }),
        diff_ids: vec!["sha256:abc123".to_string()],
    }
}

#[test]
fn build_labels_creates_hashmap() {
    let config = test_image_config();
    let opts = CreateContainerOpts::builder()
        .label("app", "test")
        .label("version", "1.0")
        .build();

    let labels = build_labels(&config, &opts);
    assert_eq!(labels.get("app"), Some(&"test".to_string()));
    assert_eq!(labels.get("version"), Some(&"1.0".to_string()));
}

#[test]
fn user_labels_override_image_labels() {
    let mut config = test_image_config_with_entrypoint();
    config.config.as_mut().unwrap().labels = Some(vec![
        ("app".to_string(), "image".to_string()),
        ("vendor".to_string(), "acme".to_string()),
    ]);
    let opts = CreateContainerOpts::builder().label("app", "user").build();
    let labels = build_labels(&config, &opts);
    assert_eq!(labels.len(), 2);
    assert_eq!(labels.get("app"), Some(&"user".to_string()));
    assert_eq!(labels.get("vendor"), Some(&"acme".to_string()));
}

#[test]
fn build_mounts_creates_oci_mounts() {
    let opts = CreateContainerOpts::builder()
        .mount("/host/data", "/container/data")
        .mount_ro("/host/config", "/container/config")
        .build();

    let mounts = build_mounts(&opts);
    assert_eq!(mounts.len(), 2);
    assert_eq!(mounts[0].source, "/host/data");
    assert_eq!(mounts[0].destination, "/container/data");
    assert_eq!(mounts[0].typ, "bind");
    assert_eq!(mounts[0].options, vec!["rbind", "rw"]);
    assert_eq!(mounts[1].source, "/host/config");
    assert_eq!(mounts[1].destination, "/container/config");
    assert!(mounts[1].options.contains(&"ro".to_string()));
}

#[test]
fn build_args_uses_entrypoint_and_cmd() {
    let config = test_image_config_with_entrypoint();
    let args = build_args(&config, &CreateContainerOpts::default());
    assert_eq!(args, vec!["/entrypoint.sh", "--flag"]);
}

#[test]
fn build_args_falls_back_to_shell() {
    let config = test_image_config();
    let args = build_args(&config, &CreateContainerOpts::default());
    assert_eq!(args, vec!["/bin/sh"]);
}

#[test]
fn build_args_cmd_override_replaces_image_args() {
    let config = test_image_config_with_entrypoint();
    let opts = CreateContainerOpts::builder()
        .cmd(["sleep", "infinity"])
        .build();
    let args = build_args(&config, &opts);
    assert_eq!(args, vec!["sleep", "infinity"]);
}

#[test]
fn build_args_cmd_override_on_empty_image() {
    let config = test_image_config();
    let opts = CreateContainerOpts::builder()
        .cmd(["/bin/my-app", "--verbose"])
        .build();
    let args = build_args(&config, &opts);
    assert_eq!(args, vec!["/bin/my-app", "--verbose"]);
}

#[test]
fn build_args_opts_without_cmd_uses_image() {
    let config = test_image_config_with_entrypoint();
    let opts = CreateContainerOpts::builder().label("app", "test").build();
    let args = build_args(&config, &opts);
    assert_eq!(args, vec!["/entrypoint.sh", "--flag"]);
}

#[test]
fn create_container_opts_cmd_builder() {
    let opts = CreateContainerOpts::builder().cmd(["sleep", "300"]).build();
    assert_eq!(opts.cmd, Some(vec!["sleep".to_string(), "300".to_string()]));
}

#[test]
fn build_cwd_uses_image_working_dir() {
    let config = test_image_config_with_entrypoint();
    let cwd = build_cwd(&config);
    assert_eq!(cwd, "/app");
}

#[test]
fn build_cwd_defaults_to_root() {
    let config = test_image_config();
    let cwd = build_cwd(&config);
    assert_eq!(cwd, "/");
    let mut empty = test_image_config_with_entrypoint();
    empty.config.as_mut().unwrap().working_dir = Some(String::new());
    assert_eq!(build_cwd(&empty), "/");
}

#[test]
fn build_merged_env_combines_image_and_opts() {
    let config = test_image_config_with_entrypoint();
    let opts = CreateContainerOpts::builder()
        .env("MY_VAR", "my_value")
        .env("PATH", "/custom")
        .build();
    let env = build_merged_env(&config, &opts);

    assert!(env.contains(&"MY_VAR=my_value".to_string()));
    assert!(env.contains(&"HOME=/root".to_string())); // From image
    // PATH is overridden: exactly one PATH= entry, value from opts.
    let path_entries: Vec<&String> = env.iter().filter(|e| e.starts_with("PATH=")).collect();
    assert_eq!(
        path_entries.len(),
        1,
        "expected exactly one PATH= entry, got {:?}",
        path_entries
    );
    assert_eq!(path_entries[0], "PATH=/custom");
}

#[test]
fn build_oci_spec_succeeds() {
    let config = test_image_config();
    let opts = CreateContainerOpts::builder().env("TEST", "value").build();

    let spec = build_oci_spec(&config, &opts, None);
    assert_eq!(spec.version, "1.0.2");
    assert!(spec.process.env.contains(&"TEST=value".to_string()));
    assert_eq!(spec.root_path, "rootfs");
    assert!(!spec.root_readonly);
    assert!(spec.mounts.is_none());
    assert!(spec.hooks.is_none());
}

#[test]
fn build_oci_spec_uses_image_entrypoint() {
    let config = test_image_config_with_entrypoint();
    let spec = build_oci_spec(&config, &CreateContainerOpts::default(), None);
    assert_eq!(
        spec.process.args,
        vec!["/entrypoint.sh".to_string(), "--flag".to_string()]
    );
    assert_eq!(spec.process.cwd, "/app");
    assert!(!spec.process.terminal);
}

#[test]
fn spec_to_any_serializes_correctly() {
    let config = test_image_config();
    let spec = build_oci_spec(&config, &CreateContainerOpts::default(), None);
    let any = spec_to_any(&spec).expect("should serialize");

    assert_eq!(
        any.type_url,
        "types.containerd.io/opencontainers/runtime-spec/1/Spec"
    );
    assert!(!any.value.is_empty());
}

#[test]
fn a_written_spec_is_read_back() {
    let config = test_image_config_with_entrypoint();
    let opts = CreateContainerOpts::builder()
        .env("A", "b")
        .mount("/src", "/dst")
        .network(NetworkOpts { mode: NetworkMode::Host })
        .build();
    let hooks = build_bridge_hooks("cid", "10.88.1.5", &vec![(80, 8080)]);
    let prestart = hooks.prestart.args[2].clone();
    let spec = build_oci_spec(&config, &opts, Some(hooks));
    let any = spec_to_any(&spec).unwrap();
    let read: oci_spec::runtime::Spec = serde_json::from_slice(&any.value).unwrap();
    assert_eq!(read.version(), "1.0.2");
    let process = read.process().as_ref().unwrap();
    assert_eq!(process.terminal(), Some(false));
    assert_eq!(
        process.args().as_ref().unwrap(),
        &vec!["/entrypoint.sh".to_string(), "--flag".to_string()]
    );
    assert_eq!(
        process.env().as_ref().unwrap(),
        &vec!["PATH=/usr/bin".to_string(), "HOME=/root".to_string(), "A=b".to_string()]
    );
    assert_eq!(process.cwd().to_str(), Some("/app"));
    let caps = process.capabilities().as_ref().unwrap();
    for set in [
        caps.bounding(),
        caps.effective(),
        caps.inheritable(),
        caps.permitted(),
        caps.ambient(),
    ] {
        let set = set.as_ref().unwrap();
        assert_eq!(set.len(), 14);
        assert!(set.contains(&oci_spec::runtime::Capability::NetBindService));
    }
    let root = read.root().as_ref().unwrap();
    assert_eq!(root.path().to_str(), Some("rootfs"));
    assert_eq!(root.readonly(), Some(false));
    let namespaces = read.linux().as_ref().unwrap().namespaces().as_ref().unwrap();
    assert_eq!(namespaces.len(), 5);
    assert!(!namespaces
        .iter()
        .any(|ns| ns.typ() == oci_spec::runtime::LinuxNamespaceType::Network));
    let mounts = read.mounts().as_ref().unwrap();
    assert_eq!(mounts.len(), 1);
    assert_eq!(mounts[0].destination().to_str(), Some("/dst"));
    assert_eq!(mounts[0].source().as_ref().unwrap().to_str(), Some("/src"));
    assert_eq!(mounts[0].typ().as_ref().unwrap(), "bind");
    assert_eq!(
        mounts[0].options().as_ref().unwrap(),
        &vec!["rbind".to_string(), "rw".to_string()]
    );
    let hooks = read.hooks().as_ref().unwrap();
    let poststop = &hooks.poststop().as_ref().unwrap()[0];
    assert_eq!(poststop.path().to_str(), Some("/bin/sh"));
    assert_eq!(hooks.poststart().as_ref().unwrap().len(), 1);
    let json: serde_json::Value = serde_json::from_slice(&any.value).unwrap();
    assert_eq!(json["hooks"]["prestart"][0]["args"][2], prestart);
}

#[test]
fn a_spec_without_mounts_gets_the_defaults_of_the_format() {
    let spec = build_oci_spec(&test_image_config(), &CreateContainerOpts::default(), None);
    let any = spec_to_any(&spec).unwrap();
    let read: oci_spec::runtime::Spec = serde_json::from_slice(&any.value).unwrap();
    assert!(read
        .mounts()
        .as_ref()
        .unwrap()
        .iter()
        .any(|m| m.destination().to_str() == Some("/proc")));
    assert!(read.hooks().is_none());
}

#[test]
fn create_container_opts_builder_works() {
    let opts = CreateContainerOpts::builder()
        .env("KEY", "value")
        .label("name", "test")
        .mount("/src", "/dst")
        .build();

    assert_eq!(opts.env.len(), 1);
    assert_eq!(opts.labels.len(), 1);
    assert_eq!(opts.mounts.len(), 1);
}

#[test]
fn builder_sets_every_field() {
    let opts = CreateContainerOpts::builder()
        .port_binding(8080, 80)
        .port_binding(8443, 443)
        .from_existing_snapshot("key")
        .build();
    assert_eq!(opts.port_bindings, vec![(8080, 80), (8443, 443)]);
    assert_eq!(opts.from_existing_snapshot, Some("key".to_string()));
    let mount = Mount::default();
    assert!(mount.source.is_empty() && mount.options.is_empty());
    let copy = Mount {
        source: "/a".to_string(),
        destination: "/b".to_string(),
        options: vec!["ro".to_string()],
    }
    .clone();
    assert_eq!(copy.options, vec!["ro"]);
}

#[test]
fn compute_chain_id_single_layer() {
    let diff_ids = vec![
        "sha256:45f3ea5848e8a25ca27718b640a21ffd8c8745d342a24e1d4ddfc8c449b0a724".to_string(),
    ];
    let chain_id = compute_chain_id(&diff_ids);
    assert_eq!(chain_id, diff_ids[0]);
}

#[test]
fn compute_chain_id_multiple_layers() {
    let diff_ids = vec!["sha256:aaaa".to_string(), "sha256:bbbb".to_string()];
    let chain_id = compute_chain_id(&diff_ids);
    // The chain ID should be sha256 of "sha256:aaaa sha256:bbbb"
    assert!(chain_id.starts_with("sha256:"));
    assert_ne!(chain_id, diff_ids[0]);
    assert_ne!(chain_id, diff_ids[1]);
}

#[test]
fn chain_ids_build_on_each_other() {
    let ids: Vec<String> = ["sha256:aaaa", "sha256:bbbb", "sha256:cccc"]
        .iter()
        .map(|s| s.to_string())
        .collect();
    let two = format!(
        "sha256:{}",
        hex::encode(sha2::Sha256::digest(b"sha256:aaaa sha256:bbbb"))
    );
    assert_eq!(compute_chain_id(&ids[..2].to_vec()), two);
    let three = format!(
        "sha256:{}",
        hex::encode(sha2::Sha256::digest(format!("{two} sha256:cccc").as_bytes()))
    );
    assert_eq!(compute_chain_id(&ids), three);
}

#[test]
fn chain_id_of_known_digest() {
    // SHA-256 of "a b".
    let ids = vec!["a".to_string(), "b".to_string()];
    assert_eq!(
        compute_chain_id(&ids),
        "sha256:c8687a08aa5d6ed2044328fa6a697ab8e96dc34291e8c2034ae8c38e6fcc6d65"
    );
}

#[test]
fn compute_chain_id_empty() {
    let diff_ids: Vec<String> = vec![];
    let chain_id = compute_chain_id(&diff_ids);
    assert!(chain_id.is_empty());
}

#[test]
fn network_opts_default_is_bridge() {
    let opts = NetworkOpts::default();
    assert!(matches!(opts.mode, NetworkMode::Bridge));
    assert_eq!(NetworkMode::default(), NetworkMode::Bridge);
}

#[test]
fn network_modes_have_labels() {
    assert_eq!(NetworkMode::Bridge.label_value(), "bridge");
    assert_eq!(NetworkMode::Host.label_value(), "host");
    assert_eq!(NetworkMode::Isolated.label_value(), "isolated");
}

#[test]
fn network_mode_host_removes_network_namespace() {
    let namespaces = build_namespaces(&NetworkMode::Host);
    // Host mode should NOT have a network namespace
    assert!(!namespaces.contains(&NamespaceKind::Network));
    assert_eq!(
        namespaces,
        vec![
            NamespaceKind::Pid,
            NamespaceKind::Ipc,
            NamespaceKind::Uts,
            NamespaceKind::Mount,
            NamespaceKind::Cgroup
        ]
    );
}

#[test]
fn network_mode_bridge_has_network_namespace() {
    let namespaces = build_namespaces(&NetworkMode::Bridge);
    // Bridge mode should have a network namespace
    assert!(namespaces.contains(&NamespaceKind::Network));
}

#[test]
fn network_mode_isolated_has_network_namespace() {
    let namespaces = build_namespaces(&NetworkMode::Isolated);
    // Isolated mode keeps its own network namespace (no external connectivity)
    assert!(namespaces.contains(&NamespaceKind::Network));
}

#[test]
fn create_container_opts_host_network_builder() {
    let opts = CreateContainerOpts::builder()
        .network(NetworkOpts {
            mode: NetworkMode::Host,
        })
        .build();
    assert!(matches!(opts.network.mode, NetworkMode::Host));
}

#[test]
fn create_container_opts_network_mode_builder() {
    let opts = CreateContainerOpts::builder()
        .network(NetworkOpts {
            mode: NetworkMode::Isolated,
        })
        .build();
    assert!(matches!(opts.network.mode, NetworkMode::Isolated));
}

#[test]
fn build_oci_spec_host_network_omits_netns() {
    let config = test_image_config();
    let opts = CreateContainerOpts::builder()
        .network(NetworkOpts {
            mode: NetworkMode::Host,
        })
        .build();

    let spec = build_oci_spec(&config, &opts, None);
    // Verify network namespace is NOT present
    assert!(!spec.namespaces.contains(&NamespaceKind::Network));
}

#[test]
fn hooks_run_a_shell() {
    let hook = sh_hook("echo hi");
    assert_eq!(hook.path, "/bin/sh");
    assert_eq!(hook.args, vec!["/bin/sh", "-c", "echo hi"]);
    assert_eq!(
        hook.env,
        vec!["PATH=/usr/local/sbin:/usr/local/bin:/usr/sbin:/usr/bin:/sbin:/bin"]
    );
}

#[test]
fn capabilities_are_dockers_defaults() {
    let caps = default_exec_capabilities();
    assert_eq!(caps.len(), 14);
    assert!(caps.contains(&CapabilityKind::SysChroot));
    assert_eq!(caps[0], CapabilityKind::Chown);
}

#[test]
fn snapshot_key_has_a_suffix() {
    assert_eq!(snapshot_key_for("c1"), "c1-snapshot");
}

#[test]
fn a_manifest_points_to_its_config() {
    let raw = br#"{"config": {"digest": "sha256:cfg"}, "layers": []}"#;
    assert!(matches!(
        read_manifest(raw, "amd64").unwrap(),
        ManifestStep::Config(d) if d == "sha256:cfg"
    ));
    assert_eq!(read_sub_manifest(raw).unwrap(), "sha256:cfg");
}

#[test]
fn an_index_points_to_the_manifest_for_the_architecture() {
    let raw = br#"{"manifests": [
        {"digest": "sha256:x"},
        {"digest": "sha256:arm", "platform": {"architecture": "arm64", "os": "linux"}},
        {"digest": "sha256:amd", "platform": {"architecture": "amd64", "os": "linux"}},
        {"digest": "sha256:amd2", "platform": {"architecture": "amd64", "os": "linux"}}
    ]}"#;
    assert!(matches!(
        read_manifest(raw, "amd64").unwrap(),
        ManifestStep::SubManifest(d) if d == "sha256:amd"
    ));
    assert!(matches!(
        read_manifest(raw, "arm64").unwrap(),
        ManifestStep::SubManifest(d) if d == "sha256:arm"
    ));
    assert_eq!(
        read_manifest(raw, "riscv64").unwrap_err().message(),
        "invalid argument: no manifest found for architecture riscv64"
    );
}

fn complaint(raw: &[u8]) -> String {
    read_manifest(raw, "amd64").unwrap_err().message()
}

#[test]
fn broken_manifests_are_rejected() {
    assert!(complaint(b"not json").starts_with("invalid argument: parse manifest: "));
    assert_eq!(
        complaint(br#"{"config": {}}"#),
        "invalid argument: manifest missing config digest"
    );
    assert_eq!(
        complaint(br#"{"manifests": 3}"#),
        "invalid argument: invalid manifests array"
    );
    assert_eq!(
        complaint(b"{}"),
        "invalid argument: manifest has neither config nor manifests"
    );
    assert_eq!(
        complaint(br#"{"manifests": [{"platform": {"architecture": "amd64"}}]}"#),
        "invalid argument: no manifest found for architecture amd64"
    );
    assert_eq!(
        read_sub_manifest(b"{}").unwrap_err().message(),
        "invalid argument: sub-manifest missing config digest"
    );
    assert!(read_sub_manifest(b"[")
        .unwrap_err()
        .message()
        .starts_with("invalid argument: parse sub-manifest: "));
}

#[test]
fn a_parsed_manifest_can_be_followed() {
    let digest = Json::Object(vec![("digest".to_string(), Json::Str("sha256:d".to_string()))]);
    let manifest = Json::Object(vec![("config".to_string(), digest)]);
    assert!(matches!(
        follow_manifest(&manifest, "amd64"),
        Ok(ManifestStep::Config(d)) if d == "sha256:d"
    ));
    assert!(matches!(follow_manifest(&Json::Null, "amd64"), Err(Error::InvalidArgument(_))));
}

#[test]
fn an_image_config_is_read() {
    let raw = br#"{
        "architecture": "amd64", "os": "linux",
        "config": {"Env": ["A=b"], "Entrypoint": ["/e"], "Cmd": ["c"], "WorkingDir": "/w",
                   "Labels": {"k": "v"}},
        "rootfs": {"type": "layers", "diff_ids": ["sha256:one"]}
    }"#;
    let metadata = read_image_config(raw.to_vec()).unwrap();
    assert_eq!(metadata.chain_id, "sha256:one");
    assert_eq!(metadata.raw_config, raw.to_vec());
    let config = metadata.config.config.unwrap();
    assert_eq!(config.env, Some(vec!["A=b".to_string()]));
    assert_eq!(config.entrypoint, Some(vec!["/e".to_string()]));
    assert_eq!(config.cmd, Some(vec!["c".to_string()]));
    assert_eq!(config.working_dir, Some("/w".to_string()));
    assert_eq!(config.labels, Some(vec![("k".to_string(), "v".to_string())]));
}

#[test]
fn an_image_without_layers_is_rejected() {
    let raw = br#"{"architecture": "amd64", "os": "linux",
                   "rootfs": {"type": "layers", "diff_ids": []}}"#;
    assert_eq!(
        read_image_config(raw.to_vec()).unwrap_err().message(),
        "invalid argument: image config has no diff_ids"
    );
    assert!(read_image_config(b"{".to_vec())
        .unwrap_err()
        .message()
        .starts_with("invalid argument: parse image config: "));
    let empty = ImageConfig { config: None, diff_ids: vec![] };
    assert!(metadata_of(empty, vec![]).is_err());
}
