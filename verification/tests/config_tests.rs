use libcrun_shim::oci::{
    build_agent_oci_config, build_mounts, build_namespaces, build_resources, build_rlimits,
    build_runtime_oci_config, ensure_path,
};
use libcrun_shim::proto::{NetworkConfigProto, StdioConfigProto, VolumeMountProto};
use libcrun_shim::shim::{bundle_config_from_text, bundle_fields_from_text, oci_to_container_config, CreateTaskRequest, OciBundleFields, ShimV2, Status};
use libcrun_shim::types::{
    default_connection_timeout, default_network_mode, default_socket_path, default_vm_cpus,
    default_vm_memory, default_vsock_port,
};
use libcrun_shim::{ContainerConfig, CriServer, NetworkConfig, ResourceLimits, RuntimeConfig, ShimError};

fn strings(v: &[&str]) -> Vec<String> {
    v.iter().map(|s| s.to_string()).collect()
}

#[test]
fn runtime_defaults() {
    let c = RuntimeConfig::default();
    assert_eq!(c.socket_path, "/tmp/libcrun-shim.sock");
    assert_eq!(c.vsock_port, 1234);
    assert!(c.vm_asset_paths.is_empty());
    assert_eq!(c.vm_memory, 2 * 1024 * 1024 * 1024);
    assert_eq!(c.vm_cpus, 4);
    assert_eq!(c.connection_timeout, 30);
    assert_eq!(default_socket_path(), "/tmp/libcrun-shim.sock");
    assert_eq!(default_vsock_port(), 1234);
    assert_eq!(default_vm_memory(), 2147483648);
    assert_eq!(default_vm_cpus(), 4);
    assert_eq!(default_connection_timeout(), 30);
    assert_eq!(default_network_mode(), "bridge");
    assert_eq!(NetworkConfig::default().mode, "bridge");
    let cc = ContainerConfig::default();
    assert_eq!(cc.working_dir, "/");
    assert!(cc.command.is_empty());
}

#[test]
fn builder_sets_and_defaults() {
    let c = RuntimeConfig::builder()
        .socket_path("/run/x.sock")
        .vsock_port(5000)
        .add_vm_asset_path("/a")
        .add_vm_asset_path("/b")
        .vm_cpus(2)
        .build();
    assert_eq!(c.socket_path, "/run/x.sock");
    assert_eq!(c.vsock_port, 5000);
    assert_eq!(c.vm_asset_paths, strings(&["/a", "/b"]));
    assert_eq!(c.vm_memory, 2147483648);
    assert_eq!(c.vm_cpus, 2);
    assert_eq!(c.connection_timeout, 30);
    let d = RuntimeConfig::builder().vm_memory(1).connection_timeout(9).build();
    assert_eq!((d.vm_memory, d.connection_timeout, d.vsock_port), (1, 9, 1234));
}

#[test]
fn configuration_from_environment_values() {
    let c = RuntimeConfig::from_env_values(
        Some("/run/agent.sock"),
        Some("4000"),
        Some("/opt/a::/opt/b:"),
        Some("1073741824"),
        Some("not-a-number"),
        Some("+15"),
    );
    assert_eq!(c.socket_path, "/run/agent.sock");
    assert_eq!(c.vsock_port, 4000);
    assert_eq!(c.vm_asset_paths, strings(&["/opt/a", "/opt/b"]));
    assert_eq!(c.vm_memory, 1073741824);
    assert_eq!(c.vm_cpus, 4);
    assert_eq!(c.connection_timeout, 15);

    let d = RuntimeConfig::from_env_values(None, Some("4294967296"), None, None, Some("8"), None);
    assert_eq!(d.socket_path, "/tmp/libcrun-shim.sock");
    assert_eq!(d.vsock_port, 1234);
    assert!(d.vm_asset_paths.is_empty());
    assert_eq!(d.vm_cpus, 8);
    assert_eq!(d.connection_timeout, 30);
}

#[test]
fn asset_search_paths() {
    let c = RuntimeConfig::builder().add_vm_asset_path("/custom").add_vm_asset_path("/opt/libcrun-shim/").build();
    let paths = c.get_vm_asset_search_paths(Some("/home/u/.local/share"), Some("/home/u"), Some("/work"));
    assert_eq!(
        paths,
        strings(&[
            "/custom",
            "/opt/libcrun-shim/",
            "/usr/share/libcrun-shim",
            "/usr/local/share/libcrun-shim",
            "/home/u/.local/share/libcrun-shim",
            "/home/u/.libcrun-shim",
            "/work",
        ])
    );
    let d = RuntimeConfig::default().get_vm_asset_search_paths(None, None, None);
    assert_eq!(
        d,
        strings(&[
            "/usr/share/libcrun-shim",
            "/usr/local/share/libcrun-shim",
            "/opt/libcrun-shim",
            "~/.local/share/libcrun-shim",
            "~/.libcrun-shim",
            ".",
        ])
    );
    let e = RuntimeConfig::default().get_vm_asset_search_paths(None, None, Some("/usr/share/libcrun-shim"));
    assert_eq!(e.len(), 5);
}

#[test]
fn environment_search_path() {
    let with = strings(&["A=1", "PATH=/bin"]);
    assert_eq!(ensure_path(&with), with);
    let without = strings(&["A=1"]);
    assert_eq!(
        ensure_path(&without),
        strings(&["A=1", "PATH=/usr/local/sbin:/usr/local/bin:/usr/sbin:/usr/bin:/sbin:/bin"])
    );
    assert_eq!(ensure_path(&ensure_path(&without)), ensure_path(&without));
}

#[test]
fn process_limits_and_resources() {
    let r = ResourceLimits { cpu_millis: Some(1500), memory: Some(1 << 30), memory_swap: Some(0), pids: Some(64), blkio_weight: None };
    let rl = build_rlimits(&r);
    let kinds: Vec<(String, u64, u64)> = rl.into_iter().map(|x| (x.kind, x.hard, x.soft)).collect();
    assert_eq!(
        kinds,
        vec![
            ("RLIMIT_NOFILE".to_string(), 1024, 1024),
            ("RLIMIT_AS".to_string(), 1 << 30, 1 << 30),
            ("RLIMIT_NPROC".to_string(), 64, 64),
        ]
    );
    let o = build_resources(&r);
    let cpu = o.cpu.unwrap();
    assert_eq!((cpu.shares, cpu.quota, cpu.period), (1536, 150000, 100000));
    let mem = o.memory.unwrap();
    assert_eq!((mem.limit, mem.swap), (Some(1 << 30), None));

    let none = build_resources(&ResourceLimits { pids: Some(5), ..Default::default() });
    assert!(none.cpu.is_none() && none.memory.is_none());
    let zero_cpu = build_resources(&ResourceLimits { cpu_millis: Some(0), ..Default::default() });
    assert!(zero_cpu.cpu.is_none() && zero_cpu.memory.is_none());

    assert_eq!(build_namespaces("host"), strings(&["pid", "ipc", "uts", "mount"]));
    assert_eq!(build_namespaces("bridge"), strings(&["pid", "ipc", "uts", "mount", "network"]));
}

#[test]
fn mounts() {
    let volumes = vec![
        VolumeMountProto { source: "/data".to_string(), destination: "/mnt".to_string(), options: strings(&["ro"]) },
        VolumeMountProto { source: "/x".to_string(), destination: "/y".to_string(), options: vec![] },
    ];
    let m = build_mounts(&volumes);
    assert_eq!(m.len(), 7);
    assert_eq!(m[0].destination, "/proc");
    assert!(m[0].options.is_none());
    assert_eq!(m[1].options.as_ref().unwrap(), &strings(&["nosuid", "strictatime", "mode=755", "size=65536k"]));
    assert_eq!(m[4].destination, "/sys");
    assert_eq!((m[5].source.as_str(), m[5].destination.as_str(), m[5].mount_type.as_str()), ("/data", "/mnt", "bind"));
    assert_eq!(m[5].options.as_ref().unwrap(), &strings(&["ro"]));
    assert!(m[6].options.is_none());
}

#[test]
fn agent_configuration() {
    let stdio = StdioConfigProto { tty: true, open_stdin: false, stdin_path: None, stdout_path: None, stderr_path: None };
    let network = NetworkConfigProto { mode: "host".to_string(), port_mappings: vec![], interfaces: vec![] };
    let c = build_agent_oci_config(
        "/rootfs",
        &strings(&["sh", "-c", "true"]),
        &strings(&["A=1"]),
        "/srv",
        "c1",
        &stdio,
        &network,
        &vec![],
        &ResourceLimits::default(),
    );
    assert!(c.process.terminal);
    assert_eq!(c.process.args, strings(&["sh", "-c", "true"]));
    assert_eq!(c.process.env.len(), 2);
    assert_eq!(c.process.cwd, "/srv");
    assert_eq!(c.process.no_new_privileges, Some(true));
    assert_eq!(c.root_path, "/rootfs");
    assert_eq!(c.hostname.as_deref(), Some("c1"));
    assert_eq!(c.mounts.as_ref().unwrap().len(), 5);
    let linux = c.linux.unwrap();
    assert_eq!(linux.namespaces.len(), 4);
    assert_eq!(linux.masked_paths[0], "/proc/kcore");
    assert_eq!(linux.readonly_paths[5], "/proc/sysrq-trigger");
    assert_eq!(linux.devices.len(), 1);
    assert!(!linux.devices[0].allow);
    assert_eq!(linux.devices[0].access, "rwm");
}

#[test]
fn runtime_configuration() {
    let cfg = ContainerConfig {
        id: "x".to_string(),
        rootfs: "/r".to_string(),
        command: strings(&["echo", "hi"]),
        env: strings(&["K=V"]),
        working_dir: "/w".to_string(),
        ..Default::default()
    };
    let c = build_runtime_oci_config(&cfg);
    assert!(!c.process.terminal);
    assert_eq!(c.process.args, strings(&["echo", "hi"]));
    assert_eq!(c.process.env, strings(&["K=V"]));
    assert_eq!(c.root_path, "/r");
    assert!(c.linux.is_none() && c.mounts.is_none() && c.hostname.is_none());
}

#[test]
fn bundles() {
    let fields = OciBundleFields {
        root_path: Some("rootfs".to_string()),
        args: Some(vec![Some("nginx".to_string()), None, Some("-g".to_string())]),
        env: None,
        cwd: None,
    };
    let c = oci_to_container_config("c9", "/bundles/c9", &fields);
    assert_eq!(c.id, "c9");
    assert_eq!(c.rootfs, "/bundles/c9/rootfs");
    assert_eq!(c.command, strings(&["nginx", "-g"]));
    assert!(c.env.is_empty());
    assert_eq!(c.working_dir, "/");
    let empty = OciBundleFields { root_path: Some("/abs/root".to_string()), args: None, env: None, cwd: Some("/app".to_string()) };
    let c = oci_to_container_config("c", "/b/", &empty);
    assert_eq!(c.rootfs, "/abs/root");
    assert_eq!(c.command, strings(&["/bin/sh"]));
    assert_eq!(c.working_dir, "/app");
}

#[test]
fn servers() {
    let mut s = CriServer::new("/run/cri.sock".to_string());
    assert_eq!(s.socket_path(), "/run/cri.sock");
    let v = s.version();
    assert_eq!(v.runtime_name, "libcrun-shim");
    assert_eq!(v.runtime_api_version, "v1");
    let cfg = ContainerConfig {
        id: "web".to_string(),
        rootfs: "/r".to_string(),
        command: strings(&["nginx"]),
        ..Default::default()
    };
    assert_eq!(s.create_container(cfg, true).unwrap(), "web");
    s.start_container("web", 42).unwrap();
    assert!(s.remove_container("web").is_err());
    s.stop_container("web").unwrap();
    s.remove_container("web").unwrap();
    assert!(s.list_containers().is_empty());
    let shim = ShimV2::new("/run/shim.sock".to_string(), "/b".to_string(), "default".to_string());
    assert_eq!(shim.socket_path(), "/run/shim.sock");
}

fn task_request(id: &str) -> CreateTaskRequest {
    CreateTaskRequest {
        id: id.to_string(),
        bundle: "/bundles/t1".to_string(),
        rootfs: Vec::new(),
        terminal: true,
        stdin: String::new(),
        stdout: "/logs/out".to_string(),
        stderr: "/logs/err".to_string(),
        checkpoint: None,
        parent_checkpoint: None,
        options: None,
    }
}

fn bundle(args: Option<Vec<Option<String>>>) -> OciBundleFields {
    OciBundleFields { root_path: None, args, env: None, cwd: None }
}

#[test]
fn shim_task_lifecycle() {
    let mut shim = ShimV2::new("/run/shim.sock".to_string(), "/bundles/t1".to_string(), "default".to_string());
    assert!(matches!(shim.state("t1"), Err(ShimError::NotFound { .. })));
    let created = shim.create(&task_request("t1"), &bundle(None), true).unwrap();
    assert_eq!(created.pid, 0);
    let st = shim.state("t1").unwrap();
    assert_eq!(st.status, Status::Created);
    assert_eq!(st.pid, 0);
    assert_eq!(st.bundle, "/bundles/t1");
    assert_eq!(st.stdin, "");
    assert_eq!(st.stdout, "/logs/out");
    assert!(st.terminal);
    assert_eq!(shim.start("t1", 77).unwrap().pid, 77);
    let st = shim.state("t1").unwrap();
    assert_eq!((st.status, st.pid), (Status::Running, 77));
    assert!(shim.delete("t1", 0, 5).is_err());
    let w = shim.wait("t1", 3, 99).unwrap();
    assert_eq!((w.exit_status, w.exited_at), (3, 99));
    assert_eq!(shim.state("t1").unwrap().status, Status::Stopped);
    assert!(shim.kill("t1").is_err());
    let d = shim.delete("t1", 3, 99).unwrap();
    assert_eq!((d.pid, d.exit_status, d.exited_at), (0, 3, 99));
    assert!(matches!(shim.state("t1"), Err(ShimError::NotFound { .. })));
}

#[test]
fn shim_create_errors() {
    let mut shim = ShimV2::new("/s".to_string(), "/b".to_string(), "default".to_string());
    let msg = |e: ShimError| match e {
        ShimError::Runtime { message, .. } => message,
        other => panic!("unexpected error {:?}", other),
    };
    assert_eq!(msg(shim.create(&task_request(""), &bundle(None), true).unwrap_err()), "Container ID cannot be empty");
    assert_eq!(
        msg(shim.create(&task_request("t"), &bundle(Some(vec![None])), true).unwrap_err()),
        "Command cannot be empty"
    );
    assert_eq!(
        msg(shim.create(&task_request("t"), &bundle(None), false).unwrap_err()),
        "Rootfs path does not exist: /bundles/t1/rootfs"
    );
    shim.create(&task_request("t"), &bundle(None), true).unwrap();
    assert_eq!(msg(shim.create(&task_request("t"), &bundle(None), true).unwrap_err()), "Container 't' already exists");
    shim.start("t", 5).unwrap();
    shim.kill("t").unwrap();
    assert_eq!(shim.state("t").unwrap().status, Status::Stopped);
}

#[test]
fn builder_last_set_wins() {
    let c = RuntimeConfig::builder()
        .vm_cpus(8)
        .socket_path("/first.sock")
        .add_vm_asset_path("/z")
        .vm_cpus(1)
        .socket_path("/second.sock")
        .add_vm_asset_path("/a")
        .build();
    assert_eq!(c.socket_path, "/second.sock");
    assert_eq!(c.vm_cpus, 1);
    assert_eq!(c.vm_asset_paths, strings(&["/z", "/a"]));
    assert_eq!((c.vsock_port, c.vm_memory, c.connection_timeout), (1234, 2147483648, 30));
}

#[test]
fn bundle_configuration_from_text() {
    let text = r#"{"root":{"path":"fs"},"process":{"args":["nginx","-g",3],"env":["A=1"],"cwd":"/srv"}}"#;
    let c = bundle_config_from_text("web", "/bundles/web", text).unwrap();
    assert_eq!(c.id, "web");
    assert_eq!(c.rootfs, "/bundles/web/fs");
    assert_eq!(c.command, strings(&["nginx", "-g"]));
    assert_eq!(c.env, strings(&["A=1"]));
    assert_eq!(c.working_dir, "/srv");
    let d = bundle_config_from_text("x", "/b", "{}").unwrap();
    assert_eq!((d.rootfs.as_str(), d.working_dir.as_str()), ("/b/rootfs", "/"));
    assert_eq!(d.command, strings(&["/bin/sh"]));
    match bundle_config_from_text("x", "/b", "not json") {
        Err(ShimError::Runtime { message, context }) => {
            assert!(message.starts_with("Failed to parse config.json: "));
            assert_eq!(context.as_deref(), Some("Invalid OCI bundle configuration"));
        }
        _ => panic!("expected a parse error"),
    }
    let f = bundle_fields_from_text(text).unwrap();
    assert_eq!(f.cwd.as_deref(), Some("/srv"));
    assert_eq!(f.args.unwrap().len(), 3);
}

#[test]
fn builder_default_and_clones() {
    let c = libcrun_shim::RuntimeConfigBuilder::default().vm_cpus(3).build();
    assert_eq!((c.vm_cpus, c.vsock_port), (3, 1234));
    let d = c.clone();
    assert_eq!(d.socket_path, c.socket_path);
    let cfg = ContainerConfig { id: "k".to_string(), ..Default::default() };
    assert_eq!(cfg.clone().id, "k");
}
