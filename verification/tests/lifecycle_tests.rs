use libcrun_shim::agent::{AgentCommand, AgentReply, AgentState, CreateCommand};
use libcrun_shim::macos::{
    created_outcome, lifecycle_outcome, list_outcome, vm_asset_candidates, AgentAnswer, Expected,
    VirtualMachine, VsockClient,
};
use libcrun_shim::proto::ContainerInfoProto;
use libcrun_shim::runtime::validate_config;
use libcrun_shim::types::{health_event_type, status_from_name, status_name};
use libcrun_shim::{
    ContainerConfig, ContainerEventType, ContainerRuntime, ContainerStatus, EventBroadcaster,
    RuntimeConfig, ShimError,
};

fn config(id: &str, command: &[&str], env: &[&str]) -> ContainerConfig {
    ContainerConfig {
        id: id.to_string(),
        rootfs: "/tmp/rootfs".to_string(),
        command: command.iter().map(|s| s.to_string()).collect(),
        env: env.iter().map(|s| s.to_string()).collect(),
        working_dir: "/".to_string(),
        ..Default::default()
    }
}

fn runtime_message(e: &ShimError) -> String {
    match e {
        ShimError::Runtime { message, context: None } => message.clone(),
        other => panic!("unexpected error {:?}", other),
    }
}

#[test]
fn test_create_and_list() {
    let mut runtime = ContainerRuntime::new_with_config(RuntimeConfig::default());
    let id = runtime.create(config("test-container", &["sh"], &["PATH=/usr/bin"]), true).unwrap();
    assert_eq!(id, "test-container");

    let containers = runtime.list();
    assert_eq!(containers.len(), 1);
    assert_eq!(containers[0].id, "test-container");
}

#[test]
fn lib_test_container_lifecycle() {
    let mut runtime = ContainerRuntime::new_with_config(RuntimeConfig::default());
    runtime.create(config("test", &["sleep", "10"], &[]), true).unwrap();
    runtime.start("test", 4242).unwrap();

    let containers = runtime.list();
    assert_eq!(containers.len(), 1);
    assert_eq!(containers[0].status, ContainerStatus::Running);
    assert_eq!(containers[0].pid, Some(4242));

    runtime.stop("test").unwrap();
    runtime.delete("test").unwrap();

    let containers = runtime.list();
    assert_eq!(containers.len(), 0);
}

#[test]
fn lifecycle_refusals() {
    let mut runtime = ContainerRuntime::new_with_config(RuntimeConfig::default());
    assert_eq!(
        runtime_message(&runtime.create(config("", &["sh"], &[]), true).unwrap_err()),
        "Container ID cannot be empty"
    );
    assert_eq!(runtime_message(&runtime.create(config("a", &[], &[]), true).unwrap_err()), "Command cannot be empty");
    assert_eq!(
        runtime_message(&runtime.create(config("a", &["sh"], &[]), false).unwrap_err()),
        "Rootfs path does not exist: /tmp/rootfs"
    );
    runtime.create(config("a", &["sh"], &[]), true).unwrap();
    assert_eq!(
        runtime_message(&runtime.create(config("a", &["sh"], &[]), true).unwrap_err()),
        "Container 'a' already exists"
    );
    assert_eq!(
        runtime_message(&runtime.stop("a").unwrap_err()),
        "Container 'a' is not running (status: Created)"
    );
    match runtime.start("missing", 1).unwrap_err() {
        ShimError::NotFound { resource, context: None } => assert_eq!(resource, "missing"),
        other => panic!("unexpected error {:?}", other),
    }
    runtime.start("a", 7).unwrap();
    assert_eq!(runtime_message(&runtime.start("a", 7).unwrap_err()), "Container 'a' is already running");
    assert_eq!(
        runtime_message(&runtime.delete("a").unwrap_err()),
        "Cannot delete running container 'a'. Stop it first."
    );
    runtime.stop("a").unwrap();
    assert_eq!(
        runtime_message(&runtime.start("a", 7).unwrap_err()),
        "Container 'a' is stopped and cannot be restarted (delete and recreate)"
    );
    assert_eq!(runtime.list()[0].pid, None);
}

#[test]
fn validation_order() {
    assert!(validate_config(&config("x", &["sh"], &[]), true).is_none());
    let e = validate_config(&config("", &[], &[]), false).unwrap();
    assert_eq!(runtime_message(&e), "Container ID cannot be empty");
}

#[test]
fn cleanup_and_shutdown() {
    let mut runtime = ContainerRuntime::new_with_config(RuntimeConfig::default());
    for id in ["a", "b", "c", "d"] {
        runtime.create(config(id, &["sh"], &[]), true).unwrap();
    }
    runtime.start("a", 1).unwrap();
    runtime.start("b", 2).unwrap();
    runtime.stop("b").unwrap();
    runtime.start("c", 3).unwrap();

    let orphaned: Vec<String> = runtime.list_orphaned().into_iter().map(|c| c.id).collect();
    assert_eq!(orphaned, vec!["b".to_string()]);
    assert_eq!(runtime.cleanup_stopped(), 1);
    let ids: Vec<String> = runtime.list().into_iter().map(|c| c.id).collect();
    assert_eq!(ids, vec!["a".to_string(), "c".to_string(), "d".to_string()]);

    runtime.shutdown();
    let statuses: Vec<ContainerStatus> = runtime.list().into_iter().map(|c| c.status).collect();
    assert_eq!(statuses, vec![ContainerStatus::Stopped, ContainerStatus::Stopped, ContainerStatus::Created]);
    assert_eq!(runtime.cleanup_stopped(), 2);
    let left = runtime.list();
    assert_eq!(left.len(), 1);
    assert_eq!(left[0].id, "d");
    assert_eq!(left[0].status, ContainerStatus::Created);
}

#[test]
fn force_delete_removes_running_container() {
    let mut runtime = ContainerRuntime::new_with_config(RuntimeConfig::default());
    runtime.create(config("a", &["sh"], &[]), true).unwrap();
    runtime.start("a", 1).unwrap();
    runtime.force_delete("a").unwrap();
    assert!(runtime.list().is_empty());
    assert!(runtime.force_delete("a").is_err());
}

fn create_cmd(id: &str) -> AgentCommand {
    AgentCommand::Create(CreateCommand {
        id: id.to_string(),
        rootfs: "/r".to_string(),
        command: vec!["sh".to_string()],
        env: vec![],
        working_dir: "/".to_string(),
    })
}

fn reply_error(r: AgentReply) -> String {
    match r {
        AgentReply::Error(e) => e,
        _ => panic!("expected an error reply"),
    }
}

#[test]
fn agent_requests() {
    let mut agent = AgentState::new();
    match agent.handle_request(create_cmd("c1"), 0) {
        AgentReply::Created(id) => assert_eq!(id, "c1"),
        _ => panic!("expected Created"),
    }
    assert_eq!(reply_error(agent.handle_request(create_cmd("c1"), 0)), "Container 'c1' already exists");
    assert_eq!(reply_error(agent.handle_request(create_cmd(""), 0)), "Container ID cannot be empty");
    assert!(matches!(agent.handle_request(AgentCommand::Start("c1".to_string()), 99), AgentReply::Started));
    assert_eq!(
        reply_error(agent.handle_request(AgentCommand::Start("c1".to_string()), 99)),
        "Container 'c1' is already running"
    );
    match agent.handle_request(AgentCommand::Metrics("c1".to_string()), 0) {
        AgentReply::CollectMetrics(id, pid) => {
            assert_eq!(id, "c1");
            assert_eq!(pid, Some(99));
        }
        _ => panic!("expected CollectMetrics"),
    }
    assert_eq!(
        reply_error(agent.handle_request(AgentCommand::Metrics("zz".to_string()), 0)),
        "Container not found: zz"
    );
    match agent.handle_request(AgentCommand::List, 0) {
        AgentReply::List(v) => {
            assert_eq!(v.len(), 1);
            assert_eq!(v[0].id, "c1");
            assert_eq!(v[0].status, "Running");
            assert_eq!(v[0].pid, Some(99));
        }
        _ => panic!("expected List"),
    }
    assert_eq!(
        reply_error(agent.handle_request(AgentCommand::Delete("c1".to_string()), 0)),
        "Cannot delete running container 'c1'. Stop it first."
    );
    assert!(matches!(agent.handle_request(AgentCommand::Stop("c1".to_string()), 0), AgentReply::Stopped));
    assert_eq!(
        reply_error(agent.handle_request(AgentCommand::Stop("c1".to_string()), 0)),
        "Container 'c1' is not running"
    );
    assert!(matches!(agent.handle_request(AgentCommand::Delete("c1".to_string()), 0), AgentReply::Deleted));
    assert_eq!(
        reply_error(agent.handle_request(AgentCommand::Delete("c1".to_string()), 0)),
        "Container 'c1' not found"
    );
    assert_eq!(
        reply_error(agent.handle_request(AgentCommand::Unsupported("Logs".to_string()), 0)),
        "Unsupported request: Logs"
    );
    match agent.handle_request(AgentCommand::AllMetrics, 0) {
        AgentReply::CollectAllMetrics(v) => assert!(v.is_empty()),
        _ => panic!("expected CollectAllMetrics"),
    }
}

#[test]
fn agent_report_reads_back() {
    let mut agent = AgentState::new();
    agent.handle_request(create_cmd("x"), 0);
    agent.handle_request(create_cmd("y"), 0);
    agent.handle_request(AgentCommand::Start("y".to_string()), 5);
    match list_outcome(AgentAnswer::List(agent.list())) {
        Ok(infos) => {
            assert_eq!(infos.len(), 2);
            assert_eq!((infos[0].id.as_str(), infos[0].status, infos[0].pid), ("x", ContainerStatus::Created, None));
            assert_eq!((infos[1].id.as_str(), infos[1].status, infos[1].pid), ("y", ContainerStatus::Running, Some(5)));
        }
        Err(e) => panic!("unexpected error {:?}", e),
    }
}

#[test]
fn host_reads_agent_answers() {
    assert_eq!(created_outcome(AgentAnswer::Created("c".to_string())).unwrap(), "c");
    assert_eq!(runtime_message(&created_outcome(AgentAnswer::Error("boom".to_string())).unwrap_err()), "boom");
    assert_eq!(runtime_message(&created_outcome(AgentAnswer::Started).unwrap_err()), "Unexpected response");
    assert!(lifecycle_outcome(AgentAnswer::Stopped, Expected::Stopped).is_ok());
    assert_eq!(
        runtime_message(&lifecycle_outcome(AgentAnswer::Deleted, Expected::Stopped).unwrap_err()),
        "Unexpected response"
    );
    let list = vec![ContainerInfoProto { id: "a".to_string(), status: "weird".to_string(), pid: None }];
    let infos = list_outcome(AgentAnswer::List(list)).unwrap();
    assert_eq!(infos[0].status, ContainerStatus::Stopped);
    assert_eq!(runtime_message(&list_outcome(AgentAnswer::Other).unwrap_err()), "Unexpected response");
}

#[test]
fn virtual_machine_and_vsock() {
    let vm = VirtualMachine::start_with_assets(None, Some("/x/initramfs".to_string()));
    assert!(vm.is_running());
    assert_eq!(vm.get_vsock_port(), 1234);
    let mut vm = vm;
    vm.stop();
    assert!(!vm.is_running());
    assert_eq!(
        vm_asset_candidates("kernel", "/src/crate"),
        vec!["vm-assets/kernel".to_string(), "../vm-assets/kernel".to_string(), "/src/crate/vm-assets/kernel".to_string()]
    );
    let c = VsockClient::new(1234);
    assert_eq!(c.port(), 1234);
    assert_eq!(c.connect_target().unwrap(), "/tmp/libcrun-shim.sock");
}

#[test]
fn test_event_broadcast() {
    let broadcaster = EventBroadcaster::new(16);
    let mut receiver = broadcaster.subscribe();

    broadcaster.emit_create("test-container", 1);
    broadcaster.emit_start("test-container", 2);
    broadcaster.emit_stop("test-container", 3);

    let event1 = receiver.try_recv().unwrap();
    assert_eq!(event1.event_type, ContainerEventType::Create);
    assert_eq!(event1.container_id, "test-container");

    let event2 = receiver.try_recv().unwrap();
    assert_eq!(event2.event_type, ContainerEventType::Start);

    let event3 = receiver.try_recv().unwrap();
    assert_eq!(event3.event_type, ContainerEventType::Stop);
    assert!(receiver.try_recv().is_none());
}

#[test]
fn test_event_with_exit_code() {
    let broadcaster = EventBroadcaster::new(16);
    let mut receiver = broadcaster.subscribe();

    broadcaster.emit_die("test-container", 137, 10);

    let event = receiver.try_recv().unwrap();
    assert_eq!(event.event_type, ContainerEventType::Die);
    assert_eq!(event.exit_code, Some(137));
    assert_eq!(event.timestamp, 10);
}

#[test]
fn events_reach_only_later_subscribers() {
    let broadcaster = EventBroadcaster::default();
    broadcaster.emit_oom("early", 1);
    let mut receiver = broadcaster.subscribe();
    broadcaster.emit_health("late", false, 2);
    broadcaster.emit_delete("late", 3);
    let e = receiver.try_recv().unwrap();
    assert_eq!(e.event_type, ContainerEventType::HealthFail);
    assert_eq!(e.container_id, "late");
    assert_eq!(receiver.try_recv().unwrap().event_type, ContainerEventType::Delete);
    assert_eq!(health_event_type(true), ContainerEventType::HealthOk);
}

#[test]
fn error_text() {
    assert_eq!(ShimError::runtime("boom").to_string(), "Runtime error: boom");
    assert_eq!(ShimError::runtime_with_context("boom", "ctx").to_string(), "Runtime error: boom (context: ctx)");
    assert_eq!(ShimError::not_found("c1").to_string(), "Resource not found: c1");
    assert_eq!(ShimError::validation("id", "empty").to_string(), "Validation error for field 'id': empty");
    assert_eq!(ShimError::json("bad").to_string(), "Serialization error: bad (context: JSON parsing error)");
    let io: ShimError = std::io::Error::new(std::io::ErrorKind::Other, "disk").into();
    assert_eq!(io.to_string(), "IO error: disk");
}

#[test]
fn status_names_read_back() {
    for s in [ContainerStatus::Created, ContainerStatus::Running, ContainerStatus::Stopped] {
        assert_eq!(status_from_name(status_name(s)), s);
    }
    assert_eq!(status_name(ContainerStatus::Running), "Running");
    assert_eq!(status_from_name("running"), ContainerStatus::Stopped);
}

#[test]
fn operations_leave_other_containers_alone() {
    let mut runtime = ContainerRuntime::new_with_config(RuntimeConfig::default());
    runtime.create(config("a", &["sh"], &[]), true).unwrap();
    runtime.create(config("b", &["sh"], &[]), true).unwrap();
    runtime.start("b", 9).unwrap();
    let list = runtime.list();
    assert_eq!((list[0].id.as_str(), list[0].status, list[0].pid), ("a", ContainerStatus::Created, None));
    runtime.start("a", 3).unwrap();
    runtime.stop("a").unwrap();
    runtime.delete("a").unwrap();
    let list = runtime.list();
    assert_eq!(list.len(), 1);
    assert_eq!((list[0].id.as_str(), list[0].status, list[0].pid), ("b", ContainerStatus::Running, Some(9)));
}

#[test]
fn json_errors() {
    let e = serde_json::from_str::<serde_json::Value>("{bad").unwrap_err();
    let text = e.to_string();
    match ShimError::from_json_error(&e) {
        ShimError::Serialization { message, context } => {
            assert_eq!(message, text);
            assert_eq!(context.as_deref(), Some("JSON parsing error"));
        }
        other => panic!("unexpected error {:?}", other),
    }
}

#[test]
fn removals_keep_other_configurations() {
    let mut rt = ContainerRuntime::new_with_config(RuntimeConfig::default());
    rt.create(config("a", &["sh"], &["A=1"]), true).unwrap();
    rt.create(config("b", &["sh"], &["B=2"]), true).unwrap();
    rt.create(config("c", &["sh"], &["C=3"]), true).unwrap();
    rt.start("a", 10).unwrap();
    rt.stop("a").unwrap();
    rt.start("b", 11).unwrap();
    assert_eq!(rt.cleanup_stopped(), 1);
    assert!(rt.get("a").is_none());
    assert_eq!(rt.get_config("b").unwrap().env, vec!["B=2".to_string()]);
    assert_eq!(rt.get_config("c").unwrap().env, vec!["C=3".to_string()]);
    rt.force_delete("b").unwrap();
    assert!(rt.get("b").is_none() && rt.get_config("b").is_none());
    assert_eq!(rt.get_config("c").unwrap().env, vec!["C=3".to_string()]);
    assert_eq!(rt.list().len(), 1);
}

#[test]
fn die_events_through_cloned_broadcaster() {
    let e = libcrun_shim::ContainerEvent::die("test-container", 137, 9);
    assert_eq!(e.event_type, ContainerEventType::Die);
    assert_eq!(e.exit_code, Some(137));
    assert_eq!(e.container_id, "test-container");
    let b = EventBroadcaster::new(16);
    let other = b.clone();
    let mut r = b.subscribe();
    other.emit_die("test-container", 137, 9);
    let got = r.try_recv().unwrap();
    assert_eq!(got.event_type, ContainerEventType::Die);
    assert_eq!(got.exit_code, Some(137));
}
