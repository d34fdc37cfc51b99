use libcrun_shim::cri::VersionResponse;
use libcrun_shim::image::{parse_rfc3339_timestamp, ImageReference};
use libcrun_shim::shim::{PidsResponse, ProcessInfo, StatsResponse, Status};
use libcrun_shim::ContainerStatus;

#[test]
fn test_version_response() {
    let version = VersionResponse {
        version: "0.1.0".to_string(),
        runtime_name: "libcrun-shim".to_string(),
        runtime_version: "0.1.0".to_string(),
        runtime_api_version: "v1".to_string(),
    };

    assert_eq!(version.runtime_name, "libcrun-shim");
}

#[test]
fn test_image_reference_parse() {
    let ref1 = ImageReference::parse("alpine").unwrap();
    assert_eq!(ref1.registry, "docker.io");
    assert_eq!(ref1.repository, "library/alpine");
    assert_eq!(ref1.reference, "latest");

    let ref2 = ImageReference::parse("alpine:3.18").unwrap();
    assert_eq!(ref2.registry, "docker.io");
    assert_eq!(ref2.repository, "library/alpine");
    assert_eq!(ref2.reference, "3.18");

    let ref3 = ImageReference::parse("ghcr.io/user/repo:v1.0").unwrap();
    assert_eq!(ref3.registry, "ghcr.io");
    assert_eq!(ref3.repository, "user/repo");
    assert_eq!(ref3.reference, "v1.0");

    let ref4 = ImageReference::parse("nginx").unwrap();
    assert_eq!(ref4.registry, "docker.io");
    assert_eq!(ref4.repository, "library/nginx");
    assert_eq!(ref4.reference, "latest");
}

#[test]
fn test_parse_timestamp() {
    let ts = parse_rfc3339_timestamp("2024-01-15T10:30:00Z");
    assert!(ts.is_some());
    assert!(ts.unwrap() > 0);
}

#[test]
fn test_status_conversion() {
    assert_eq!(Status::from(ContainerStatus::Running), Status::Running);
    assert_eq!(Status::from(ContainerStatus::Stopped), Status::Stopped);
}

#[test]
fn task_service_messages() {
    let pids = PidsResponse { processes: vec![ProcessInfo { pid: 7, info: None }] };
    assert_eq!(pids.processes[0].pid, 7);
    let stats = StatsResponse { stats: serde_json::Value::Null };
    assert!(stats.stats.is_null());
}
