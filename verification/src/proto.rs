//! The records exchanged between the host runtime and the guest agent.

use vstd::prelude::*;
use vstd::string::*;
use crate::types::{ContainerInfo, ContainerInfoView, status_from_name, status_from_name_spec};

verus! {

/// A request for a container's logs.
#[derive(Debug, Clone)]
pub struct LogsRequest {
    pub id: String,
    pub tail: u32,
    pub since: u64,
    pub timestamps: bool,
}

/// A request to run a command in a container.
#[derive(Debug, Clone)]
pub struct ExecRequest {
    pub id: String,
    pub command: Vec<String>,
    pub env: Vec<String>,
    pub working_dir: Option<String>,
}

/// Health check configuration.
#[derive(Debug, Clone, Default)]
pub struct HealthCheckProto {
    pub command: Vec<String>,
    pub interval_secs: u64,
    pub timeout_secs: u64,
    pub retries: u32,
    pub start_period_secs: u64,
}

/// Standard input and output of a container.
#[derive(Debug, Clone, Default)]
pub struct StdioConfigProto {
    pub tty: bool,
    pub open_stdin: bool,
    pub stdin_path: Option<String>,
    pub stdout_path: Option<String>,
    pub stderr_path: Option<String>,
}

/// A published port.
#[derive(Debug, Clone)]
pub struct PortMappingProto {
    pub host_port: u16,
    pub container_port: u16,
    pub protocol: String,
    pub host_ip: Option<String>,
}

/// An additional network interface.
#[derive(Debug, Clone)]
pub struct NetworkInterfaceProto {
    pub name: String,
    pub interface_type: String,
    pub config: std::collections::HashMap<String, String>,
}

/// Network configuration of a container.
#[derive(Debug, Clone, Default)]
pub struct NetworkConfigProto {
    pub mode: String,
    pub port_mappings: Vec<PortMappingProto>,
    pub interfaces: Vec<NetworkInterfaceProto>,
}

/// A volume mounted into a container.
#[derive(Debug, Clone)]
pub struct VolumeMountProto {
    pub source: String,
    pub destination: String,
    pub options: Vec<String>,
}

/// A container's logs.
#[derive(Debug, Clone, Default)]
pub struct LogsProto {
    pub id: String,
    pub stdout: String,
    pub stderr: String,
    pub timestamp: u64,
}

/// A container's health.
#[derive(Debug, Clone)]
pub struct HealthStatusProto {
    pub id: String,
    /// "none", "starting", "healthy" or "unhealthy".
    pub status: String,
    pub failing_streak: u32,
    pub last_output: String,
    pub last_check: u64,
}

/// The result of running a command in a container.
#[derive(Debug, Clone)]
pub struct ExecResultProto {
    pub exit_code: i32,
    pub stdout: String,
    pub stderr: String,
}

/// A container as the agent reports it.
#[derive(Debug, Clone)]
pub struct ContainerInfoProto {
    pub id: String,
    pub status: String,
    pub pid: Option<u32>,
}

/// The mathematical value of a [`ContainerInfoProto`].
pub struct ContainerInfoProtoView {
    pub id: Seq<char>,
    pub status: Seq<char>,
    pub pid: Option<u32>,
}

impl View for ContainerInfoProto {
    type V = ContainerInfoProtoView;

    open spec fn view(&self) -> ContainerInfoProtoView {
        ContainerInfoProtoView { id: self.id@, status: self.status@, pid: self.pid }
    }
}

/// The container information that an agent's report stands for.
pub open spec fn info_from_proto_spec(p: ContainerInfoProtoView) -> ContainerInfoView {
    ContainerInfoView { id: p.id, status: status_from_name_spec(p.status), pid: p.pid }
}

/// Reads an agent's report of a container: `Created` and `Running` stand for
/// themselves, any other status for `Stopped`.
pub fn info_from_proto(p: &ContainerInfoProto) -> (c: ContainerInfo)
    ensures
        c@ == info_from_proto_spec(p@),
{
    ContainerInfo { id: p.id.clone(), status: status_from_name(p.status.as_str()), pid: p.pid }
}

/// Reads an agent's list of containers.
pub fn infos_from_proto(list: &Vec<ContainerInfoProto>) -> (r: Vec<ContainerInfo>)
    ensures
        r@.len() == list@.len(),
        forall|i: int| 0 <= i < list@.len() ==> #[trigger] r@[i]@ == info_from_proto_spec(list@[i]@),
{
    let mut r: Vec<ContainerInfo> = Vec::new();
    let mut i: usize = 0;
    while i < list.len()
        invariant
            i <= list@.len(),
            r@.len() == i,
            forall|j: int| 0 <= j < i ==> #[trigger] r@[j]@ == info_from_proto_spec(list@[j]@),
        decreases list@.len() - i,
    {
        r.push(info_from_proto(&list[i]));
        i = i + 1;
    }
    r
}

/// A block I/O usage sample.
#[derive(Debug, Default, Clone, Copy)]
pub struct BlkioMetricsProto {
    pub read_bytes: u64,
    pub write_bytes: u64,
    pub read_ops: u64,
    pub write_ops: u64,
}

/// A network usage sample.
#[derive(Debug, Default, Clone, Copy)]
pub struct NetworkMetricsProto {
    pub rx_bytes: u64,
    pub tx_bytes: u64,
    pub rx_packets: u64,
    pub tx_packets: u64,
    pub rx_errors: u64,
    pub tx_errors: u64,
    pub rx_dropped: u64,
    pub tx_dropped: u64,
}

/// A process count sample.
#[derive(Debug, Default, Clone, Copy)]
pub struct PidsMetricsProto {
    pub current: u64,
    pub limit: u64,
}

} // verus!
