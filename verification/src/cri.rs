//! The Kubernetes Container Runtime Interface: its messages, the runtime and
//! image service interfaces, and the CRI server.

use vstd::prelude::*;
use vstd::string::*;
use crate::error::{Result, ShimError};
use crate::runtime::{ContainerRuntime, lifecycle_error_matches, validation_outcome};
use crate::table::{
    LifecycleError, after_create, after_delete, after_start, after_stop, delete_outcome, has_id, start_outcome,
    stop_outcome,
};
use crate::types::{ContainerInfo, ContainerInfoView};

verus! {

/// CRI Runtime Service interface
pub trait RuntimeService {
    /// Version returns the runtime name, runtime version, and runtime API version.
    fn version(&self, version: &str) -> Result<VersionResponse>;

    /// RunPodSandbox creates and starts a pod-level sandbox.
    fn run_pod_sandbox(&self, config: PodSandboxConfig) -> Result<String>;

    /// StopPodSandbox stops any running processes that are part of the sandbox.
    fn stop_pod_sandbox(&self, pod_sandbox_id: &str) -> Result<()>;

    /// RemovePodSandbox removes the sandbox.
    fn remove_pod_sandbox(&self, pod_sandbox_id: &str) -> Result<()>;

    /// PodSandboxStatus returns the status of the PodSandbox.
    fn pod_sandbox_status(&self, pod_sandbox_id: &str, verbose: bool) -> Result<PodSandboxStatus>;

    /// ListPodSandbox returns a list of PodSandboxes.
    fn list_pod_sandbox(&self, filter: Option<PodSandboxFilter>) -> Result<Vec<PodSandbox>>;

    /// CreateContainer creates a new container in the given PodSandbox.
    fn create_container(
        &self,
        pod_sandbox_id: &str,
        config: ContainerConfig,
        sandbox_config: PodSandboxConfig,
    ) -> Result<String>;

    /// StartContainer starts the container.
    fn start_container(&self, container_id: &str) -> Result<()>;

    /// StopContainer stops a running container.
    fn stop_container(&self, container_id: &str, timeout: i64) -> Result<()>;

    /// RemoveContainer removes the container.
    fn remove_container(&self, container_id: &str) -> Result<()>;

    /// ListContainers lists all containers.
    fn list_containers(&self, filter: Option<ContainerFilter>) -> Result<Vec<Container>>;

    /// ContainerStatus returns the status of the container.
    fn container_status(&self, container_id: &str, verbose: bool) -> Result<ContainerStatusResponse>;

    /// UpdateContainerResources updates the resource constraints of the container.
    fn update_container_resources(
        &self,
        container_id: &str,
        resources: LinuxContainerResources,
    ) -> Result<()>;

    /// ReopenContainerLog reopens the container log file.
    fn reopen_container_log(&self, container_id: &str) -> Result<()>;

    /// ExecSync runs a command in a container synchronously.
    fn exec_sync(&self, container_id: &str, cmd: Vec<String>, timeout: i64) -> Result<ExecSyncResponse>;

    /// Exec prepares a streaming endpoint to execute a command in the container.
    fn exec(&self, request: ExecRequest) -> Result<ExecResponse>;

    /// Attach prepares a streaming endpoint to attach to a running container.
    fn attach(&self, request: AttachRequest) -> Result<AttachResponse>;

    /// PortForward prepares a streaming endpoint to forward ports from a PodSandbox.
    fn port_forward(&self, request: PortForwardRequest) -> Result<PortForwardResponse>;

    /// ContainerStats returns stats of the container.
    fn container_stats(&self, container_id: &str) -> Result<ContainerStats>;

    /// ListContainerStats returns stats of all running containers.
    fn list_container_stats(&self, filter: Option<ContainerStatsFilter>) -> Result<Vec<ContainerStats>>;

    /// UpdateRuntimeConfig updates the runtime configuration.
    fn update_runtime_config(&self, runtime_config: RuntimeConfig) -> Result<()>;

    /// Status returns the status of the runtime.
    fn status(&self, verbose: bool) -> Result<RuntimeStatus>;
}

/// CRI Image Service interface
pub trait ImageService {
    /// ListImages lists existing images.
    fn list_images(&self, filter: Option<ImageFilter>) -> Result<Vec<Image>>;

    /// ImageStatus returns the status of the image.
    fn image_status(&self, image: ImageSpec, verbose: bool) -> Result<ImageStatusResponse>;

    /// PullImage pulls an image with authentication config.
    fn pull_image(
        &self,
        image: ImageSpec,
        auth: Option<AuthConfig>,
        sandbox_config: Option<PodSandboxConfig>,
    ) -> Result<String>;

    /// RemoveImage removes the image.
    fn remove_image(&self, image: ImageSpec) -> Result<()>;

    /// ImageFsInfo returns information of the filesystem that is used to store images.
    fn image_fs_info(&self) -> Result<Vec<FilesystemUsage>>;
}

/// Version response
#[derive(Debug, Clone)]
pub struct VersionResponse {
    pub version: String,
    pub runtime_name: String,
    pub runtime_version: String,
    pub runtime_api_version: String,
}

/// Pod sandbox config
#[derive(Debug, Clone)]
pub struct PodSandboxConfig {
    pub metadata: PodSandboxMetadata,
    pub hostname: String,
    pub log_directory: String,
    pub dns_config: Option<DNSConfig>,
    pub port_mappings: Vec<PortMapping>,
    pub labels: std::collections::HashMap<String, String>,
    pub annotations: std::collections::HashMap<String, String>,
    pub linux: Option<LinuxPodSandboxConfig>,
}

/// Pod sandbox metadata
#[derive(Debug, Clone)]
pub struct PodSandboxMetadata {
    pub name: String,
    pub uid: String,
    pub namespace: String,
    pub attempt: u32,
}

/// DNS config
#[derive(Debug, Clone, Default)]
pub struct DNSConfig {
    pub servers: Vec<String>,
    pub searches: Vec<String>,
    pub options: Vec<String>,
}

/// Port mapping
#[derive(Debug, Clone)]
pub struct PortMapping {
    pub protocol: Protocol,
    pub container_port: i32,
    pub host_port: i32,
    pub host_ip: String,
}

/// Protocol
#[derive(Debug, Clone, Copy)]
#[allow(non_camel_case_types)]
pub enum Protocol {
    TCP,
    UDP,
    SCTP,
}

/// Linux pod sandbox config
#[derive(Debug, Clone, Default)]
pub struct LinuxPodSandboxConfig {
    pub cgroup_parent: String,
    pub security_context: Option<LinuxSandboxSecurityContext>,
    pub sysctls: std::collections::HashMap<String, String>,
    pub overhead: Option<LinuxContainerResources>,
    pub resources: Option<LinuxContainerResources>,
}

/// Linux sandbox security context
#[derive(Debug, Clone, Default)]
pub struct LinuxSandboxSecurityContext {
    pub namespace_options: Option<NamespaceOption>,
    pub selinux_options: Option<SELinuxOption>,
    pub run_as_user: Option<Int64Value>,
    pub run_as_group: Option<Int64Value>,
    pub readonly_rootfs: bool,
    pub supplemental_groups: Vec<i64>,
    pub privileged: bool,
    pub seccomp: Option<SecurityProfile>,
    pub apparmor: Option<SecurityProfile>,
}

/// Namespace option
#[derive(Debug, Clone, Default)]
pub struct NamespaceOption {
    pub network: NamespaceMode,
    pub pid: NamespaceMode,
    pub ipc: NamespaceMode,
    pub target_id: String,
    pub user_namespaces: Option<UserNamespace>,
}

/// Namespace mode
#[derive(Debug, Clone, Copy, Default)]
#[allow(non_camel_case_types)]
pub enum NamespaceMode {
    #[default]
    POD,
    CONTAINER,
    NODE,
    TARGET,
}

/// User namespace
#[derive(Debug, Clone, Default)]
pub struct UserNamespace {
    pub mode: UserNamespaceMode,
    pub uids: Vec<IDMapping>,
    pub gids: Vec<IDMapping>,
}

/// User namespace mode
#[derive(Debug, Clone, Copy, Default)]
#[allow(non_camel_case_types)]
pub enum UserNamespaceMode {
    #[default]
    POD,
    NODE,
}

/// ID mapping
#[derive(Debug, Clone)]
pub struct IDMapping {
    pub host_id: u32,
    pub container_id: u32,
    pub length: u32,
}

/// SELinux option
#[derive(Debug, Clone, Default)]
pub struct SELinuxOption {
    pub user: String,
    pub role: String,
    /// The SELinux type.
    pub selinux_type: String,
    pub level: String,
}

/// Int64 value wrapper
#[derive(Debug, Clone)]
pub struct Int64Value {
    pub value: i64,
}

/// Security profile
#[derive(Debug, Clone)]
pub struct SecurityProfile {
    pub profile_type: ProfileType,
    pub localhost_ref: String,
}

/// Profile type
#[derive(Debug, Clone, Copy)]
#[allow(non_camel_case_types)]
pub enum ProfileType {
    RuntimeDefault,
    Unconfined,
    Localhost,
}

/// Linux container resources
#[derive(Debug, Clone, Default)]
pub struct LinuxContainerResources {
    pub cpu_period: i64,
    pub cpu_quota: i64,
    pub cpu_shares: i64,
    pub memory_limit_in_bytes: i64,
    pub oom_score_adj: i64,
    pub cpuset_cpus: String,
    pub cpuset_mems: String,
    pub hugepage_limits: Vec<HugepageLimit>,
    pub unified: std::collections::HashMap<String, String>,
    pub memory_swap_limit_in_bytes: i64,
}

/// Hugepage limit
#[derive(Debug, Clone)]
pub struct HugepageLimit {
    pub page_size: String,
    pub limit: u64,
}

/// Pod sandbox status
#[derive(Debug, Clone)]
pub struct PodSandboxStatus {
    pub id: String,
    pub metadata: PodSandboxMetadata,
    pub state: PodSandboxState,
    pub created_at: i64,
    pub network: Option<PodSandboxNetworkStatus>,
    pub linux: Option<LinuxPodSandboxStatus>,
    pub labels: std::collections::HashMap<String, String>,
    pub annotations: std::collections::HashMap<String, String>,
    pub runtime_handler: String,
}

/// Pod sandbox state
#[derive(Debug, Clone, Copy)]
#[allow(non_camel_case_types)]
pub enum PodSandboxState {
    SANDBOX_READY,
    SANDBOX_NOTREADY,
}

/// Pod sandbox network status
#[derive(Debug, Clone)]
pub struct PodSandboxNetworkStatus {
    pub ip: String,
    pub additional_ips: Vec<PodIP>,
}

/// Pod IP
#[derive(Debug, Clone)]
pub struct PodIP {
    pub ip: String,
}

/// Linux pod sandbox status
#[derive(Debug, Clone)]
pub struct LinuxPodSandboxStatus {
    pub namespaces: Namespace,
}

/// Namespace
#[derive(Debug, Clone, Default)]
pub struct Namespace {
    pub network: String,
    pub options: Option<NamespaceOption>,
}

/// Pod sandbox filter
#[derive(Debug, Clone, Default)]
pub struct PodSandboxFilter {
    pub id: Option<String>,
    pub state: Option<PodSandboxStateValue>,
    pub label_selector: std::collections::HashMap<String, String>,
}

/// Pod sandbox state value
#[derive(Debug, Clone)]
pub struct PodSandboxStateValue {
    pub state: PodSandboxState,
}

/// Pod sandbox
#[derive(Debug, Clone)]
pub struct PodSandbox {
    pub id: String,
    pub metadata: PodSandboxMetadata,
    pub state: PodSandboxState,
    pub created_at: i64,
    pub labels: std::collections::HashMap<String, String>,
    pub annotations: std::collections::HashMap<String, String>,
    pub runtime_handler: String,
}

/// Container config (CRI)
#[derive(Debug, Clone)]
pub struct ContainerConfig {
    pub metadata: ContainerMetadata,
    pub image: ImageSpec,
    pub command: Vec<String>,
    pub args: Vec<String>,
    pub working_dir: String,
    pub envs: Vec<KeyValue>,
    pub mounts: Vec<Mount>,
    pub devices: Vec<Device>,
    pub labels: std::collections::HashMap<String, String>,
    pub annotations: std::collections::HashMap<String, String>,
    pub log_path: String,
    pub stdin: bool,
    pub stdin_once: bool,
    pub tty: bool,
    pub linux: Option<LinuxContainerConfig>,
}

/// Container metadata
#[derive(Debug, Clone)]
pub struct ContainerMetadata {
    pub name: String,
    pub attempt: u32,
}

/// Image spec
#[derive(Debug, Clone)]
pub struct ImageSpec {
    pub image: String,
    pub annotations: std::collections::HashMap<String, String>,
}

/// Key value pair
#[derive(Debug, Clone)]
pub struct KeyValue {
    pub key: String,
    pub value: String,
}

/// Mount
#[derive(Debug, Clone)]
pub struct Mount {
    pub container_path: String,
    pub host_path: String,
    pub readonly: bool,
    pub selinux_relabel: bool,
    pub propagation: MountPropagation,
}

/// Mount propagation
#[derive(Debug, Clone, Copy)]
#[allow(non_camel_case_types)]
pub enum MountPropagation {
    PROPAGATION_PRIVATE,
    PROPAGATION_HOST_TO_CONTAINER,
    PROPAGATION_BIDIRECTIONAL,
}

/// Device
#[derive(Debug, Clone)]
pub struct Device {
    pub container_path: String,
    pub host_path: String,
    pub permissions: String,
}

/// Linux container config
#[derive(Debug, Clone, Default)]
pub struct LinuxContainerConfig {
    pub resources: LinuxContainerResources,
    pub security_context: Option<LinuxContainerSecurityContext>,
}

/// Linux container security context
#[derive(Debug, Clone, Default)]
pub struct LinuxContainerSecurityContext {
    pub capabilities: Option<Capability>,
    pub privileged: bool,
    pub namespace_options: Option<NamespaceOption>,
    pub selinux_options: Option<SELinuxOption>,
    pub run_as_user: Option<Int64Value>,
    pub run_as_group: Option<Int64Value>,
    pub run_as_username: String,
    pub readonly_rootfs: bool,
    pub supplemental_groups: Vec<i64>,
    pub no_new_privs: bool,
    pub masked_paths: Vec<String>,
    pub readonly_paths: Vec<String>,
    pub seccomp: Option<SecurityProfile>,
    pub apparmor: Option<SecurityProfile>,
}

/// Capability
#[derive(Debug, Clone, Default)]
pub struct Capability {
    pub add_capabilities: Vec<String>,
    pub drop_capabilities: Vec<String>,
}

/// Container filter
#[derive(Debug, Clone, Default)]
pub struct ContainerFilter {
    pub id: Option<String>,
    pub state: Option<ContainerStateValue>,
    pub pod_sandbox_id: Option<String>,
    pub label_selector: std::collections::HashMap<String, String>,
}

/// Container state value
#[derive(Debug, Clone)]
pub struct ContainerStateValue {
    pub state: ContainerState,
}

/// Container state
#[derive(Debug, Clone, Copy)]
#[allow(non_camel_case_types)]
pub enum ContainerState {
    CONTAINER_CREATED,
    CONTAINER_RUNNING,
    CONTAINER_EXITED,
    CONTAINER_UNKNOWN,
}

/// Container
#[derive(Debug, Clone)]
pub struct Container {
    pub id: String,
    pub pod_sandbox_id: String,
    pub metadata: ContainerMetadata,
    pub image: ImageSpec,
    pub image_ref: String,
    pub state: ContainerState,
    pub created_at: i64,
    pub labels: std::collections::HashMap<String, String>,
    pub annotations: std::collections::HashMap<String, String>,
}

/// Container status response
#[derive(Debug, Clone)]
pub struct ContainerStatusResponse {
    pub status: ContainerStatusInfo,
    pub info: std::collections::HashMap<String, String>,
}

/// Container status info
#[derive(Debug, Clone)]
pub struct ContainerStatusInfo {
    pub id: String,
    pub metadata: ContainerMetadata,
    pub state: ContainerState,
    pub created_at: i64,
    pub started_at: i64,
    pub finished_at: i64,
    pub exit_code: i32,
    pub image: ImageSpec,
    pub image_ref: String,
    pub reason: String,
    pub message: String,
    pub labels: std::collections::HashMap<String, String>,
    pub annotations: std::collections::HashMap<String, String>,
    pub mounts: Vec<Mount>,
    pub log_path: String,
}

/// Exec sync response
#[derive(Debug, Clone)]
pub struct ExecSyncResponse {
    pub stdout: Vec<u8>,
    pub stderr: Vec<u8>,
    pub exit_code: i32,
}

/// Exec request
#[derive(Debug, Clone)]
pub struct ExecRequest {
    pub container_id: String,
    pub cmd: Vec<String>,
    pub tty: bool,
    pub stdin: bool,
    pub stdout: bool,
    pub stderr: bool,
}

/// Exec response
#[derive(Debug, Clone)]
pub struct ExecResponse {
    pub url: String,
}

/// Attach request
#[derive(Debug, Clone)]
pub struct AttachRequest {
    pub container_id: String,
    pub stdin: bool,
    pub tty: bool,
    pub stdout: bool,
    pub stderr: bool,
}

/// Attach response
#[derive(Debug, Clone)]
pub struct AttachResponse {
    pub url: String,
}

/// Port forward request
#[derive(Debug, Clone)]
pub struct PortForwardRequest {
    pub pod_sandbox_id: String,
    pub port: Vec<i32>,
}

/// Port forward response
#[derive(Debug, Clone)]
pub struct PortForwardResponse {
    pub url: String,
}

/// Container stats
#[derive(Debug, Clone)]
pub struct ContainerStats {
    pub attributes: ContainerAttributes,
    pub cpu: Option<CpuUsage>,
    pub memory: Option<MemoryUsage>,
    pub writable_layer: Option<FilesystemUsage>,
}

/// Container attributes
#[derive(Debug, Clone)]
pub struct ContainerAttributes {
    pub id: String,
    pub metadata: ContainerMetadata,
    pub labels: std::collections::HashMap<String, String>,
    pub annotations: std::collections::HashMap<String, String>,
}

/// CPU usage
#[derive(Debug, Clone)]
pub struct CpuUsage {
    pub timestamp: i64,
    pub usage_core_nano_seconds: Option<UInt64Value>,
    pub usage_nano_cores: Option<UInt64Value>,
}

/// UInt64 value
#[derive(Debug, Clone)]
pub struct UInt64Value {
    pub value: u64,
}

/// Memory usage
#[derive(Debug, Clone)]
pub struct MemoryUsage {
    pub timestamp: i64,
    pub working_set_bytes: Option<UInt64Value>,
    pub available_bytes: Option<UInt64Value>,
    pub usage_bytes: Option<UInt64Value>,
    pub rss_bytes: Option<UInt64Value>,
    pub page_faults: Option<UInt64Value>,
    pub major_page_faults: Option<UInt64Value>,
}

/// Container stats filter
#[derive(Debug, Clone, Default)]
pub struct ContainerStatsFilter {
    pub id: Option<String>,
    pub pod_sandbox_id: Option<String>,
    pub label_selector: std::collections::HashMap<String, String>,
}

/// Runtime config
#[derive(Debug, Clone, Default)]
pub struct RuntimeConfig {
    pub network_config: Option<NetworkConfig>,
}

/// Network config
#[derive(Debug, Clone)]
pub struct NetworkConfig {
    pub pod_cidr: String,
}

/// Runtime status
#[derive(Debug, Clone)]
pub struct RuntimeStatus {
    pub conditions: Vec<RuntimeCondition>,
}

/// Runtime condition
#[derive(Debug, Clone)]
pub struct RuntimeCondition {
    /// The condition's type.
    pub condition_type: String,
    pub status: bool,
    pub reason: String,
    pub message: String,
}

/// Image filter
#[derive(Debug, Clone, Default)]
pub struct ImageFilter {
    pub image: Option<ImageSpec>,
}

/// Image
#[derive(Debug, Clone)]
pub struct Image {
    pub id: String,
    pub repo_tags: Vec<String>,
    pub repo_digests: Vec<String>,
    pub size: u64,
    pub uid: Option<Int64Value>,
    pub username: String,
    pub spec: Option<ImageSpec>,
}

/// Image status response
#[derive(Debug, Clone)]
pub struct ImageStatusResponse {
    pub image: Option<Image>,
    pub info: std::collections::HashMap<String, String>,
}

/// Auth config
#[derive(Debug, Clone)]
pub struct AuthConfig {
    pub username: String,
    pub password: String,
    pub auth: String,
    pub server_address: String,
    pub identity_token: String,
    pub registry_token: String,
}

/// Filesystem usage
#[derive(Debug, Clone)]
pub struct FilesystemUsage {
    pub timestamp: i64,
    pub fs_id: FilesystemIdentifier,
    pub used_bytes: Option<UInt64Value>,
    pub inodes_used: Option<UInt64Value>,
}

/// Filesystem identifier
#[derive(Debug, Clone)]
pub struct FilesystemIdentifier {
    pub mountpoint: String,
}

/// The version a CRI server reports.
pub open spec fn version_matches(v: VersionResponse) -> bool {
    &&& v.version@ == "0.1.0"@
    &&& v.runtime_name@ == "libcrun-shim"@
    &&& v.runtime_version@ == "0.1.0"@
    &&& v.runtime_api_version@ == "v1"@
}

/// The CRI server: the containers it runs, kept in a container runtime.
pub struct CriServer {
    socket_path: String,
    runtime: ContainerRuntime,
}

impl CriServer {
    /// The socket the server listens on.
    pub closed spec fn spec_socket_path(&self) -> Seq<char> {
        self.socket_path@
    }

    /// The server's containers, in creation order.
    pub closed spec fn containers(&self) -> Seq<ContainerInfoView> {
        self.runtime@
    }

    /// The configurations of the server's containers.
    pub closed spec fn container_configs(&self) -> Seq<crate::types::ContainerConfig> {
        self.runtime.configs()
    }

    /// The server is well formed: container ids are unique.
    pub closed spec fn wf(&self) -> bool {
        self.runtime.wf()
    }

    /// A CRI server on the given socket, with no containers.
    pub fn new(socket_path: String) -> (s: Self)
        ensures
            s.wf(),
            s.spec_socket_path() == socket_path@,
            s.containers() == Seq::<ContainerInfoView>::empty(),
    {
        CriServer { socket_path, runtime: ContainerRuntime::new_with_config(crate::types::RuntimeConfig::default()) }
    }

    /// The socket the server listens on.
    pub fn socket_path(&self) -> (p: &String)
        ensures
            p@ == self.spec_socket_path(),
    {
        &self.socket_path
    }

    /// The runtime's name and versions.
    pub fn version(&self) -> (v: VersionResponse)
        ensures
            version_matches(v),
    {
        VersionResponse {
            version: String::from_str("0.1.0"),
            runtime_name: String::from_str("libcrun-shim"),
            runtime_version: String::from_str("0.1.0"),
            runtime_api_version: String::from_str("v1"),
        }
    }

    /// Creates a container, as [`ContainerRuntime::create`] does.
    pub fn create_container(&mut self, config: crate::types::ContainerConfig, rootfs_exists: bool) -> (r: Result<String>)
        requires
            old(self).wf(),
        ensures
            final(self).wf(),
            ({
                let v = if r is Err { Some(r->Err_0) } else { None };
                let ok_config = config.id@.len() > 0 && config.command@.len() > 0 && rootfs_exists;
                &&& !ok_config ==> validation_outcome(config, rootfs_exists, v)
                &&& ok_config && has_id(old(self).containers(), config.id@) ==> (r matches Err(e)
                    && lifecycle_error_matches(e, LifecycleError::AlreadyExists, config.id@))
                &&& ok_config && !has_id(old(self).containers(), config.id@) ==> (r matches Ok(id) && id@ == config.id@)
            }),
            r is Ok ==> final(self).containers() == after_create(old(self).containers(), config.id@)
                && final(self).container_configs() == old(self).container_configs().push(config),
            r is Err ==> final(self).containers() == old(self).containers()
                && final(self).container_configs() == old(self).container_configs(),
    {
        self.runtime.create(config, rootfs_exists)
    }

    /// Starts the container `id`, which then runs as process `pid`.
    pub fn start_container(&mut self, id: &str, pid: u32) -> (r: Result<()>)
        requires
            old(self).wf(),
        ensures
            final(self).wf(),
            match start_outcome(old(self).containers(), id@) {
                Ok(()) => r is Ok && final(self).containers() == after_start(old(self).containers(), id@, pid),
                Err(e) => r matches Err(err) && lifecycle_error_matches(err, e, id@)
                    && final(self).containers() == old(self).containers(),
            },
    {
        self.runtime.start(id, pid)
    }

    /// Stops the running container `id`.
    pub fn stop_container(&mut self, id: &str) -> (r: Result<()>)
        requires
            old(self).wf(),
        ensures
            final(self).wf(),
            match stop_outcome(old(self).containers(), id@) {
                Ok(()) => r is Ok && final(self).containers() == after_stop(old(self).containers(), id@),
                Err(e) => r matches Err(err) && lifecycle_error_matches(err, e, id@)
                    && final(self).containers() == old(self).containers(),
            },
    {
        self.runtime.stop(id)
    }

    /// Removes the container `id`, which must not be running.
    pub fn remove_container(&mut self, id: &str) -> (r: Result<()>)
        requires
            old(self).wf(),
        ensures
            final(self).wf(),
            match delete_outcome(old(self).containers(), id@) {
                Ok(()) => r is Ok && final(self).containers() == after_delete(old(self).containers(), id@),
                Err(e) => r matches Err(err) && lifecycle_error_matches(err, e, id@)
                    && final(self).containers() == old(self).containers(),
            },
    {
        self.runtime.delete(id)
    }

    /// Every container, in creation order.
    pub fn list_containers(&self) -> (r: Vec<ContainerInfo>)
        ensures
            r@.map_values(|c: ContainerInfo| c@) == self.containers(),
    {
        self.runtime.list()
    }
}

} // verus!
