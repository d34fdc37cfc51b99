//! The containerd shim v2 interface: its messages, the task service
//! interface, the status mapping, the shim service, and reading an OCI
//! bundle into a container configuration.

use vstd::prelude::*;
use vstd::string::*;
use crate::error::{Result, ShimError, json_error_text};
use crate::text::{strs, starts_with_spec};
use crate::path::{join_path, join_path_spec};
use crate::runtime::{ContainerRuntime, is_not_found_error, is_runtime_error, lifecycle_error_matches};
use crate::table::{
    LifecycleError, after_create, after_delete, after_start, after_stop, delete_outcome, has_id, index_of,
    start_outcome, stop_outcome,
};
use crate::types::{ContainerConfig, ContainerInfoView, ContainerStatus, RuntimeConfig};

verus! {

#[verifier::external_type_specification]
#[verifier::external_body]
pub struct ExJsonValue(serde_json::Value);

/// `Clone` for `serde_json::Value` (derived there): a copy of the document.
/// Nothing is claimed of the copy; the library only carries such values.
pub assume_specification [<serde_json::Value as std::clone::Clone>::clone] (v: &serde_json::Value) -> serde_json::Value;

/// The shim v2 task service interface, for a service to implement.
pub trait TaskService {
    /// Get the state of a container
    fn state(&self, container_id: &str, exec_id: Option<&str>) -> Result<StateResponse>;

    /// Create a new container
    fn create(&self, request: CreateTaskRequest) -> Result<CreateTaskResponse>;

    /// Start a container or exec
    fn start(&self, container_id: &str, exec_id: Option<&str>) -> Result<StartResponse>;

    /// Delete a container or exec
    fn delete(&self, container_id: &str, exec_id: Option<&str>) -> Result<DeleteResponse>;

    /// Pids returns all pids inside a container
    fn pids(&self, container_id: &str) -> Result<PidsResponse>;

    /// Pause a container
    fn pause(&self, container_id: &str) -> Result<()>;

    /// Resume a paused container
    fn resume(&self, container_id: &str) -> Result<()>;

    /// Checkpoint a container
    fn checkpoint(&self, container_id: &str, options: CheckpointOptions) -> Result<()>;

    /// Kill a container or exec with signal
    fn kill(&self, container_id: &str, exec_id: Option<&str>, signal: u32, all: bool) -> Result<()>;

    /// Exec an additional process inside the container
    fn exec(&self, request: ExecProcessRequest) -> Result<()>;

    /// ResizePty resizes the pty of a container or exec
    fn resize_pty(&self, container_id: &str, exec_id: Option<&str>, width: u32, height: u32) -> Result<()>;

    /// CloseIO closes the io pipe for a container or exec
    fn close_io(&self, container_id: &str, exec_id: Option<&str>, stdin: bool) -> Result<()>;

    /// Update container resource limits
    fn update(&self, container_id: &str, resources: Resources) -> Result<()>;

    /// Wait for a container or exec to exit
    fn wait(&self, container_id: &str, exec_id: Option<&str>) -> Result<WaitResponse>;

    /// Stats returns metrics/stats for a container
    fn stats(&self, container_id: &str) -> Result<StatsResponse>;

    /// Connect connects to the running task
    fn connect(&self, container_id: &str) -> Result<ConnectResponse>;

    /// Shutdown shuts down the shim
    fn shutdown(&self) -> Result<()>;
}

/// Pids response
#[derive(Debug, Clone)]
pub struct PidsResponse {
    pub processes: Vec<ProcessInfo>,
}

/// Process info
#[derive(Debug, Clone)]
pub struct ProcessInfo {
    pub pid: u32,
    pub info: Option<serde_json::Value>,
}

/// Exec process request
#[derive(Debug, Clone)]
pub struct ExecProcessRequest {
    pub container_id: String,
    pub exec_id: String,
    pub terminal: bool,
    pub stdin: String,
    pub stdout: String,
    pub stderr: String,
    pub spec: serde_json::Value,
}

/// Stats response
#[derive(Debug, Clone)]
pub struct StatsResponse {
    pub stats: serde_json::Value,
}

/// State of a container or exec
#[derive(Debug, Clone)]
pub struct StateResponse {
    pub id: String,
    pub bundle: String,
    pub pid: u32,
    pub status: Status,
    pub stdin: String,
    pub stdout: String,
    pub stderr: String,
    pub terminal: bool,
    pub exit_status: u32,
    pub exited_at: u64,
}

/// Container status
#[derive(Debug, Clone, Copy, PartialEq, Eq, Structural)]
pub enum Status {
    Unknown,
    Created,
    Running,
    Stopped,
    Paused,
    Pausing,
}

/// Create task request
#[derive(Debug, Clone)]
pub struct CreateTaskRequest {
    pub id: String,
    pub bundle: String,
    pub rootfs: Vec<Mount>,
    pub terminal: bool,
    pub stdin: String,
    pub stdout: String,
    pub stderr: String,
    pub checkpoint: Option<String>,
    pub parent_checkpoint: Option<String>,
    pub options: Option<CreateOptions>,
}

/// Mount definition
#[derive(Debug, Clone)]
pub struct Mount {
    pub mount_type: String,
    pub source: String,
    pub target: String,
    pub options: Vec<String>,
}

/// Create options
#[derive(Debug, Clone, Default)]
pub struct CreateOptions {
    pub no_pivot_root: bool,
    pub open_tcp: bool,
    pub external_unix_sockets: bool,
    pub terminal: bool,
    pub file_locks: bool,
    pub empty_namespaces: Vec<String>,
    pub cgroups_mode: String,
    pub no_new_keyring: bool,
    pub shim_cgroup: String,
    pub io_uid: u32,
    pub io_gid: u32,
    pub criu_work_path: String,
    pub criu_image_path: String,
}

/// Create task response
#[derive(Debug, Clone)]
pub struct CreateTaskResponse {
    pub pid: u32,
}

/// Start response
#[derive(Debug, Clone)]
pub struct StartResponse {
    pub pid: u32,
}

/// Delete response
#[derive(Debug, Clone)]
pub struct DeleteResponse {
    pub pid: u32,
    pub exit_status: u32,
    pub exited_at: u64,
}

/// Checkpoint options
#[derive(Debug, Clone, Default)]
pub struct CheckpointOptions {
    pub exit: bool,
    pub open_tcp: bool,
    pub external_unix_sockets: bool,
    pub terminal: bool,
    pub file_locks: bool,
    pub empty_namespaces: Vec<String>,
    pub cgroups_mode: String,
    pub work_path: String,
    pub image_path: String,
}

/// Resource constraints
#[derive(Debug, Clone, Default)]
pub struct Resources {
    pub memory: Option<MemoryResources>,
    pub cpu: Option<CpuResources>,
    pub pids: Option<PidsResources>,
    pub io: Option<IoResources>,
}

/// Memory resources
#[derive(Debug, Clone, Default)]
pub struct MemoryResources {
    pub limit: i64,
    pub swap: i64,
    pub kernel: i64,
    pub kernel_tcp: i64,
    pub reservation: i64,
    pub disable_oom_killer: bool,
}

/// CPU resources
#[derive(Debug, Clone, Default)]
pub struct CpuResources {
    pub shares: u64,
    pub quota: i64,
    pub period: u64,
    pub realtime_runtime: i64,
    pub realtime_period: u64,
    pub cpus: String,
    pub mems: String,
}

/// PIDs resources
#[derive(Debug, Clone, Default)]
pub struct PidsResources {
    pub limit: i64,
}

/// IO resources
#[derive(Debug, Clone, Default)]
pub struct IoResources {
    pub weight: u64,
}

/// Wait response
#[derive(Debug, Clone)]
pub struct WaitResponse {
    pub exit_status: u32,
    pub exited_at: u64,
}

/// Connect response
#[derive(Debug, Clone)]
pub struct ConnectResponse {
    pub shim_pid: u32,
    pub task_pid: u32,
    pub version: String,
}


/// The shim status of a container status.
pub open spec fn status_of_container(s: ContainerStatus) -> Status {
    match s {
        ContainerStatus::Created => Status::Created,
        ContainerStatus::Running => Status::Running,
        ContainerStatus::Stopped => Status::Stopped,
    }
}

impl From<ContainerStatus> for Status {
    fn from(s: ContainerStatus) -> (r: Status) {
        match s {
            ContainerStatus::Created => Status::Created,
            ContainerStatus::Running => Status::Running,
            ContainerStatus::Stopped => Status::Stopped,
        }
    }
}

impl vstd::std_specs::convert::FromSpecImpl<ContainerStatus> for Status {
    open spec fn obeys_from_spec() -> bool {
        true
    }

    open spec fn from_spec(v: ContainerStatus) -> Status {
        status_of_container(v)
    }
}

/// The text of an optional path: the path, or nothing.
pub open spec fn path_text(p: Option<String>) -> Seq<char> {
    match p {
        Some(s) => s@,
        None => Seq::empty(),
    }
}

/// A stdio path of a task request: none when the request leaves it empty.
pub open spec fn request_path(p: Seq<char>) -> Option<Seq<char>> {
    if p.len() == 0 { None } else { Some(p) }
}

/// The view of an optional path.
pub open spec fn opt_view(p: Option<String>) -> Option<Seq<char>> {
    match p {
        Some(s) => Some(s@),
        None => None,
    }
}

/// The process id of a container record, 0 when it has none.
pub open spec fn pid_or_zero(pid: Option<u32>) -> u32 {
    match pid {
        Some(p) => p,
        None => 0,
    }
}

/// The command a bundle's configuration gives: the string items of
/// `process.args`, or `/bin/sh` when there is no such array.
pub open spec fn bundle_command(fields: OciBundleFields) -> Seq<Seq<char>> {
    match fields.args {
        Some(a) => string_items(a@),
        None => seq!["/bin/sh"@],
    }
}

/// The root filesystem a bundle's configuration gives: its `root.path`
/// (default `rootfs`) joined to the bundle path.
pub open spec fn bundle_rootfs(bundle: Seq<char>, fields: OciBundleFields) -> Seq<char> {
    join_path_spec(bundle, match fields.root_path { Some(p) => p@, None => "rootfs"@ })
}

/// Whether `c` is the configuration of a task created by `request` from a
/// bundle configuration with the given fields: the bundle's container
/// configuration, with the request's terminal and stdio paths.
pub open spec fn task_config_matches(c: ContainerConfig, request: CreateTaskRequest, fields: OciBundleFields) -> bool {
    &&& c.id@ == request.id@
    &&& c.rootfs@ == bundle_rootfs(request.bundle@, fields)
    &&& strs(c.command@) == bundle_command(fields)
    &&& strs(c.env@) == (match fields.env { Some(e) => string_items(e@), None => Seq::empty() })
    &&& c.working_dir@ == (match fields.cwd { Some(w) => w@, None => "/"@ })
    &&& c.stdio.tty == request.terminal
    &&& !c.stdio.open_stdin
    &&& opt_view(c.stdio.stdin_path) == request_path(request.stdin@)
    &&& opt_view(c.stdio.stdout_path) == request_path(request.stdout@)
    &&& opt_view(c.stdio.stderr_path) == request_path(request.stderr@)
}

/// Whether `s` reports the state of the container with record `info` and
/// configuration `config`, served from `bundle`: its id, process id (0 before
/// it runs), status, stdio paths and terminal; no exit yet.
pub open spec fn state_matches(s: StateResponse, bundle: Seq<char>, info: ContainerInfoView, config: ContainerConfig) -> bool {
    &&& s.id@ == info.id
    &&& s.bundle@ == bundle
    &&& s.pid == pid_or_zero(info.pid)
    &&& s.status == status_of_container(info.status)
    &&& s.stdin@ == path_text(config.stdio.stdin_path)
    &&& s.stdout@ == path_text(config.stdio.stdout_path)
    &&& s.stderr@ == path_text(config.stdio.stderr_path)
    &&& s.terminal == config.stdio.tty
    &&& s.exit_status == 0
    &&& s.exited_at == 0
}

fn request_path_value(p: &String) -> (r: Option<String>)
    ensures
        opt_view(r) == request_path(p@),
{
    if p.as_str().unicode_len() == 0 { None } else { Some(p.clone()) }
}

fn path_value(p: &Option<String>) -> (r: String)
    ensures
        r@ == path_text(*p),
{
    match p {
        Some(s) => s.clone(),
        None => String::new(),
    }
}

/// The shim v2 service: the tasks of a bundle, kept in a container runtime.
pub struct ShimV2 {
    socket_path: String,
    bundle_path: String,
    namespace: String,
    runtime: ContainerRuntime,
}

impl ShimV2 {
    /// The socket the shim listens on.
    pub closed spec fn spec_socket_path(&self) -> Seq<char> {
        self.socket_path@
    }

    /// The bundle the shim serves.
    pub closed spec fn spec_bundle_path(&self) -> Seq<char> {
        self.bundle_path@
    }

    /// The containerd namespace of the shim.
    pub closed spec fn spec_namespace(&self) -> Seq<char> {
        self.namespace@
    }

    /// The shim's tasks, in creation order.
    pub closed spec fn tasks(&self) -> Seq<ContainerInfoView> {
        self.runtime@
    }

    /// The configurations of the shim's tasks, in the order of `tasks`.
    pub closed spec fn task_configs(&self) -> Seq<ContainerConfig> {
        self.runtime.configs()
    }

    /// The shim is well formed: task ids are unique.
    pub closed spec fn wf(&self) -> bool {
        self.runtime.wf()
    }

    /// A shim for the given socket, bundle and namespace, with no tasks.
    pub fn new(socket_path: String, bundle_path: String, namespace: String) -> (s: Self)
        ensures
            s.wf(),
            s.spec_socket_path() == socket_path@,
            s.spec_bundle_path() == bundle_path@,
            s.spec_namespace() == namespace@,
            s.tasks() == Seq::<ContainerInfoView>::empty(),
    {
        ShimV2 {
            socket_path,
            bundle_path,
            namespace,
            runtime: ContainerRuntime::new_with_config(RuntimeConfig::default()),
        }
    }

    /// The socket the shim listens on.
    pub fn socket_path(&self) -> (p: &String)
        ensures
            p@ == self.spec_socket_path(),
    {
        &self.socket_path
    }

    /// The state of the task `id`, or a not-found error.
    pub fn state(&self, id: &str) -> (r: Result<StateResponse>)
        requires
            self.wf(),
        ensures
            !has_id(self.tasks(), id@) ==> (r matches Err(e) && is_not_found_error(e, id@)),
            has_id(self.tasks(), id@) ==> (r matches Ok(s) && state_matches(
                s,
                self.spec_bundle_path(),
                self.tasks()[index_of(self.tasks(), id@)],
                self.task_configs()[index_of(self.tasks(), id@)],
            )),
    {
        let info = match self.runtime.get(id) {
            Some(i) => i,
            None => return Err(ShimError::not_found(id)),
        };
        let config = match self.runtime.get_config(id) {
            Some(c) => c,
            None => return Err(ShimError::not_found(id)),
        };
        let pid = match info.pid {
            Some(p) => p,
            None => 0,
        };
        Ok(StateResponse {
            id: info.id.clone(),
            bundle: self.bundle_path.clone(),
            pid,
            status: Status::from(info.status),
            stdin: path_value(&config.stdio.stdin_path),
            stdout: path_value(&config.stdio.stdout_path),
            stderr: path_value(&config.stdio.stderr_path),
            terminal: config.stdio.tty,
            exit_status: 0,
            exited_at: 0,
        })
    }

    /// Creates the task a request asks for, from its bundle's configuration
    /// (`fields`, read from the bundle's `config.json`); `rootfs_exists` says
    /// whether the bundle's root filesystem exists. The task is created but
    /// not started, so it has no process yet (pid 0).
    pub fn create(&mut self, request: &CreateTaskRequest, fields: &OciBundleFields, rootfs_exists: bool) -> (r: Result<CreateTaskResponse>)
        requires
            old(self).wf(),
        ensures
            final(self).wf(),
            ({
                let id = request.id@;
                let unchanged = final(self).tasks() == old(self).tasks() && final(self).task_configs() == old(self).task_configs();
                &&& id.len() == 0 ==> (r matches Err(e) && is_runtime_error(e, "Container ID cannot be empty"@) && unchanged)
                &&& id.len() > 0 && bundle_command(*fields).len() == 0 ==> (r matches Err(e)
                    && is_runtime_error(e, "Command cannot be empty"@) && unchanged)
                &&& id.len() > 0 && bundle_command(*fields).len() > 0 && !rootfs_exists ==> (r matches Err(e)
                    && is_runtime_error(e, "Rootfs path does not exist: "@ + bundle_rootfs(request.bundle@, *fields))
                    && unchanged)
                &&& id.len() > 0 && bundle_command(*fields).len() > 0 && rootfs_exists && has_id(old(self).tasks(), id)
                    ==> (r matches Err(e) && lifecycle_error_matches(e, LifecycleError::AlreadyExists, id) && unchanged)
                &&& id.len() > 0 && bundle_command(*fields).len() > 0 && rootfs_exists && !has_id(old(self).tasks(), id)
                    ==> (r matches Ok(resp) && resp.pid == 0
                        && final(self).tasks() == after_create(old(self).tasks(), id)
                        && final(self).task_configs().drop_last() == old(self).task_configs()
                        && final(self).task_configs().len() == old(self).task_configs().len() + 1
                        && task_config_matches(final(self).task_configs().last(), *request, *fields))
            }),
    {
        let mut config = oci_to_container_config(request.id.as_str(), request.bundle.as_str(), fields);
        config.stdio.tty = request.terminal;
        config.stdio.stdin_path = request_path_value(&request.stdin);
        config.stdio.stdout_path = request_path_value(&request.stdout);
        config.stdio.stderr_path = request_path_value(&request.stderr);
        let ghost c = config;
        proof {
            assert(strs(c.command@).len() == c.command@.len());
        }
        match self.runtime.create(config, rootfs_exists) {
            Ok(_) => {
                proof {
                    assert(self.task_configs().drop_last() =~= old(self).task_configs());
                }
                Ok(CreateTaskResponse { pid: 0 })
            },
            Err(e) => Err(e),
        }
    }

    /// Starts the task `id`, which then runs as process `pid`.
    pub fn start(&mut self, id: &str, pid: u32) -> (r: Result<StartResponse>)
        requires
            old(self).wf(),
        ensures
            final(self).wf(),
            final(self).task_configs() == old(self).task_configs(),
            match start_outcome(old(self).tasks(), id@) {
                Ok(()) => r matches Ok(resp) && resp.pid == pid && final(self).tasks() == after_start(old(self).tasks(), id@, pid),
                Err(e) => r matches Err(err) && lifecycle_error_matches(err, e, id@) && final(self).tasks() == old(self).tasks(),
            },
    {
        match self.runtime.start(id, pid) {
            Ok(()) => Ok(StartResponse { pid }),
            Err(e) => Err(e),
        }
    }

    /// Kills the running task `id`: it is stopped.
    pub fn kill(&mut self, id: &str) -> (r: Result<()>)
        requires
            old(self).wf(),
        ensures
            final(self).wf(),
            final(self).task_configs() == old(self).task_configs(),
            match stop_outcome(old(self).tasks(), id@) {
                Ok(()) => r is Ok && final(self).tasks() == after_stop(old(self).tasks(), id@),
                Err(e) => r matches Err(err) && lifecycle_error_matches(err, e, id@) && final(self).tasks() == old(self).tasks(),
            },
    {
        self.runtime.stop(id)
    }

    /// Records that the process of task `id` exited with `exit_status` at
    /// `exited_at`: a running task is stopped, any other is left as it is.
    pub fn wait(&mut self, id: &str, exit_status: u32, exited_at: u64) -> (r: Result<WaitResponse>)
        requires
            old(self).wf(),
        ensures
            final(self).wf(),
            final(self).task_configs() == old(self).task_configs(),
            !has_id(old(self).tasks(), id@) ==> (r matches Err(e) && is_not_found_error(e, id@)
                && final(self).tasks() == old(self).tasks()),
            has_id(old(self).tasks(), id@) ==> (r matches Ok(w) && w.exit_status == exit_status && w.exited_at == exited_at
                && final(self).tasks() == (if old(self).tasks()[index_of(old(self).tasks(), id@)].status == ContainerStatus::Running {
                    after_stop(old(self).tasks(), id@)
                } else {
                    old(self).tasks()
                })),
    {
        let status = match self.runtime.get(id) {
            Some(info) => info.status,
            None => return Err(ShimError::not_found(id)),
        };
        match status {
            ContainerStatus::Running => {
                let _ = self.runtime.stop(id);
            },
            _ => {},
        }
        Ok(WaitResponse { exit_status, exited_at })
    }

    /// Deletes the task `id`, which must not be running, and reports its last
    /// process id (0 when it has none) with the given exit.
    pub fn delete(&mut self, id: &str, exit_status: u32, exited_at: u64) -> (r: Result<DeleteResponse>)
        requires
            old(self).wf(),
        ensures
            final(self).wf(),
            match delete_outcome(old(self).tasks(), id@) {
                Ok(()) => r matches Ok(resp)
                    && resp.pid == pid_or_zero(old(self).tasks()[index_of(old(self).tasks(), id@)].pid)
                    && resp.exit_status == exit_status && resp.exited_at == exited_at
                    && final(self).tasks() == after_delete(old(self).tasks(), id@),
                Err(e) => r matches Err(err) && lifecycle_error_matches(err, e, id@) && final(self).tasks() == old(self).tasks(),
            },
    {
        let pid = match self.runtime.get(id) {
            Some(info) => match info.pid {
                Some(p) => p,
                None => 0,
            },
            None => 0,
        };
        match self.runtime.delete(id) {
            Ok(()) => Ok(DeleteResponse { pid, exit_status, exited_at }),
            Err(e) => Err(e),
        }
    }
}

/// The fields of an OCI bundle's `config.json` that a container takes; a
/// field that is absent or of another JSON type is `None`, and each array
/// item is `None` when it is not a string.
pub struct OciBundleFields {
    pub root_path: Option<String>,
    pub args: Option<Vec<Option<String>>>,
    pub env: Option<Vec<Option<String>>>,
    pub cwd: Option<String>,
}

/// The views of the items of a JSON array: each string item's text, or
/// `None` for an item that is not a string.
pub open spec fn items_view(items: Seq<Option<String>>) -> Seq<Option<Seq<char>>> {
    items.map_values(|o: Option<String>| opt_view(o))
}

/// The view of an optional JSON array.
pub open spec fn opt_items_view(items: Option<Vec<Option<String>>>) -> Option<Seq<Option<Seq<char>>>> {
    match items {
        Some(v) => Some(items_view(v@)),
        None => None,
    }
}

impl View for OciBundleFields {
    type V = (Option<Seq<char>>, Option<Seq<Option<Seq<char>>>>, Option<Seq<Option<Seq<char>>>>, Option<Seq<char>>);

    /// The root path, the argument items, the environment items and the
    /// working directory, as text.
    open spec fn view(&self) -> Self::V {
        (opt_view(self.root_path), opt_items_view(self.args), opt_items_view(self.env), opt_view(self.cwd))
    }
}

/// The string items of a JSON array given by its item views, in order.
pub open spec fn text_items(items: Seq<Option<Seq<char>>>) -> Seq<Seq<char>>
    decreases items.len(),
{
    if items.len() == 0 {
        Seq::empty()
    } else {
        let r = text_items(items.drop_last());
        match items.last() {
            Some(s) => r.push(s),
            None => r,
        }
    }
}

proof fn lemma_string_items_view(items: Seq<Option<String>>)
    ensures
        string_items(items) == text_items(items_view(items)),
    decreases items.len(),
{
    if items.len() > 0 {
        lemma_string_items_view(items.drop_last());
        assert(items_view(items).drop_last() =~= items_view(items.drop_last()));
    }
}

/// Whether `c` is the container configuration of the bundle at `bundle` for
/// the container `id`, where `f` holds the bundle configuration's root path,
/// argument items, environment items and working directory: its root
/// filesystem is the root path (default `rootfs`) joined to the bundle path;
/// its command the string arguments (default `/bin/sh`); its environment the
/// string items (default none); its working directory the given one (default
/// `/`); everything else its default.
pub open spec fn bundle_config_matches(
    c: ContainerConfig,
    id: Seq<char>,
    bundle: Seq<char>,
    f: (Option<Seq<char>>, Option<Seq<Option<Seq<char>>>>, Option<Seq<Option<Seq<char>>>>, Option<Seq<char>>),
) -> bool {
    &&& c.id@ == id
    &&& c.rootfs@ == join_path_spec(bundle, match f.0 { Some(p) => p, None => "rootfs"@ })
    &&& strs(c.command@) == (match f.1 { Some(a) => text_items(a), None => seq!["/bin/sh"@] })
    &&& strs(c.env@) == (match f.2 { Some(e) => text_items(e), None => Seq::empty() })
    &&& c.working_dir@ == (match f.3 { Some(w) => w, None => "/"@ })
    &&& c.network.mode@ == "bridge"@
    &&& c.network.port_mappings@.len() == 0 && c.network.interfaces@.len() == 0
    &&& c.volumes@.len() == 0
    &&& !c.stdio.tty && !c.stdio.open_stdin
    &&& c.stdio.stdin_path is None && c.stdio.stdout_path is None && c.stdio.stderr_path is None
    &&& c.resources.cpu_millis is None && c.resources.memory is None && c.resources.memory_swap is None
    &&& c.resources.pids is None && c.resources.blkio_weight is None
}

/// What the JSON text of a bundle's `config.json` gives: its `root.path`,
/// the items of `process.args` and `process.env`, and `process.cwd`, each
/// `None` when absent or of another JSON type (an array item is `None` when
/// not a string); or nothing when the text is not JSON.
pub uninterp spec fn bundle_json_fields(text: Seq<char>) -> Option<(Option<Seq<char>>, Option<Seq<Option<Seq<char>>>>, Option<Seq<Option<Seq<char>>>>, Option<Seq<char>>)>;

/// Calls `serde_json::from_str` into a `serde_json::Value` and reads the
/// fields a container takes with `Value`'s indexing, `as_str` and `as_array`.
/// The contract claims that the outcome is a function of the text alone,
/// named `bundle_json_fields`: the fields read on success, nothing when
/// serde_json refuses the text.
#[verifier::external_body]
fn parse_bundle_json(text: &str) -> (r: std::result::Result<OciBundleFields, serde_json::Error>)
    ensures
        r matches Ok(f) ==> bundle_json_fields(text@) == Some(f@),
        r is Err ==> bundle_json_fields(text@) is None,
{
    let v: serde_json::Value = serde_json::from_str(text)?;
    let s = |x: &serde_json::Value| x.as_str().map(|t| t.to_string());
    let items = |x: &serde_json::Value| x.as_array().map(|a| a.iter().map(s).collect());
    Ok(OciBundleFields {
        root_path: s(&v["root"]["path"]),
        args: items(&v["process"]["args"]),
        env: items(&v["process"]["env"]),
        cwd: s(&v["process"]["cwd"]),
    })
}

/// Whether `e` is the error for a bundle configuration that is not JSON: a
/// runtime error that starts `Failed to parse config.json: ` (then the
/// parser's message) with the context `Invalid OCI bundle configuration`.
pub open spec fn bundle_parse_error(e: ShimError) -> bool {
    e matches ShimError::Runtime { message, context: Some(ctx) }
        && starts_with_spec(message@, "Failed to parse config.json: "@)
        && ctx@ == "Invalid OCI bundle configuration"@
}

/// The fields a container takes from a bundle whose `config.json` holds
/// `text`, or the error for a text that is not JSON.
pub fn bundle_fields_from_text(text: &str) -> (r: Result<OciBundleFields>)
    ensures
        match bundle_json_fields(text@) {
            Some(f) => r matches Ok(fields) && fields@ == f,
            None => r matches Err(e) && bundle_parse_error(e),
        },
{
    match parse_bundle_json(text) {
        Ok(fields) => Ok(fields),
        Err(e) => {
            let mut m = String::from_str("Failed to parse config.json: ");
            let ghost prefix = m@;
            let t = json_error_text(&e);
            m.append(t.as_str());
            proof {
                reveal_strlit("Failed to parse config.json: ");
                assert(m@.subrange(0, prefix.len() as int) =~= prefix);
            }
            Err(ShimError::runtime_with_context(m.as_str(), "Invalid OCI bundle configuration"))
        },
    }
}

/// The container configuration of a bundle whose `config.json` holds `text`,
/// or the error for a text that is not JSON.
pub fn bundle_config_from_text(container_id: &str, bundle_path: &str, text: &str) -> (r: Result<ContainerConfig>)
    ensures
        match bundle_json_fields(text@) {
            Some(f) => r matches Ok(c) && bundle_config_matches(c, container_id@, bundle_path@, f),
            None => r matches Err(e) && bundle_parse_error(e),
        },
{
    let fields = bundle_fields_from_text(text)?;
    Ok(oci_to_container_config(container_id, bundle_path, &fields))
}

/// The string items of a JSON array, in order.
pub open spec fn string_items(items: Seq<Option<String>>) -> Seq<Seq<char>>
    decreases items.len(),
{
    if items.len() == 0 {
        Seq::empty()
    } else {
        let r = string_items(items.drop_last());
        match items.last() {
            Some(s) => r.push(s@),
            None => r,
        }
    }
}

fn collect_strings(items: &Vec<Option<String>>) -> (r: Vec<String>)
    ensures
        strs(r@) == string_items(items@),
{
    let mut r: Vec<String> = Vec::new();
    let mut i: usize = 0;
    proof {
        assert(items@.take(0) =~= Seq::<Option<String>>::empty());
        assert(strs(r@) =~= string_items(items@.take(0)));
    }
    while i < items.len()
        invariant
            i <= items@.len(),
            strs(r@) == string_items(items@.take(i as int)),
        decreases items@.len() - i,
    {
        proof {
            assert(items@.take(i + 1).drop_last() =~= items@.take(i as int));
            assert(items@.take(i + 1).last() == items@[i as int]);
        }
        let ghost prev = r@;
        match &items[i] {
            Some(s) => {
                r.push(s.clone());
                proof {
                    assert(strs(r@) =~= strs(prev).push(s@));
                }
            },
            None => {},
        }
        i = i + 1;
    }
    proof {
        assert(items@.take(i as int) =~= items@);
    }
    r
}

/// The container configuration of a bundle: its root filesystem is the
/// bundle's `root.path` (default `rootfs`) joined to the bundle path; its
/// command the string items of `process.args` (default `/bin/sh`); its
/// environment the string items of `process.env` (default none); its working
/// directory `process.cwd` (default `/`). Everything else takes its default.
pub fn oci_to_container_config(container_id: &str, bundle_path: &str, fields: &OciBundleFields) -> (c: ContainerConfig)
    ensures
        bundle_config_matches(c, container_id@, bundle_path@, fields@),
        c.id@ == container_id@,
        c.rootfs@ == join_path_spec(bundle_path@, match fields.root_path { Some(p) => p@, None => "rootfs"@ }),
        strs(c.command@) == (match fields.args { Some(a) => string_items(a@), None => seq!["/bin/sh"@] }),
        strs(c.env@) == (match fields.env { Some(e) => string_items(e@), None => Seq::empty() }),
        c.working_dir@ == (match fields.cwd { Some(w) => w@, None => "/"@ }),
        c.network.mode@ == "bridge"@,
        c.network.port_mappings@.len() == 0 && c.network.interfaces@.len() == 0,
        c.volumes@.len() == 0,
        !c.stdio.tty && !c.stdio.open_stdin,
        c.stdio.stdin_path is None && c.stdio.stdout_path is None && c.stdio.stderr_path is None,
        c.resources.cpu_millis is None && c.resources.memory is None && c.resources.memory_swap is None
            && c.resources.pids is None && c.resources.blkio_weight is None,
{
    let root = match &fields.root_path {
        Some(p) => join_path(bundle_path, p.as_str()),
        None => join_path(bundle_path, "rootfs"),
    };
    let command = match &fields.args {
        Some(a) => collect_strings(a),
        None => {
            let mut v: Vec<String> = Vec::new();
            v.push(String::from_str("/bin/sh"));
            assert(strs(v@) =~= seq!["/bin/sh"@]);
            v
        },
    };
    let env = match &fields.env {
        Some(e) => collect_strings(e),
        None => {
            let v: Vec<String> = Vec::new();
            assert(strs(v@) =~= Seq::<Seq<char>>::empty());
            v
        },
    };
    let working_dir = match &fields.cwd {
        Some(w) => w.clone(),
        None => String::from_str("/"),
    };
    proof {
        if fields.args is Some {
            lemma_string_items_view(fields.args->0@);
        }
        if fields.env is Some {
            lemma_string_items_view(fields.env->0@);
        }
    }
    let mut c = ContainerConfig::default();
    c.id = String::from_str(container_id);
    c.rootfs = root;
    c.command = command;
    c.env = env;
    c.working_dir = working_dir;
    c
}

} // verus!
