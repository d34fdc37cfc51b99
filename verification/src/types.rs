//! Core data types of the runtime: container status and information, container
//! and runtime configuration.

use vstd::prelude::*;
use vstd::string::*;
use crate::path::{join_path, join_path_spec, same_path, same_path_spec};
use crate::text::{parse_unsigned, parse_unsigned_spec, split_char, split_spec, strs, text_of};

verus! {

/// Lifecycle status of a container.
#[derive(Clone, Copy, Debug, PartialEq, Eq, Structural)]
pub enum ContainerStatus {
    Created,
    Running,
    Stopped,
}

/// Public information about a container.
#[derive(Debug, Clone)]
pub struct ContainerInfo {
    pub id: String,
    pub status: ContainerStatus,
    pub pid: Option<u32>,
}

/// The mathematical value of a [`ContainerInfo`].
pub struct ContainerInfoView {
    pub id: Seq<char>,
    pub status: ContainerStatus,
    pub pid: Option<u32>,
}

impl View for ContainerInfo {
    type V = ContainerInfoView;

    open spec fn view(&self) -> ContainerInfoView {
        ContainerInfoView { id: self.id@, status: self.status, pid: self.pid }
    }
}

impl ContainerInfo {
    /// A copy of this record.
    pub fn duplicate(&self) -> (r: ContainerInfo)
        ensures
            r@ == self@,
    {
        ContainerInfo { id: self.id.clone(), status: self.status, pid: self.pid }
    }
}

/// The name of a status, as the runtime prints it.
pub open spec fn status_name_spec(s: ContainerStatus) -> Seq<char> {
    match s {
        ContainerStatus::Created => "Created"@,
        ContainerStatus::Running => "Running"@,
        ContainerStatus::Stopped => "Stopped"@,
    }
}

/// The name of a status: `Created`, `Running` or `Stopped`.
pub fn status_name(s: ContainerStatus) -> (r: &'static str)
    ensures
        r@ == status_name_spec(s),
{
    match s {
        ContainerStatus::Created => "Created",
        ContainerStatus::Running => "Running",
        ContainerStatus::Stopped => "Stopped",
    }
}

/// The status that a status name stands for: `Created` and `Running` stand
/// for themselves, every other name for `Stopped`.
pub open spec fn status_from_name_spec(name: Seq<char>) -> ContainerStatus {
    if name == "Created"@ {
        ContainerStatus::Created
    } else if name == "Running"@ {
        ContainerStatus::Running
    } else {
        ContainerStatus::Stopped
    }
}

/// Reading the name of a status gives the status back.
pub proof fn law_status_name_round_trip(s: ContainerStatus)
    ensures
        status_from_name_spec(status_name_spec(s)) == s,
{
    reveal_strlit("Created");
    reveal_strlit("Running");
    reveal_strlit("Stopped");
    assert("Running"@ != "Created"@) by {
        assert("Running"@[0] != "Created"@[0]);
    }
    assert("Stopped"@ != "Created"@) by {
        assert("Stopped"@[0] != "Created"@[0]);
    }
    assert("Stopped"@ != "Running"@) by {
        assert("Stopped"@[0] != "Running"@[0]);
    }
}

/// Reads a status name as a status agent reports it.
pub fn status_from_name(name: &str) -> (s: ContainerStatus)
    ensures
        s == status_from_name_spec(name@),
{
    let n = String::from_str(name);
    let created = String::from_str("Created");
    let running = String::from_str("Running");
    if n == created {
        ContainerStatus::Created
    } else if n == running {
        ContainerStatus::Running
    } else {
        ContainerStatus::Stopped
    }
}

/// Standard input and output of a container.
#[derive(Debug, Clone, Default)]
pub struct StdioConfig {
    /// Whether to allocate a pseudo-TTY.
    pub tty: bool,
    /// Whether to keep stdin open.
    pub open_stdin: bool,
    /// Stdin file path, if any.
    pub stdin_path: Option<String>,
    /// Stdout file path, if any.
    pub stdout_path: Option<String>,
    /// Stderr file path, if any.
    pub stderr_path: Option<String>,
}

/// A published port.
#[derive(Debug, Clone)]
pub struct PortMapping {
    /// Host port (0 for random).
    pub host_port: u16,
    /// Container port.
    pub container_port: u16,
    /// Protocol: "tcp" or "udp".
    pub protocol: String,
    /// Host IP to bind to (None for all interfaces).
    pub host_ip: Option<String>,
}

/// An additional network interface.
#[derive(Debug, Clone)]
pub struct NetworkInterface {
    /// Interface name.
    pub name: String,
    /// Interface type: "bridge", "macvlan", etc.
    pub interface_type: String,
    /// Additional configuration.
    pub config: std::collections::HashMap<String, String>,
}

/// Network configuration of a container.
#[derive(Debug, Clone)]
pub struct NetworkConfig {
    /// Network mode: "none", "bridge", "host", or "container:<id>".
    pub mode: String,
    /// Port mappings (host_port -> container_port).
    pub port_mappings: Vec<PortMapping>,
    /// Additional network interfaces.
    pub interfaces: Vec<NetworkInterface>,
}

/// The default network mode, `bridge`.
pub fn default_network_mode() -> (s: String)
    ensures
        s@ == "bridge"@,
{
    String::from_str("bridge")
}

impl Default for NetworkConfig {
    fn default() -> (r: NetworkConfig)
        ensures
            r.mode@ == "bridge"@,
            r.port_mappings@.len() == 0,
            r.interfaces@.len() == 0,
    {
        NetworkConfig { mode: default_network_mode(), port_mappings: Vec::new(), interfaces: Vec::new() }
    }
}

/// A volume mounted into a container.
#[derive(Debug, Clone)]
pub struct VolumeMount {
    /// Source path on the host.
    pub source: String,
    /// Destination path in the container.
    pub destination: String,
    /// Mount options (e.g. "ro", "rw", "bind").
    pub options: Vec<String>,
}

/// Resource limits of a container.
#[derive(Debug, Clone, Default)]
pub struct ResourceLimits {
    /// CPU limit in thousandths of a core (None or 0 = unlimited).
    pub cpu_millis: Option<u64>,
    /// Memory limit in bytes (0 = unlimited).
    pub memory: Option<u64>,
    /// Memory swap limit in bytes (0 = unlimited).
    pub memory_swap: Option<u64>,
    /// PIDs limit (0 = unlimited).
    pub pids: Option<i64>,
    /// Block IO weight (10-1000).
    pub blkio_weight: Option<u16>,
}

/// The configuration of a container.
#[derive(Debug, Clone)]
pub struct ContainerConfig {
    pub id: String,
    pub rootfs: String,
    pub command: Vec<String>,
    pub env: Vec<String>,
    pub working_dir: String,
    /// Container stdio configuration.
    pub stdio: StdioConfig,
    /// Network configuration.
    pub network: NetworkConfig,
    /// Volume mounts.
    pub volumes: Vec<VolumeMount>,
    /// Resource limits.
    pub resources: ResourceLimits,
}

impl Default for ContainerConfig {
    fn default() -> (r: ContainerConfig)
        ensures
            r.id@ == Seq::<char>::empty(),
            r.rootfs@ == Seq::<char>::empty(),
            r.command@.len() == 0,
            r.env@.len() == 0,
            r.working_dir@ == "/"@,
            r.network.mode@ == "bridge"@,
            r.network.port_mappings@.len() == 0 && r.network.interfaces@.len() == 0,
            r.volumes@.len() == 0,
            !r.stdio.tty && !r.stdio.open_stdin,
            r.stdio.stdin_path is None && r.stdio.stdout_path is None && r.stdio.stderr_path is None,
            r.resources.cpu_millis is None && r.resources.memory is None && r.resources.memory_swap is None
                && r.resources.pids is None && r.resources.blkio_weight is None,
    {
        ContainerConfig {
            id: String::new(),
            rootfs: String::new(),
            command: Vec::new(),
            env: Vec::new(),
            working_dir: String::from_str("/"),
            stdio: StdioConfig {
                tty: false,
                open_stdin: false,
                stdin_path: None,
                stdout_path: None,
                stderr_path: None,
            },
            network: NetworkConfig::default(),
            volumes: Vec::new(),
            resources: ResourceLimits {
                cpu_millis: None,
                memory: None,
                memory_swap: None,
                pids: None,
                blkio_weight: None,
            },
        }
    }
}

/// Configuration of the runtime.
#[derive(Debug, Clone)]
pub struct RuntimeConfig {
    /// Unix socket path for agent communication.
    pub socket_path: String,
    /// Vsock port for VM communication.
    pub vsock_port: u32,
    /// Additional paths to search for VM assets (kernel, initramfs).
    pub vm_asset_paths: Vec<String>,
    /// VM memory size in bytes.
    pub vm_memory: u64,
    /// Number of VM CPU cores.
    pub vm_cpus: u32,
    /// Connection timeout in seconds.
    pub connection_timeout: u64,
}

/// The default agent socket path, `/tmp/libcrun-shim.sock`.
pub fn default_socket_path() -> (s: String)
    ensures
        s@ == "/tmp/libcrun-shim.sock"@,
{
    String::from_str("/tmp/libcrun-shim.sock")
}

/// The default vsock port, 1234.
pub fn default_vsock_port() -> (p: u32)
    ensures
        p == 1234,
{
    1234
}

/// The default VM memory, 2 GiB.
pub fn default_vm_memory() -> (m: u64)
    ensures
        m == 2 * 1024 * 1024 * 1024,
{
    2 * 1024 * 1024 * 1024
}

/// The default number of VM CPUs, 4.
pub fn default_vm_cpus() -> (c: u32)
    ensures
        c == 4,
{
    4
}

/// The default connection timeout, 30 seconds.
pub fn default_connection_timeout() -> (t: u64)
    ensures
        t == 30,
{
    30
}

/// Whether `c` is the default runtime configuration.
pub open spec fn is_default_runtime_config(c: RuntimeConfig) -> bool {
    &&& c.socket_path@ == "/tmp/libcrun-shim.sock"@
    &&& c.vsock_port == 1234
    &&& c.vm_asset_paths@.len() == 0
    &&& c.vm_memory == 2 * 1024 * 1024 * 1024
    &&& c.vm_cpus == 4
    &&& c.connection_timeout == 30
}


/// The pieces that are not empty, in order.
pub open spec fn non_empty(pieces: Seq<Seq<char>>) -> Seq<Seq<char>>
    decreases pieces.len(),
{
    if pieces.len() == 0 {
        Seq::empty()
    } else if pieces.last().len() == 0 {
        non_empty(pieces.drop_last())
    } else {
        non_empty(pieces.drop_last()).push(pieces.last())
    }
}

/// A number given in an environment variable, if it is set and parses as a
/// number no larger than `max`; else `default`.
pub open spec fn env_number(text: Option<Seq<char>>, max: nat, default: nat) -> nat {
    match text {
        Some(t) => match parse_unsigned_spec(t, max) {
            Some(v) => v,
            None => default,
        },
        None => default,
    }
}

/// Reads a number given in an environment variable.
fn env_number_value(text: Option<&str>, max: u64, default: u64) -> (r: u64)
    requires
        default <= max,
    ensures
        r as nat == env_number(text_of(text), max as nat, default as nat),
{
    match text {
        Some(t) => match parse_unsigned(t, max) {
            Some(v) => v,
            None => default,
        },
        None => default,
    }
}

/// The search list of VM assets that a configuration does not name itself,
/// in order: three system directories, the user's data directory (`dirs`'s
/// data-local directory with `libcrun-shim` joined), the user's
/// `~/.libcrun-shim`, and the working directory.
pub open spec fn default_asset_dirs(data_local_dir: Option<Seq<char>>, home_dir: Option<Seq<char>>, current_dir: Option<Seq<char>>) -> Seq<Seq<char>> {
    seq![
        "/usr/share/libcrun-shim"@,
        "/usr/local/share/libcrun-shim"@,
        "/opt/libcrun-shim"@,
        match data_local_dir {
            Some(d) => join_path_spec(d, "libcrun-shim"@),
            None => "~/.local/share/libcrun-shim"@,
        },
        match home_dir {
            Some(h) => join_path_spec(h, ".libcrun-shim"@),
            None => "~/.libcrun-shim"@,
        },
        match current_dir {
            Some(c) => c,
            None => "."@,
        },
    ]
}

/// Whether `paths` holds a path equal to `p`.
pub open spec fn has_path(paths: Seq<Seq<char>>, p: Seq<char>) -> bool {
    exists|i: int| 0 <= i < paths.len() && same_path_spec(#[trigger] paths[i], p)
}

/// `paths` followed by each path of `extra` that is not yet among them.
pub open spec fn add_new_paths(paths: Seq<Seq<char>>, extra: Seq<Seq<char>>) -> Seq<Seq<char>>
    decreases extra.len(),
{
    if extra.len() == 0 {
        paths
    } else {
        let r = add_new_paths(paths, extra.drop_last());
        if has_path(r, extra.last()) {
            r
        } else {
            r.push(extra.last())
        }
    }
}

/// The search list keeps the configured paths first and in order, and holds
/// every default path (itself or one equal to it as a path).
pub proof fn law_search_paths_keep_configured_first(base: Seq<Seq<char>>, extra: Seq<Seq<char>>)
    ensures
        add_new_paths(base, extra).len() >= base.len(),
        add_new_paths(base, extra).take(base.len() as int) == base,
        forall|i: int| 0 <= i < extra.len() ==> has_path(add_new_paths(base, extra), #[trigger] extra[i]),
    decreases extra.len(),
{
    if extra.len() == 0 {
        assert(base.take(base.len() as int) =~= base);
    } else {
        let prev = extra.drop_last();
        let r = add_new_paths(base, prev);
        law_search_paths_keep_configured_first(base, prev);
        let res = add_new_paths(base, extra);
        assert(res.take(base.len() as int) =~= base) by {
            assert(r.take(base.len() as int) =~= base);
            if res != r {
                assert(res == r.push(extra.last()));
                assert forall|k: int| 0 <= k < base.len() implies res[k] == r[k] by {}
            }
        }
        assert forall|i: int| 0 <= i < extra.len() implies has_path(res, #[trigger] extra[i]) by {
            if i < extra.len() - 1 {
                assert(prev[i] == extra[i]);
                assert(has_path(r, prev[i]));
                let j = choose|j: int| 0 <= j < r.len() && same_path_spec(#[trigger] r[j], prev[i]);
                assert(res[j] == r[j]);
            } else if !has_path(r, extra.last()) {
                assert(res[r.len() as int] == extra.last());
                assert(same_path_spec(res[r.len() as int], extra[i]));
            }
        }
    }
}

/// Whether `paths` holds a path equal to `p`.
fn holds_path(paths: &Vec<String>, p: &str) -> (r: bool)
    ensures
        r == has_path(strs(paths@), p@),
{
    let ghost pv = strs(paths@);
    let mut i: usize = 0;
    while i < paths.len()
        invariant
            i <= paths@.len(),
            pv == strs(paths@),
            forall|j: int| 0 <= j < i ==> !same_path_spec(#[trigger] pv[j], p@),
        decreases paths@.len() - i,
    {
        if same_path(paths[i].as_str(), p) {
            proof {
                assert(pv[i as int] == paths@[i as int]@);
            }
            return true;
        }
        i = i + 1;
    }
    false
}

impl Default for RuntimeConfig {
    fn default() -> (c: RuntimeConfig)
        ensures
            is_default_runtime_config(c),
    {
        RuntimeConfig {
            socket_path: default_socket_path(),
            vsock_port: default_vsock_port(),
            vm_asset_paths: Vec::new(),
            vm_memory: default_vm_memory(),
            vm_cpus: default_vm_cpus(),
            connection_timeout: default_connection_timeout(),
        }
    }
}

impl RuntimeConfig {
    /// A builder with nothing set.
    pub fn builder() -> (b: RuntimeConfigBuilder)
        ensures
            builder_state(&b) == initial_builder_state(),
            b.spec_socket_path() is None,
            b.spec_vsock_port() is None,
            b.spec_vm_asset_paths().len() == 0,
            b.spec_vm_memory() is None,
            b.spec_vm_cpus() is None,
            b.spec_connection_timeout() is None,
    {
        let b = RuntimeConfigBuilder {
            socket_path: None,
            vsock_port: None,
            vm_asset_paths: Vec::new(),
            vm_memory: None,
            vm_cpus: None,
            connection_timeout: None,
        };
        proof {
            assert(b.vm_asset_paths@.map_values(|p: String| p@) =~= Seq::<Seq<char>>::empty());
        }
        b
    }

    /// The configuration that the environment gives: each argument is the
    /// value of `LIBCRUN_SOCKET_PATH`, `LIBCRUN_VSOCK_PORT`,
    /// `LIBCRUN_VM_ASSET_PATHS` (a colon-separated list), `LIBCRUN_VM_MEMORY`,
    /// `LIBCRUN_VM_CPUS` and `LIBCRUN_CONNECTION_TIMEOUT` in turn, where it is
    /// set. A variable that is unset, or a number that does not parse, leaves
    /// the default.
    pub fn from_env_values(
        socket_path: Option<&str>,
        vsock_port: Option<&str>,
        vm_asset_paths: Option<&str>,
        vm_memory: Option<&str>,
        vm_cpus: Option<&str>,
        connection_timeout: Option<&str>,
    ) -> (c: RuntimeConfig)
        ensures
            c.socket_path@ == (match socket_path {
                Some(p) => p@,
                None => "/tmp/libcrun-shim.sock"@,
            }),
            c.vsock_port as nat == env_number(text_of(vsock_port), u32::MAX as nat, 1234),
            strs(c.vm_asset_paths@) == (match vm_asset_paths {
                Some(p) => non_empty(split_spec(p@, ':')),
                None => Seq::empty(),
            }),
            c.vm_memory as nat == env_number(text_of(vm_memory), u64::MAX as nat, 2 * 1024 * 1024 * 1024),
            c.vm_cpus as nat == env_number(text_of(vm_cpus), u32::MAX as nat, 4),
            c.connection_timeout as nat == env_number(text_of(connection_timeout), u64::MAX as nat, 30),
    {
        let socket = match socket_path {
            Some(p) => String::from_str(p),
            None => default_socket_path(),
        };
        let mut paths: Vec<String> = Vec::new();
        if let Some(list) = vm_asset_paths {
            let pieces = split_char(list, ':');
            let ghost pv = strs(pieces@);
            let mut i: usize = 0;
            proof {
                assert(pv.take(0) =~= Seq::<Seq<char>>::empty());
                assert(strs(paths@) =~= Seq::<Seq<char>>::empty());
            }
            while i < pieces.len()
                invariant
                    i <= pieces@.len(),
                    pv == strs(pieces@),
                    strs(paths@) == non_empty(pv.take(i as int)),
                decreases pieces@.len() - i,
            {
                proof {
                    assert(pv.take(i + 1).drop_last() =~= pv.take(i as int));
                    assert(pv.take(i + 1).last() == pv[i as int]);
                    assert(pv[i as int] == pieces@[i as int]@);
                }
                if pieces[i].unicode_len() > 0 {
                    let ghost prev = paths@;
                    paths.push(String::from_str(pieces[i].as_str()));
                    proof {
                        assert(strs(paths@) =~= strs(prev).push(pieces@[i as int]@));
                    }
                }
                i = i + 1;
            }
            proof {
                assert(pv.take(i as int) =~= pv);
            }
        }
        let port = env_number_value(vsock_port, 4294967295, 1234);
        let cpus = env_number_value(vm_cpus, 4294967295, 4);
        RuntimeConfig {
            socket_path: socket,
            vsock_port: port as u32,
            vm_asset_paths: paths,
            vm_memory: env_number_value(vm_memory, u64::MAX, default_vm_memory()),
            vm_cpus: cpus as u32,
            connection_timeout: env_number_value(connection_timeout, u64::MAX, default_connection_timeout()),
        }
    }

    /// Every place searched for VM assets: the configured paths, then each of
    /// `default_asset_dirs` that is not among them yet. The arguments are the
    /// user's data-local directory, home directory and working directory,
    /// where they are known.
    pub fn get_vm_asset_search_paths(&self, data_local_dir: Option<&str>, home_dir: Option<&str>, current_dir: Option<&str>) -> (r: Vec<String>)
        ensures
            strs(r@) == add_new_paths(
                strs(self.vm_asset_paths@),
                default_asset_dirs(text_of(data_local_dir), text_of(home_dir), text_of(current_dir)),
            ),
    {
        let mut paths: Vec<String> = Vec::new();
        let mut i: usize = 0;
        while i < self.vm_asset_paths.len()
            invariant
                i <= self.vm_asset_paths@.len(),
                strs(paths@) == strs(self.vm_asset_paths@).take(i as int),
            decreases self.vm_asset_paths@.len() - i,
        {
            let ghost prev = paths@;
            paths.push(String::from_str(self.vm_asset_paths[i].as_str()));
            proof {
                assert(strs(paths@) =~= strs(prev).push(self.vm_asset_paths@[i as int]@));
                assert(strs(self.vm_asset_paths@).take(i + 1) =~= strs(self.vm_asset_paths@).take(i as int).push(
                    self.vm_asset_paths@[i as int]@,
                ));
            }
            i = i + 1;
        }
        proof {
            assert(strs(self.vm_asset_paths@).take(i as int) =~= strs(self.vm_asset_paths@));
        }
        let mut extra: Vec<String> = Vec::new();
        extra.push(String::from_str("/usr/share/libcrun-shim"));
        extra.push(String::from_str("/usr/local/share/libcrun-shim"));
        extra.push(String::from_str("/opt/libcrun-shim"));
        extra.push(match data_local_dir {
            Some(d) => join_path(d, "libcrun-shim"),
            None => String::from_str("~/.local/share/libcrun-shim"),
        });
        extra.push(match home_dir {
            Some(h) => join_path(h, ".libcrun-shim"),
            None => String::from_str("~/.libcrun-shim"),
        });
        extra.push(match current_dir {
            Some(c) => String::from_str(c),
            None => String::from_str("."),
        });
        let ghost ev = strs(extra@);
        let ghost base = strs(self.vm_asset_paths@);
        proof {
            assert(ev =~= default_asset_dirs(text_of(data_local_dir), text_of(home_dir), text_of(current_dir)));
            assert(ev.take(0) =~= Seq::<Seq<char>>::empty());
        }
        let mut k: usize = 0;
        while k < extra.len()
            invariant
                k <= extra@.len(),
                ev == strs(extra@),
                strs(paths@) == add_new_paths(base, ev.take(k as int)),
            decreases extra@.len() - k,
        {
            proof {
                assert(ev.take(k + 1).drop_last() =~= ev.take(k as int));
                assert(ev.take(k + 1).last() == ev[k as int]);
                assert(ev[k as int] == extra@[k as int]@);
            }
            if !holds_path(&paths, extra[k].as_str()) {
                let ghost prev = paths@;
                paths.push(String::from_str(extra[k].as_str()));
                proof {
                    assert(strs(paths@) =~= strs(prev).push(extra@[k as int]@));
                }
            }
            k = k + 1;
        }
        proof {
            assert(ev.take(k as int) =~= ev);
        }
        paths
    }
}

/// Builder for [`RuntimeConfig`]; what is not set takes its default.
#[derive(Debug, Clone)]
pub struct RuntimeConfigBuilder {
    socket_path: Option<String>,
    vsock_port: Option<u32>,
    vm_asset_paths: Vec<String>,
    vm_memory: Option<u64>,
    vm_cpus: Option<u32>,
    connection_timeout: Option<u64>,
}

impl RuntimeConfigBuilder {
    /// The socket path set so far.
    pub closed spec fn spec_socket_path(&self) -> Option<Seq<char>> {
        match self.socket_path {
            Some(p) => Some(p@),
            None => None,
        }
    }

    /// The vsock port set so far.
    pub closed spec fn spec_vsock_port(&self) -> Option<u32> {
        self.vsock_port
    }

    /// The VM asset paths added so far, in order.
    pub closed spec fn spec_vm_asset_paths(&self) -> Seq<Seq<char>> {
        self.vm_asset_paths@.map_values(|p: String| p@)
    }

    /// The VM memory set so far.
    pub closed spec fn spec_vm_memory(&self) -> Option<u64> {
        self.vm_memory
    }

    /// The VM CPU count set so far.
    pub closed spec fn spec_vm_cpus(&self) -> Option<u32> {
        self.vm_cpus
    }

    /// The connection timeout set so far.
    pub closed spec fn spec_connection_timeout(&self) -> Option<u64> {
        self.connection_timeout
    }

    /// Sets the agent socket path.
    pub fn socket_path(self, path: &str) -> (b: Self)
        ensures
            builder_state(&b) == builder_step(builder_state(&self), BuilderCall::SocketPath(path@)),
            b.spec_socket_path() == Some(path@),
            b.spec_vsock_port() == self.spec_vsock_port(),
            b.spec_vm_asset_paths() == self.spec_vm_asset_paths(),
            b.spec_vm_memory() == self.spec_vm_memory(),
            b.spec_vm_cpus() == self.spec_vm_cpus(),
            b.spec_connection_timeout() == self.spec_connection_timeout(),
    {
        let mut b = self;
        b.socket_path = Some(String::from_str(path));
        b
    }

    /// Sets the vsock port.
    pub fn vsock_port(self, port: u32) -> (b: Self)
        ensures
            builder_state(&b) == builder_step(builder_state(&self), BuilderCall::VsockPort(port)),
            b.spec_socket_path() == self.spec_socket_path(),
            b.spec_vsock_port() == Some(port),
            b.spec_vm_asset_paths() == self.spec_vm_asset_paths(),
            b.spec_vm_memory() == self.spec_vm_memory(),
            b.spec_vm_cpus() == self.spec_vm_cpus(),
            b.spec_connection_timeout() == self.spec_connection_timeout(),
    {
        let mut b = self;
        b.vsock_port = Some(port);
        b
    }

    /// Adds a path to search for VM assets.
    pub fn add_vm_asset_path(self, path: &str) -> (b: Self)
        ensures
            builder_state(&b) == builder_step(builder_state(&self), BuilderCall::AddVmAssetPath(path@)),
            b.spec_socket_path() == self.spec_socket_path(),
            b.spec_vsock_port() == self.spec_vsock_port(),
            b.spec_vm_asset_paths() == self.spec_vm_asset_paths().push(path@),
            b.spec_vm_memory() == self.spec_vm_memory(),
            b.spec_vm_cpus() == self.spec_vm_cpus(),
            b.spec_connection_timeout() == self.spec_connection_timeout(),
    {
        let mut b = self;
        let ghost before = b.vm_asset_paths@;
        b.vm_asset_paths.push(String::from_str(path));
        proof {
            assert(b.vm_asset_paths@.map_values(|p: String| p@) =~= before.map_values(|p: String| p@).push(path@));
        }
        b
    }

    /// Sets the VM memory in bytes.
    pub fn vm_memory(self, bytes: u64) -> (b: Self)
        ensures
            builder_state(&b) == builder_step(builder_state(&self), BuilderCall::VmMemory(bytes)),
            b.spec_socket_path() == self.spec_socket_path(),
            b.spec_vsock_port() == self.spec_vsock_port(),
            b.spec_vm_asset_paths() == self.spec_vm_asset_paths(),
            b.spec_vm_memory() == Some(bytes),
            b.spec_vm_cpus() == self.spec_vm_cpus(),
            b.spec_connection_timeout() == self.spec_connection_timeout(),
    {
        let mut b = self;
        b.vm_memory = Some(bytes);
        b
    }

    /// Sets the number of VM CPUs.
    pub fn vm_cpus(self, cpus: u32) -> (b: Self)
        ensures
            builder_state(&b) == builder_step(builder_state(&self), BuilderCall::VmCpus(cpus)),
            b.spec_socket_path() == self.spec_socket_path(),
            b.spec_vsock_port() == self.spec_vsock_port(),
            b.spec_vm_asset_paths() == self.spec_vm_asset_paths(),
            b.spec_vm_memory() == self.spec_vm_memory(),
            b.spec_vm_cpus() == Some(cpus),
            b.spec_connection_timeout() == self.spec_connection_timeout(),
    {
        let mut b = self;
        b.vm_cpus = Some(cpus);
        b
    }

    /// Sets the connection timeout in seconds.
    pub fn connection_timeout(self, seconds: u64) -> (b: Self)
        ensures
            builder_state(&b) == builder_step(builder_state(&self), BuilderCall::ConnectionTimeout(seconds)),
            b.spec_socket_path() == self.spec_socket_path(),
            b.spec_vsock_port() == self.spec_vsock_port(),
            b.spec_vm_asset_paths() == self.spec_vm_asset_paths(),
            b.spec_vm_memory() == self.spec_vm_memory(),
            b.spec_vm_cpus() == self.spec_vm_cpus(),
            b.spec_connection_timeout() == Some(seconds),
    {
        let mut b = self;
        b.connection_timeout = Some(seconds);
        b
    }

    /// The configuration: each value as set, or its default.
    pub fn build(self) -> (c: RuntimeConfig)
        ensures
            built_from(c, builder_state(&self)),
            c.socket_path@ == (match self.spec_socket_path() {
                Some(p) => p,
                None => "/tmp/libcrun-shim.sock"@,
            }),
            c.vsock_port == (match self.spec_vsock_port() {
                Some(p) => p,
                None => 1234,
            }),
            c.vm_asset_paths@.map_values(|p: String| p@) == self.spec_vm_asset_paths(),
            c.vm_memory == (match self.spec_vm_memory() {
                Some(m) => m,
                None => 2147483648u64,
            }),
            c.vm_cpus == (match self.spec_vm_cpus() {
                Some(n) => n,
                None => 4,
            }),
            c.connection_timeout == (match self.spec_connection_timeout() {
                Some(t) => t,
                None => 30,
            }),
    {
        RuntimeConfig {
            socket_path: match self.socket_path {
                Some(p) => p,
                None => default_socket_path(),
            },
            vsock_port: match self.vsock_port {
                Some(p) => p,
                None => default_vsock_port(),
            },
            vm_asset_paths: self.vm_asset_paths,
            vm_memory: match self.vm_memory {
                Some(m) => m,
                None => default_vm_memory(),
            },
            vm_cpus: match self.vm_cpus {
                Some(n) => n,
                None => default_vm_cpus(),
            },
            connection_timeout: match self.connection_timeout {
                Some(t) => t,
                None => default_connection_timeout(),
            },
        }
    }
}

impl Default for RuntimeConfigBuilder {
    /// A builder with nothing set.
    fn default() -> (b: Self)
        ensures
            builder_state(&b) == initial_builder_state(),
    {
        RuntimeConfig::builder()
    }
}

/// What a runtime configuration builder holds: each value set so far, and the
/// VM asset paths added so far.
pub struct BuilderState {
    pub socket_path: Option<Seq<char>>,
    pub vsock_port: Option<u32>,
    pub vm_asset_paths: Seq<Seq<char>>,
    pub vm_memory: Option<u64>,
    pub vm_cpus: Option<u32>,
    pub connection_timeout: Option<u64>,
}

/// A setter call on a runtime configuration builder, with its argument.
pub enum BuilderCall {
    SocketPath(Seq<char>),
    VsockPort(u32),
    AddVmAssetPath(Seq<char>),
    VmMemory(u64),
    VmCpus(u32),
    ConnectionTimeout(u64),
}

/// What a builder holds.
pub open spec fn builder_state(b: &RuntimeConfigBuilder) -> BuilderState {
    BuilderState {
        socket_path: b.spec_socket_path(),
        vsock_port: b.spec_vsock_port(),
        vm_asset_paths: b.spec_vm_asset_paths(),
        vm_memory: b.spec_vm_memory(),
        vm_cpus: b.spec_vm_cpus(),
        connection_timeout: b.spec_connection_timeout(),
    }
}

/// What a new builder holds: nothing.
pub open spec fn initial_builder_state() -> BuilderState {
    BuilderState {
        socket_path: None,
        vsock_port: None,
        vm_asset_paths: Seq::empty(),
        vm_memory: None,
        vm_cpus: None,
        connection_timeout: None,
    }
}

/// What a builder holds after one setter call: that call's value set (or its
/// path added), everything else kept.
pub open spec fn builder_step(s: BuilderState, call: BuilderCall) -> BuilderState {
    match call {
        BuilderCall::SocketPath(p) => BuilderState { socket_path: Some(p), ..s },
        BuilderCall::VsockPort(p) => BuilderState { vsock_port: Some(p), ..s },
        BuilderCall::AddVmAssetPath(p) => BuilderState { vm_asset_paths: s.vm_asset_paths.push(p), ..s },
        BuilderCall::VmMemory(m) => BuilderState { vm_memory: Some(m), ..s },
        BuilderCall::VmCpus(n) => BuilderState { vm_cpus: Some(n), ..s },
        BuilderCall::ConnectionTimeout(t) => BuilderState { connection_timeout: Some(t), ..s },
    }
}

/// What a new builder holds after the given setter calls, in order.
pub open spec fn state_after_calls(calls: Seq<BuilderCall>) -> BuilderState
    decreases calls.len(),
{
    if calls.len() == 0 {
        initial_builder_state()
    } else {
        builder_step(state_after_calls(calls.drop_last()), calls.last())
    }
}

/// Whether `c` is the configuration built from what a builder holds: each
/// value as set, or its default.
pub open spec fn built_from(c: RuntimeConfig, s: BuilderState) -> bool {
    &&& c.socket_path@ == (match s.socket_path { Some(p) => p, None => "/tmp/libcrun-shim.sock"@ })
    &&& c.vsock_port == (match s.vsock_port { Some(p) => p, None => 1234 })
    &&& c.vm_asset_paths@.map_values(|p: String| p@) == s.vm_asset_paths
    &&& c.vm_memory == (match s.vm_memory { Some(m) => m, None => 2147483648u64 })
    &&& c.vm_cpus == (match s.vm_cpus { Some(n) => n, None => 4 })
    &&& c.connection_timeout == (match s.connection_timeout { Some(t) => t, None => 30 })
}

/// The argument of the last socket path call, if any.
pub open spec fn last_socket_path(calls: Seq<BuilderCall>) -> Option<Seq<char>>
    decreases calls.len(),
{
    if calls.len() == 0 {
        None
    } else if let BuilderCall::SocketPath(p) = calls.last() {
        Some(p)
    } else {
        last_socket_path(calls.drop_last())
    }
}

/// The argument of the last vsock port call, if any.
pub open spec fn last_vsock_port(calls: Seq<BuilderCall>) -> Option<u32>
    decreases calls.len(),
{
    if calls.len() == 0 {
        None
    } else if let BuilderCall::VsockPort(p) = calls.last() {
        Some(p)
    } else {
        last_vsock_port(calls.drop_last())
    }
}

/// The argument of the last VM memory call, if any.
pub open spec fn last_vm_memory(calls: Seq<BuilderCall>) -> Option<u64>
    decreases calls.len(),
{
    if calls.len() == 0 {
        None
    } else if let BuilderCall::VmMemory(m) = calls.last() {
        Some(m)
    } else {
        last_vm_memory(calls.drop_last())
    }
}

/// The argument of the last VM CPU count call, if any.
pub open spec fn last_vm_cpus(calls: Seq<BuilderCall>) -> Option<u32>
    decreases calls.len(),
{
    if calls.len() == 0 {
        None
    } else if let BuilderCall::VmCpus(n) = calls.last() {
        Some(n)
    } else {
        last_vm_cpus(calls.drop_last())
    }
}

/// The argument of the last connection timeout call, if any.
pub open spec fn last_connection_timeout(calls: Seq<BuilderCall>) -> Option<u64>
    decreases calls.len(),
{
    if calls.len() == 0 {
        None
    } else if let BuilderCall::ConnectionTimeout(t) = calls.last() {
        Some(t)
    } else {
        last_connection_timeout(calls.drop_last())
    }
}

/// The arguments of the VM asset path calls, in call order.
pub open spec fn added_asset_paths(calls: Seq<BuilderCall>) -> Seq<Seq<char>>
    decreases calls.len(),
{
    if calls.len() == 0 {
        Seq::empty()
    } else if let BuilderCall::AddVmAssetPath(p) = calls.last() {
        added_asset_paths(calls.drop_last()).push(p)
    } else {
        added_asset_paths(calls.drop_last())
    }
}

proof fn lemma_state_after_calls(calls: Seq<BuilderCall>)
    ensures
        state_after_calls(calls).socket_path == last_socket_path(calls),
        state_after_calls(calls).vsock_port == last_vsock_port(calls),
        state_after_calls(calls).vm_asset_paths == added_asset_paths(calls),
        state_after_calls(calls).vm_memory == last_vm_memory(calls),
        state_after_calls(calls).vm_cpus == last_vm_cpus(calls),
        state_after_calls(calls).connection_timeout == last_connection_timeout(calls),
    decreases calls.len(),
{
    if calls.len() > 0 {
        lemma_state_after_calls(calls.drop_last());
    }
}

/// Law: a builder made by `RuntimeConfig::builder()` that takes any sequence
/// of setter calls builds a configuration in which each value is the argument
/// of the last call that set it, or its default when no call set it, and the
/// VM asset paths are the added paths in call order.
pub proof fn law_build_takes_last_set(calls: Seq<BuilderCall>, c: RuntimeConfig)
    requires
        built_from(c, state_after_calls(calls)),
    ensures
        c.socket_path@ == (match last_socket_path(calls) { Some(p) => p, None => "/tmp/libcrun-shim.sock"@ }),
        c.vsock_port == (match last_vsock_port(calls) { Some(p) => p, None => 1234 }),
        c.vm_asset_paths@.map_values(|p: String| p@) == added_asset_paths(calls),
        c.vm_memory == (match last_vm_memory(calls) { Some(m) => m, None => 2147483648u64 }),
        c.vm_cpus == (match last_vm_cpus(calls) { Some(n) => n, None => 4 }),
        c.connection_timeout == (match last_connection_timeout(calls) { Some(t) => t, None => 30 }),
{
    lemma_state_after_calls(calls);
}

/// The kind of a container event.
#[derive(Clone, Copy, Debug, PartialEq, Eq, Structural)]
pub enum ContainerEventType {
    Create,
    Start,
    Stop,
    Kill,
    Die,
    Delete,
    Pause,
    Unpause,
    HealthOk,
    HealthFail,
    Oom,
    ExecStart,
    ExecDie,
}

/// Something that happened to a container.
#[derive(Debug, Clone)]
pub struct ContainerEvent {
    pub event_type: ContainerEventType,
    pub container_id: String,
    /// When it happened, in seconds since the epoch.
    pub timestamp: u64,
    pub exit_code: Option<i32>,
    pub signal: Option<i32>,
}

impl ContainerEvent {
    /// An event of the given type for the given container at the given time.
    pub fn new(event_type: ContainerEventType, container_id: &str, timestamp: u64) -> (e: ContainerEvent)
        ensures
            e.event_type == event_type,
            e.container_id@ == container_id@,
            e.timestamp == timestamp,
            e.exit_code is None,
            e.signal is None,
    {
        ContainerEvent {
            event_type,
            container_id: String::from_str(container_id),
            timestamp,
            exit_code: None,
            signal: None,
        }
    }

    /// The die event of a container whose process exited with `exit_code`.
    pub fn die(container_id: &str, exit_code: i32, timestamp: u64) -> (e: ContainerEvent)
        ensures
            e.event_type == ContainerEventType::Die,
            e.container_id@ == container_id@,
            e.timestamp == timestamp,
            e.exit_code == Some(exit_code),
            e.signal is None,
    {
        ContainerEvent::new(ContainerEventType::Die, container_id, timestamp).with_exit_code(exit_code)
    }

    /// The event with the given exit code.
    pub fn with_exit_code(self, code: i32) -> (e: ContainerEvent)
        ensures
            e.event_type == self.event_type,
            e.container_id == self.container_id,
            e.timestamp == self.timestamp,
            e.exit_code == Some(code),
            e.signal == self.signal,
    {
        let mut e = self;
        e.exit_code = Some(code);
        e
    }

    /// The event with the given signal.
    pub fn with_signal(self, signal: i32) -> (e: ContainerEvent)
        ensures
            e.event_type == self.event_type,
            e.container_id == self.container_id,
            e.timestamp == self.timestamp,
            e.exit_code == self.exit_code,
            e.signal == Some(signal),
    {
        let mut e = self;
        e.signal = Some(signal);
        e
    }
}

/// The event type of a health check result.
pub fn health_event_type(healthy: bool) -> (t: ContainerEventType)
    ensures
        t == (if healthy { ContainerEventType::HealthOk } else { ContainerEventType::HealthFail }),
{
    if healthy {
        ContainerEventType::HealthOk
    } else {
        ContainerEventType::HealthFail
    }
}

} // verus!
