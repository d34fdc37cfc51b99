//! The OCI runtime configuration that the runtime hands to the container
//! engine, as a value: which mounts, limits and namespaces a container gets.

use vstd::prelude::*;
use vstd::string::*;
use crate::proto::{NetworkConfigProto, StdioConfigProto, VolumeMountProto};
use crate::text::{starts_with, starts_with_spec, str_eq, strs};
use crate::types::{ContainerConfig, ResourceLimits};

verus! {

/// A mount of the container's filesystem.
#[derive(Debug)]
pub struct OciMount {
    pub destination: String,
    pub mount_type: String,
    pub source: String,
    /// Mount options; absent when there are none to give.
    pub options: Option<Vec<String>>,
}

/// The mathematical value of an [`OciMount`].
pub struct OciMountView {
    pub destination: Seq<char>,
    pub mount_type: Seq<char>,
    pub source: Seq<char>,
    pub options: Option<Seq<Seq<char>>>,
}

impl View for OciMount {
    type V = OciMountView;

    open spec fn view(&self) -> OciMountView {
        OciMountView {
            destination: self.destination@,
            mount_type: self.mount_type@,
            source: self.source@,
            options: match self.options {
                Some(o) => Some(strs(o@)),
                None => None,
            },
        }
    }
}

/// A resource limit of the container's process.
#[derive(Debug)]
pub struct OciRlimit {
    /// The limit's name, such as `RLIMIT_NOFILE`.
    pub kind: String,
    pub hard: u64,
    pub soft: u64,
}

/// CPU controls of the container.
#[derive(Debug, Clone, Copy)]
pub struct OciCpu {
    pub shares: u64,
    pub quota: i64,
    pub period: u64,
}

/// Memory controls of the container; a value is absent when not limited.
#[derive(Debug, Clone, Copy)]
pub struct OciMemory {
    pub limit: Option<u64>,
    pub swap: Option<u64>,
}

/// A rule of the device cgroup: whether the access it names (`r`ead,
/// `w`rite, `m`knod) is allowed, for every device.
#[derive(Debug)]
pub struct OciDeviceRule {
    pub allow: bool,
    pub access: String,
}

/// The device rules of every container: one rule that denies all devices
/// read, write and mknod access.
pub fn device_rules() -> (r: Vec<OciDeviceRule>)
    ensures
        r@.len() == 1,
        !r@[0].allow,
        r@[0].access@ == "rwm"@,
{
    let mut r: Vec<OciDeviceRule> = Vec::new();
    r.push(OciDeviceRule { allow: false, access: String::from_str("rwm") });
    r
}

/// The cgroup resources of the container.
#[derive(Debug, Clone, Copy)]
pub struct OciResources {
    pub cpu: Option<OciCpu>,
    pub memory: Option<OciMemory>,
}

/// The Linux section of the configuration.
#[derive(Debug)]
pub struct OciLinux {
    pub resources: OciResources,
    /// The device cgroup rules, part of the resources section.
    pub devices: Vec<OciDeviceRule>,
    /// The namespace types the container gets.
    pub namespaces: Vec<String>,
    pub masked_paths: Vec<String>,
    pub readonly_paths: Vec<String>,
}

/// The container's process. The process runs as uid 0, gid 0.
#[derive(Debug)]
pub struct OciProcess {
    pub terminal: bool,
    pub args: Vec<String>,
    pub env: Vec<String>,
    pub cwd: String,
    /// The capabilities, the same set for the bounding, effective, inheritable,
    /// permitted and ambient sets; absent when none are given.
    pub capabilities: Option<Vec<String>>,
    pub rlimits: Option<Vec<OciRlimit>>,
    pub no_new_privileges: Option<bool>,
}

/// An OCI runtime configuration (version 1.0.0).
#[derive(Debug)]
pub struct OciConfig {
    pub process: OciProcess,
    pub root_path: String,
    pub root_readonly: bool,
    pub hostname: Option<String>,
    pub mounts: Option<Vec<OciMount>>,
    pub linux: Option<OciLinux>,
}

/// The search path a container gets when its environment sets none.
pub open spec fn default_path_entry() -> Seq<char> {
    "PATH=/usr/local/sbin:/usr/local/bin:/usr/sbin:/usr/bin:/sbin:/bin"@
}

/// The environment with a search path: `env` itself when one of its entries
/// starts with `PATH=`, else `env` followed by the default search path.
pub open spec fn env_with_path(env: Seq<Seq<char>>) -> Seq<Seq<char>> {
    if exists|i: int| 0 <= i < env.len() && starts_with_spec(#[trigger] env[i], "PATH="@) {
        env
    } else {
        env.push(default_path_entry())
    }
}

/// A container's environment always sets `PATH`, and keeps every entry it
/// was given, in order, at its front; a second pass changes nothing.
pub proof fn law_env_always_has_path(env: Seq<Seq<char>>)
    ensures
        exists|i: int| 0 <= i < env_with_path(env).len() && starts_with_spec(#[trigger] env_with_path(env)[i], "PATH="@),
        env_with_path(env).take(env.len() as int) == env,
        env_with_path(env_with_path(env)) == env_with_path(env),
{
    reveal_strlit("PATH=");
    reveal_strlit("PATH=/usr/local/sbin:/usr/local/bin:/usr/sbin:/usr/bin:/sbin:/bin");
    let e = env_with_path(env);
    if !(exists|i: int| 0 <= i < env.len() && starts_with_spec(#[trigger] env[i], "PATH="@)) {
        assert(e[env.len() as int] == default_path_entry());
        assert(default_path_entry().take(5) =~= "PATH="@);
        assert(starts_with_spec(e[env.len() as int], "PATH="@));
    }
    assert(e.take(env.len() as int) =~= env);
}

/// Adds the default search path to `env` unless an entry sets `PATH`.
pub fn ensure_path(env: &Vec<String>) -> (r: Vec<String>)
    ensures
        strs(r@) == env_with_path(strs(env@)),
{
    let mut r: Vec<String> = Vec::new();
    let mut has_path = false;
    let mut i: usize = 0;
    while i < env.len()
        invariant
            i <= env@.len(),
            strs(r@) == strs(env@).take(i as int),
            has_path == exists|j: int| 0 <= j < i && starts_with_spec(#[trigger] strs(env@)[j], "PATH="@),
        decreases env@.len() - i,
    {
        let ghost prev = r@;
        if starts_with(env[i].as_str(), "PATH=") {
            has_path = true;
        }
        r.push(env[i].clone());
        proof {
            assert(strs(r@) =~= strs(prev).push(env@[i as int]@));
            assert(strs(r@) =~= strs(env@).take(i + 1));
            if has_path {
                if starts_with_spec(strs(env@)[i as int], "PATH="@) {
                    assert(exists|j: int| 0 <= j < i + 1 && starts_with_spec(#[trigger] strs(env@)[j], "PATH="@));
                }
            }
        }
        i = i + 1;
    }
    proof {
        assert(strs(env@).take(i as int) =~= strs(env@));
    }
    if !has_path {
        let ghost prev = r@;
        r.push(String::from_str("PATH=/usr/local/sbin:/usr/local/bin:/usr/sbin:/usr/bin:/sbin:/bin"));
        proof {
            assert(strs(r@) =~= strs(prev).push(default_path_entry()));
        }
    }
    r
}

/// A list of string literals as owned strings.
fn owned(a: &str, b: &str, c: &str, d: &str, e: &str) -> (r: Vec<String>)
    ensures
        strs(r@) == seq![a@, b@, c@, d@, e@],
{
    let mut r: Vec<String> = Vec::new();
    r.push(String::from_str(a));
    r.push(String::from_str(b));
    r.push(String::from_str(c));
    r.push(String::from_str(d));
    r.push(String::from_str(e));
    assert(strs(r@) =~= seq![a@, b@, c@, d@, e@]);
    r
}

/// The mounts every container gets: /proc, /dev, /dev/pts, /dev/shm, /sys.
pub open spec fn default_mounts() -> Seq<OciMountView> {
    seq![
        OciMountView { destination: "/proc"@, mount_type: "proc"@, source: "proc"@, options: None },
        OciMountView {
            destination: "/dev"@,
            mount_type: "tmpfs"@,
            source: "tmpfs"@,
            options: Some(seq!["nosuid"@, "strictatime"@, "mode=755"@, "size=65536k"@]),
        },
        OciMountView {
            destination: "/dev/pts"@,
            mount_type: "devpts"@,
            source: "devpts"@,
            options: Some(seq!["nosuid"@, "noexec"@, "newinstance"@, "ptmxmode=0666"@, "mode=0620"@]),
        },
        OciMountView {
            destination: "/dev/shm"@,
            mount_type: "tmpfs"@,
            source: "shm"@,
            options: Some(seq!["nosuid"@, "noexec"@, "nodev"@, "mode=1777"@, "size=65536k"@]),
        },
        OciMountView {
            destination: "/sys"@,
            mount_type: "sysfs"@,
            source: "sysfs"@,
            options: Some(seq!["nosuid"@, "noexec"@, "nodev"@, "ro"@]),
        },
    ]
}

fn mount(destination: &str, mount_type: &str, source: &str, options: Option<Vec<String>>) -> (m: OciMount)
    ensures
        m.destination@ == destination@,
        m.mount_type@ == mount_type@,
        m.source@ == source@,
        m.options == options,
{
    OciMount {
        destination: String::from_str(destination),
        mount_type: String::from_str(mount_type),
        source: String::from_str(source),
        options,
    }
}

/// The bind mount of a user volume; options are given only when there are some.
pub open spec fn volume_mount_view(v: VolumeMountProto) -> OciMountView {
    OciMountView {
        destination: v.destination@,
        mount_type: "bind"@,
        source: v.source@,
        options: if v.options@.len() == 0 { None } else { Some(strs(v.options@)) },
    }
}

/// The mounts of a container: the default mounts, then one bind mount per volume.
pub open spec fn mounts_spec(volumes: Seq<VolumeMountProto>) -> Seq<OciMountView> {
    default_mounts() + volumes.map_values(|v: VolumeMountProto| volume_mount_view(v))
}

fn clone_strings(v: &Vec<String>) -> (r: Vec<String>)
    ensures
        strs(r@) == strs(v@),
{
    let mut r: Vec<String> = Vec::new();
    let mut i: usize = 0;
    while i < v.len()
        invariant
            i <= v@.len(),
            strs(r@) == strs(v@).take(i as int),
        decreases v@.len() - i,
    {
        let ghost prev = r@;
        r.push(v[i].clone());
        proof {
            assert(strs(r@) =~= strs(prev).push(v@[i as int]@));
            assert(strs(r@) =~= strs(v@).take(i + 1));
        }
        i = i + 1;
    }
    proof {
        assert(strs(v@).take(i as int) =~= strs(v@));
    }
    r
}

/// The mounts of a container with the given volumes.
pub fn build_mounts(volumes: &Vec<VolumeMountProto>) -> (r: Vec<OciMount>)
    ensures
        r@.map_values(|m: OciMount| m@) == mounts_spec(volumes@),
{
    let mut r: Vec<OciMount> = Vec::new();
    r.push(mount("/proc", "proc", "proc", None));
    let o1 = {
        let mut o: Vec<String> = Vec::new();
        o.push(String::from_str("nosuid"));
        o.push(String::from_str("strictatime"));
        o.push(String::from_str("mode=755"));
        o.push(String::from_str("size=65536k"));
        assert(strs(o@) =~= seq!["nosuid"@, "strictatime"@, "mode=755"@, "size=65536k"@]);
        o
    };
    r.push(mount("/dev", "tmpfs", "tmpfs", Some(o1)));
    r.push(mount("/dev/pts", "devpts", "devpts", Some(owned("nosuid", "noexec", "newinstance", "ptmxmode=0666", "mode=0620"))));
    r.push(mount("/dev/shm", "tmpfs", "shm", Some(owned("nosuid", "noexec", "nodev", "mode=1777", "size=65536k"))));
    let o4 = {
        let mut o: Vec<String> = Vec::new();
        o.push(String::from_str("nosuid"));
        o.push(String::from_str("noexec"));
        o.push(String::from_str("nodev"));
        o.push(String::from_str("ro"));
        assert(strs(o@) =~= seq!["nosuid"@, "noexec"@, "nodev"@, "ro"@]);
        o
    };
    r.push(mount("/sys", "sysfs", "sysfs", Some(o4)));
    proof {
        assert(r@.map_values(|m: OciMount| m@) =~= default_mounts());
    }
    let mut i: usize = 0;
    while i < volumes.len()
        invariant
            i <= volumes@.len(),
            r@.map_values(|m: OciMount| m@) == default_mounts()
                + volumes@.take(i as int).map_values(|v: VolumeMountProto| volume_mount_view(v)),
        decreases volumes@.len() - i,
    {
        let v = &volumes[i];
        let options = if v.options.len() == 0 {
            None
        } else {
            Some(clone_strings(&v.options))
        };
        let ghost prev = r@;
        r.push(OciMount {
            destination: v.destination.clone(),
            mount_type: String::from_str("bind"),
            source: v.source.clone(),
            options,
        });
        proof {
            assert(volumes@.take(i + 1).map_values(|v: VolumeMountProto| volume_mount_view(v))
                =~= volumes@.take(i as int).map_values(|v: VolumeMountProto| volume_mount_view(v)).push(volume_mount_view(volumes@[i as int])));
            assert(r@.map_values(|m: OciMount| m@) =~= prev.map_values(|m: OciMount| m@).push(volume_mount_view(volumes@[i as int])));
        }
        i = i + 1;
    }
    proof {
        assert(volumes@.take(i as int) =~= volumes@);
    }
    r
}

/// The value of an [`OciRlimit`].
pub open spec fn rlimit_view(r: OciRlimit) -> (Seq<char>, u64, u64) {
    (r.kind@, r.hard, r.soft)
}

/// The resource limits of the container's process: at most 1024 open files;
/// an address-space limit equal to a positive memory limit; a process-count
/// limit equal to a positive PID limit.
pub open spec fn rlimits_spec(resources: ResourceLimits) -> Seq<(Seq<char>, u64, u64)> {
    let base = seq![("RLIMIT_NOFILE"@, 1024u64, 1024u64)];
    let with_memory = match resources.memory {
        Some(m) if m > 0 => base.push(("RLIMIT_AS"@, m, m)),
        _ => base,
    };
    match resources.pids {
        Some(p) if p > 0 => with_memory.push(("RLIMIT_NPROC"@, p as u64, p as u64)),
        _ => with_memory,
    }
}

/// The resource limits of the container's process.
pub fn build_rlimits(resources: &ResourceLimits) -> (r: Vec<OciRlimit>)
    ensures
        r@.map_values(|x: OciRlimit| rlimit_view(x)) == rlimits_spec(*resources),
{
    let mut r: Vec<OciRlimit> = Vec::new();
    r.push(OciRlimit { kind: String::from_str("RLIMIT_NOFILE"), hard: 1024, soft: 1024 });
    let ghost base = r@;
    if let Some(m) = resources.memory {
        if m > 0 {
            r.push(OciRlimit { kind: String::from_str("RLIMIT_AS"), hard: m, soft: m });
        }
    }
    let ghost mid = r@;
    if let Some(p) = resources.pids {
        if p > 0 {
            r.push(OciRlimit { kind: String::from_str("RLIMIT_NPROC"), hard: p as u64, soft: p as u64 });
        }
    }
    proof {
        assert(base.map_values(|x: OciRlimit| rlimit_view(x)) =~= seq![("RLIMIT_NOFILE"@, 1024u64, 1024u64)]);
        assert(mid.map_values(|x: OciRlimit| rlimit_view(x)) =~= match resources.memory {
            Some(m) if m > 0 => seq![("RLIMIT_NOFILE"@, 1024u64, 1024u64)].push(("RLIMIT_AS"@, m, m)),
            _ => seq![("RLIMIT_NOFILE"@, 1024u64, 1024u64)],
        });
        assert(r@.map_values(|x: OciRlimit| rlimit_view(x)) =~= rlimits_spec(*resources));
    }
    r
}

/// CPU shares for a limit of `millis` thousandths of a core: 1024 per core,
/// rounded down, at most `u64::MAX`.
pub open spec fn cpu_shares(millis: u64) -> u64 {
    if millis * 1024 / 1000 > u64::MAX { u64::MAX } else { (millis * 1024 / 1000) as u64 }
}

/// The CFS quota for a limit of `millis` thousandths of a core over a period
/// of 100000 µs, at most `i64::MAX`.
pub open spec fn cpu_quota(millis: u64) -> i64 {
    if millis * 100 > i64::MAX { i64::MAX } else { (millis * 100) as i64 }
}

/// The cgroup resources of a container: CPU controls for a positive CPU
/// limit; a memory limit and swap limit for positive values. Both sections
/// are considered only when a CPU or memory limit is given at all.
pub open spec fn resources_spec(r: ResourceLimits) -> OciResources {
    if r.cpu_millis is Some || r.memory is Some {
        let cpu = match r.cpu_millis {
            Some(c) if c > 0 => Some(OciCpu { shares: cpu_shares(c), quota: cpu_quota(c), period: 100000 }),
            _ => None,
        };
        let limit = match r.memory {
            Some(m) if m > 0 => Some(m),
            _ => None,
        };
        let swap = match r.memory_swap {
            Some(s) if s > 0 => Some(s),
            _ => None,
        };
        let memory = if limit is Some || swap is Some { Some(OciMemory { limit, swap }) } else { None };
        OciResources { cpu, memory }
    } else {
        OciResources { cpu: None, memory: None }
    }
}

/// What a container's resource limits give in its cgroup resources: with no
/// CPU or memory limit there are none; otherwise a positive memory limit and a
/// positive swap limit are each kept as given, a positive CPU limit gives CPU
/// controls over a period of 100000 µs, and memory controls are present
/// exactly when a positive memory or swap limit is given.
pub proof fn law_resources_keep_limits(r: ResourceLimits)
    ensures
        r.cpu_millis is None && r.memory is None ==> resources_spec(r).cpu is None && resources_spec(r).memory is None,
        (r.cpu_millis is Some || r.memory is Some) ==> {
            let o = resources_spec(r);
            let limit_given = r.memory is Some && r.memory->0 > 0;
            let swap_given = r.memory_swap is Some && r.memory_swap->0 > 0;
            &&& (o.memory is Some <==> (limit_given || swap_given))
            &&& swap_given ==> o.memory->0.swap == r.memory_swap
            &&& limit_given ==> o.memory->0.limit == r.memory
            &&& (o.memory is Some && !swap_given) ==> o.memory->0.swap is None
            &&& (o.memory is Some && !limit_given) ==> o.memory->0.limit is None
            &&& (o.cpu is Some <==> (r.cpu_millis is Some && r.cpu_millis->0 > 0))
            &&& o.cpu is Some ==> o.cpu->0.period == 100000
                && o.cpu->0.shares as int == (if r.cpu_millis->0 * 1024 / 1000 > u64::MAX {
                    u64::MAX as int
                } else {
                    r.cpu_millis->0 * 1024 / 1000
                })
        },
{
}

/// The cgroup resources of a container.
pub fn build_resources(r: &ResourceLimits) -> (o: OciResources)
    ensures
        o == resources_spec(*r),
{
    if r.cpu_millis.is_some() || r.memory.is_some() {
        let cpu = match r.cpu_millis {
            Some(c) => if c > 0 {
                let wide: u128 = (c as u128) * 1024 / 1000;
                let shares = if wide > u64::MAX as u128 {
                    u64::MAX
                } else {
                    wide as u64
                };
                let quota_wide: u128 = (c as u128) * 100;
                let quota = if quota_wide > i64::MAX as u128 {
                    i64::MAX
                } else {
                    quota_wide as i64
                };
                Some(OciCpu { shares, quota, period: 100000 })
            } else {
                None
            },
            None => None,
        };
        let limit = match r.memory {
            Some(m) => if m > 0 { Some(m) } else { None },
            None => None,
        };
        let swap = match r.memory_swap {
            Some(s) => if s > 0 { Some(s) } else { None },
            None => None,
        };
        let memory = if limit.is_some() || swap.is_some() {
            Some(OciMemory { limit, swap })
        } else {
            None
        };
        OciResources { cpu, memory }
    } else {
        OciResources { cpu: None, memory: None }
    }
}

/// The namespaces of a container: pid, ipc, uts and mount, and a network
/// namespace unless the network mode is `host`.
pub open spec fn namespaces_spec(mode: Seq<char>) -> Seq<Seq<char>> {
    let base = seq!["pid"@, "ipc"@, "uts"@, "mount"@];
    if mode == "host"@ {
        base
    } else {
        base.push("network"@)
    }
}

/// The namespaces of a container in the given network mode.
pub fn build_namespaces(mode: &str) -> (r: Vec<String>)
    ensures
        strs(r@) == namespaces_spec(mode@),
{
    let mut r: Vec<String> = Vec::new();
    r.push(String::from_str("pid"));
    r.push(String::from_str("ipc"));
    r.push(String::from_str("uts"));
    r.push(String::from_str("mount"));
    let ghost base = r@;
    if !str_eq(mode, "host") {
        r.push(String::from_str("network"));
    }
    proof {
        assert(strs(base) =~= seq!["pid"@, "ipc"@, "uts"@, "mount"@]);
        assert(strs(r@) =~= namespaces_spec(mode@));
    }
    r
}

/// The capabilities a container keeps.
pub open spec fn capabilities_spec() -> Seq<Seq<char>> {
    seq!["CAP_AUDIT_WRITE"@, "CAP_KILL"@, "CAP_NET_BIND_SERVICE"@]
}

/// The paths masked inside a container.
pub open spec fn masked_paths_spec() -> Seq<Seq<char>> {
    seq![
        "/proc/kcore"@,
        "/proc/latency"@,
        "/proc/timer_list"@,
        "/proc/timer_stats"@,
        "/proc/sched_debug"@,
        "/proc/scsi"@,
        "/sys/firmware"@,
    ]
}

/// The paths read-only inside a container.
pub open spec fn readonly_paths_spec() -> Seq<Seq<char>> {
    seq!["/proc/asound"@, "/proc/bus"@, "/proc/fs"@, "/proc/irq"@, "/proc/sys"@, "/proc/sysrq-trigger"@]
}

fn capabilities() -> (r: Vec<String>)
    ensures
        strs(r@) == capabilities_spec(),
{
    let mut r: Vec<String> = Vec::new();
    r.push(String::from_str("CAP_AUDIT_WRITE"));
    r.push(String::from_str("CAP_KILL"));
    r.push(String::from_str("CAP_NET_BIND_SERVICE"));
    assert(strs(r@) =~= capabilities_spec());
    r
}

fn masked_paths() -> (r: Vec<String>)
    ensures
        strs(r@) == masked_paths_spec(),
{
    let mut r: Vec<String> = Vec::new();
    r.push(String::from_str("/proc/kcore"));
    r.push(String::from_str("/proc/latency"));
    r.push(String::from_str("/proc/timer_list"));
    r.push(String::from_str("/proc/timer_stats"));
    r.push(String::from_str("/proc/sched_debug"));
    r.push(String::from_str("/proc/scsi"));
    r.push(String::from_str("/sys/firmware"));
    assert(strs(r@) =~= masked_paths_spec());
    r
}

fn readonly_paths() -> (r: Vec<String>)
    ensures
        strs(r@) == readonly_paths_spec(),
{
    let mut r: Vec<String> = Vec::new();
    r.push(String::from_str("/proc/asound"));
    r.push(String::from_str("/proc/bus"));
    r.push(String::from_str("/proc/fs"));
    r.push(String::from_str("/proc/irq"));
    r.push(String::from_str("/proc/sys"));
    r.push(String::from_str("/proc/sysrq-trigger"));
    assert(strs(r@) =~= readonly_paths_spec());
    r
}

/// The full configuration the agent gives a container: a terminal when the
/// stdio asks for one; the command, the environment with a search path and
/// the working directory; the kept capabilities, the process limits and no new
/// privileges; the root filesystem, writable; the container id as hostname;
/// the default mounts and the volumes; the resources, namespaces and masked
/// and read-only paths.
pub fn build_agent_oci_config(
    rootfs: &str,
    command: &Vec<String>,
    env: &Vec<String>,
    working_dir: &str,
    container_id: &str,
    stdio: &StdioConfigProto,
    network: &NetworkConfigProto,
    volumes: &Vec<VolumeMountProto>,
    resources: &ResourceLimits,
) -> (c: OciConfig)
    ensures
        c.process.terminal == stdio.tty,
        strs(c.process.args@) == strs(command@),
        strs(c.process.env@) == env_with_path(strs(env@)),
        c.process.cwd@ == working_dir@,
        c.process.capabilities matches Some(caps) && strs(caps@) == capabilities_spec(),
        c.process.rlimits matches Some(rl) && rl@.map_values(|x: OciRlimit| rlimit_view(x)) == rlimits_spec(*resources),
        c.process.no_new_privileges == Some(true),
        c.root_path@ == rootfs@,
        !c.root_readonly,
        c.hostname matches Some(h) && h@ == container_id@,
        c.mounts matches Some(m) && m@.map_values(|m: OciMount| m@) == mounts_spec(volumes@),
        c.linux matches Some(l) && l.resources == resources_spec(*resources)
            && l.devices@.len() == 1 && !l.devices@[0].allow && l.devices@[0].access@ == "rwm"@
            && strs(l.namespaces@) == namespaces_spec(network.mode@)
            && strs(l.masked_paths@) == masked_paths_spec()
            && strs(l.readonly_paths@) == readonly_paths_spec(),
{
    OciConfig {
        process: OciProcess {
            terminal: stdio.tty,
            args: clone_strings(command),
            env: ensure_path(env),
            cwd: String::from_str(working_dir),
            capabilities: Some(capabilities()),
            rlimits: Some(build_rlimits(resources)),
            no_new_privileges: Some(true),
        },
        root_path: String::from_str(rootfs),
        root_readonly: false,
        hostname: Some(String::from_str(container_id)),
        mounts: Some(build_mounts(volumes)),
        linux: Some(OciLinux {
            resources: build_resources(resources),
            devices: device_rules(),
            namespaces: build_namespaces(network.mode.as_str()),
            masked_paths: masked_paths(),
            readonly_paths: readonly_paths(),
        }),
    }
}

/// The minimal configuration the native runtime gives a container: no
/// terminal; its command, environment and working directory; its root
/// filesystem, writable; nothing else.
pub fn build_runtime_oci_config(config: &ContainerConfig) -> (c: OciConfig)
    ensures
        !c.process.terminal,
        strs(c.process.args@) == strs(config.command@),
        strs(c.process.env@) == strs(config.env@),
        c.process.cwd@ == config.working_dir@,
        c.process.capabilities is None,
        c.process.rlimits is None,
        c.process.no_new_privileges is None,
        c.root_path@ == config.rootfs@,
        !c.root_readonly,
        c.hostname is None,
        c.mounts is None,
        c.linux is None,
{
    OciConfig {
        process: OciProcess {
            terminal: false,
            args: clone_strings(&config.command),
            env: clone_strings(&config.env),
            cwd: config.working_dir.clone(),
            capabilities: None,
            rlimits: None,
            no_new_privileges: None,
        },
        root_path: config.rootfs.clone(),
        root_readonly: false,
        hostname: None,
        mounts: None,
        linux: None,
    }
}

} // verus!
