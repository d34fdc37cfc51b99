//! The macOS side: the Linux virtual machine that runs the agent, the vsock
//! client that reaches it, and how agent replies become results.

use vstd::prelude::*;
use vstd::string::*;
use crate::error::ShimError;
use crate::path::{join_path, join_path_spec};
use crate::proto::{ContainerInfoProto, info_from_proto_spec, infos_from_proto};
use crate::types::ContainerInfo;

verus! {

/// The Linux virtual machine that hosts the agent.
pub struct VirtualMachine {
    vm_id: String,
    kernel_path: Option<String>,
    initramfs_path: Option<String>,
    is_running: bool,
}

/// The places searched for a VM asset called `name`, in order:
/// `vm-assets/<name>`, `../vm-assets/<name>`, `<crate_dir>/vm-assets/<name>`,
/// each joined as `Path::join` joins.
pub open spec fn vm_asset_candidates_spec(name: Seq<char>, crate_dir: Seq<char>) -> Seq<Seq<char>> {
    seq![
        join_path_spec("vm-assets"@, name),
        join_path_spec("../vm-assets"@, name),
        join_path_spec(join_path_spec(crate_dir, "vm-assets"@), name),
    ]
}

/// The places searched for a VM asset.
pub fn vm_asset_candidates(name: &str, crate_dir: &str) -> (r: Vec<String>)
    ensures
        r@.map_values(|s: String| s@) == vm_asset_candidates_spec(name@, crate_dir@),
{
    let a = join_path("vm-assets", name);
    let b = join_path("../vm-assets", name);
    let dir = join_path(crate_dir, "vm-assets");
    let c = join_path(dir.as_str(), name);
    let mut r: Vec<String> = Vec::new();
    r.push(a);
    r.push(b);
    r.push(c);
    assert(r@.map_values(|s: String| s@) =~= vm_asset_candidates_spec(name@, crate_dir@));
    r
}

impl VirtualMachine {
    /// Whether the VM runs.
    pub closed spec fn spec_running(&self) -> bool {
        self.is_running
    }

    /// The kernel image found, if any.
    pub closed spec fn spec_kernel(&self) -> Option<Seq<char>> {
        match self.kernel_path {
            Some(p) => Some(p@),
            None => None,
        }
    }

    /// The initial ramdisk found, if any.
    pub closed spec fn spec_initramfs(&self) -> Option<Seq<char>> {
        match self.initramfs_path {
            Some(p) => Some(p@),
            None => None,
        }
    }

    /// The VM's id.
    pub closed spec fn spec_id(&self) -> Seq<char> {
        self.vm_id@
    }

    /// The VM, started with the assets found (when an asset is missing, a VM
    /// started elsewhere is assumed): it counts as running.
    pub fn start_with_assets(kernel_path: Option<String>, initramfs_path: Option<String>) -> (vm: Self)
        ensures
            vm.spec_running(),
            vm.spec_id() == "libcrun-shim-vm"@,
            vm.spec_kernel() == (match kernel_path { Some(p) => Some(p@), None => None }),
            vm.spec_initramfs() == (match initramfs_path { Some(p) => Some(p@), None => None }),
    {
        VirtualMachine {
            vm_id: String::from_str("libcrun-shim-vm"),
            kernel_path,
            initramfs_path,
            is_running: true,
        }
    }

    /// Whether the VM runs.
    pub fn is_running(&self) -> (b: bool)
        ensures
            b == self.spec_running(),
    {
        self.is_running
    }

    /// The vsock port of the agent in the VM, 1234.
    pub fn get_vsock_port(&self) -> (p: u32)
        ensures
            p == 1234,
    {
        1234
    }

    /// Stops the VM.
    pub fn stop(&mut self)
        ensures
            !final(self).spec_running(),
            final(self).spec_id() == old(self).spec_id(),
            final(self).spec_kernel() == old(self).spec_kernel(),
            final(self).spec_initramfs() == old(self).spec_initramfs(),
    {
        self.is_running = false;
    }
}

/// A client of the agent's vsock endpoint.
pub struct VsockClient {
    port: u32,
    use_unix_fallback: bool,
}

impl VsockClient {
    /// The port the client connects to.
    pub closed spec fn spec_port(&self) -> u32 {
        self.port
    }

    /// Whether the client goes through the Unix socket instead of vsock.
    pub closed spec fn spec_unix_fallback(&self) -> bool {
        self.use_unix_fallback
    }

    /// A client for the given port; it goes through the Unix socket.
    pub fn new(port: u32) -> (c: Self)
        ensures
            c.spec_port() == port,
            c.spec_unix_fallback(),
    {
        VsockClient { port, use_unix_fallback: true }
    }

    /// The port the client connects to.
    pub fn port(&self) -> (p: u32)
        ensures
            p == self.spec_port(),
    {
        self.port
    }

    /// Where to connect: the agent's Unix socket when falling back, else an
    /// error (vsock itself is not available).
    pub fn connect_target(&self) -> (r: Result<String, ShimError>)
        ensures
            self.spec_unix_fallback() ==> (r matches Ok(p) && p@ == "/tmp/libcrun-shim.sock"@),
            !self.spec_unix_fallback() ==> (r matches Err(ShimError::Runtime { message, context: None })
                && message@ == "Vsock not yet implemented. Use Unix socket fallback."@),
    {
        if self.use_unix_fallback {
            Ok(String::from_str("/tmp/libcrun-shim.sock"))
        } else {
            Err(ShimError::runtime("Vsock not yet implemented. Use Unix socket fallback."))
        }
    }
}

/// An agent reply as the host reads it; replies that carry metrics, logs,
/// health or exec results are `Other`.
pub enum AgentAnswer {
    Created(String),
    Started,
    Stopped,
    Deleted,
    List(Vec<ContainerInfoProto>),
    Error(String),
    Other,
}

/// Whether `r` is the error the host reports for an agent's error text `e`.
pub open spec fn is_agent_error(r: ShimError, e: Seq<char>) -> bool {
    r matches ShimError::Runtime { message, context: None } && message@ == e
}

/// Whether `r` is the error for an unexpected reply.
pub open spec fn is_unexpected(r: ShimError) -> bool {
    r matches ShimError::Runtime { message, context: None } && message@ == "Unexpected response"@
}

/// The outcome of a create request: the created id, the agent's error, or an
/// error for any other reply.
pub fn created_outcome(a: AgentAnswer) -> (r: Result<String, ShimError>)
    ensures
        match a {
            AgentAnswer::Created(id) => r matches Ok(x) && x@ == id@,
            AgentAnswer::Error(e) => r matches Err(err) && is_agent_error(err, e@),
            _ => r matches Err(err) && is_unexpected(err),
        },
{
    match a {
        AgentAnswer::Created(id) => Ok(id),
        AgentAnswer::Error(e) => Err(ShimError::runtime(e.as_str())),
        _ => Err(ShimError::runtime("Unexpected response")),
    }
}

/// The reply a lifecycle request expects.
#[derive(Clone, Copy, Debug, PartialEq, Eq, Structural)]
pub enum Expected {
    Started,
    Stopped,
    Deleted,
}

/// Whether an answer is the one expected.
pub open spec fn answer_is(a: AgentAnswer, e: Expected) -> bool {
    match e {
        Expected::Started => a is Started,
        Expected::Stopped => a is Stopped,
        Expected::Deleted => a is Deleted,
    }
}

/// The outcome of a start, stop or delete request: success on the expected
/// reply, the agent's error, or an error for any other reply.
pub fn lifecycle_outcome(a: AgentAnswer, expected: Expected) -> (r: Result<(), ShimError>)
    ensures
        answer_is(a, expected) ==> r is Ok,
        !answer_is(a, expected) ==> match a {
            AgentAnswer::Error(e) => r matches Err(err) && is_agent_error(err, e@),
            _ => r matches Err(err) && is_unexpected(err),
        },
{
    let ok = match expected {
        Expected::Started => match a {
            AgentAnswer::Started => true,
            _ => false,
        },
        Expected::Stopped => match a {
            AgentAnswer::Stopped => true,
            _ => false,
        },
        Expected::Deleted => match a {
            AgentAnswer::Deleted => true,
            _ => false,
        },
    };
    if ok {
        return Ok(());
    }
    match a {
        AgentAnswer::Error(e) => Err(ShimError::runtime(e.as_str())),
        _ => Err(ShimError::runtime("Unexpected response")),
    }
}

/// The outcome of a list request: the containers the agent reports, the
/// agent's error, or an error for any other reply.
pub fn list_outcome(a: AgentAnswer) -> (r: Result<Vec<ContainerInfo>, ShimError>)
    ensures
        match a {
            AgentAnswer::List(l) => r matches Ok(v) && v@.len() == l@.len()
                && forall|i: int| 0 <= i < l@.len() ==> #[trigger] v@[i]@ == info_from_proto_spec(l@[i]@),
            AgentAnswer::Error(e) => r matches Err(err) && is_agent_error(err, e@),
            _ => r matches Err(err) && is_unexpected(err),
        },
{
    match a {
        AgentAnswer::List(l) => Ok(infos_from_proto(&l)),
        AgentAnswer::Error(e) => Err(ShimError::runtime(e.as_str())),
        _ => Err(ShimError::runtime("Unexpected response")),
    }
}

} // verus!
