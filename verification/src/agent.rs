//! The guest agent's request handling: the decisions it takes on each request
//! against its table of containers.

use vstd::prelude::*;
use vstd::string::*;
use crate::proto::{ContainerInfoProto, ContainerInfoProtoView, info_from_proto_spec};
use crate::table::{
    ContainerTable, LifecycleError, after_create, after_delete, after_start, after_stop,
    delete_outcome, has_id, index_of, start_outcome, stop_outcome, unique_ids, law_deleted_is_gone,
};
use crate::text::concat3;
use crate::types::{ContainerInfoView, law_status_name_round_trip, status_name, status_name_spec};

verus! {

/// What the agent keeps about a container beside its status.
pub struct AgentRecord {
    pub rootfs: String,
    pub command: Vec<String>,
    pub env: Vec<String>,
    pub working_dir: String,
}

/// The part of a create request that the agent decides on and keeps.
pub struct CreateCommand {
    pub id: String,
    pub rootfs: String,
    pub command: Vec<String>,
    pub env: Vec<String>,
    pub working_dir: String,
}

/// A request to the agent.
pub enum AgentCommand {
    Create(CreateCommand),
    Start(String),
    Stop(String),
    Delete(String),
    List,
    Metrics(String),
    AllMetrics,
    /// A request this agent does not serve (logs, health, exec); it names the request.
    Unsupported(String),
}

/// The agent's answer to a request. Metrics are sampled outside: the answer
/// names the containers to sample, each with its process id.
pub enum AgentReply {
    Created(String),
    Started,
    Stopped,
    Deleted,
    List(Vec<ContainerInfoProto>),
    CollectMetrics(String, Option<u32>),
    CollectAllMetrics(Vec<(String, Option<u32>)>),
    Error(String),
}

/// A container record as the agent reports it.
pub open spec fn proto_of(c: ContainerInfoView) -> ContainerInfoProtoView {
    ContainerInfoProtoView { id: c.id, status: status_name_spec(c.status), pid: c.pid }
}

/// The text of the agent's answer to a refused lifecycle operation on `id`.
pub open spec fn agent_error_text(e: LifecycleError, id: Seq<char>) -> Seq<char> {
    match e {
        LifecycleError::NotFound => "Container '"@ + id + "' not found"@,
        LifecycleError::AlreadyExists => "Container '"@ + id + "' already exists"@,
        LifecycleError::AlreadyRunning => "Container '"@ + id + "' is already running"@,
        LifecycleError::CannotRestart => "Container '"@ + id + "' is stopped and cannot be restarted"@,
        LifecycleError::NotRunning(_) => "Container '"@ + id + "' is not running"@,
        LifecycleError::StillRunning => "Cannot delete running container '"@ + id + "'. Stop it first."@,
    }
}

/// The text of the agent's answer to a refused lifecycle operation on `id`.
pub fn agent_error(e: LifecycleError, id: &str) -> (s: String)
    ensures
        s@ == agent_error_text(e, id@),
{
    match e {
        LifecycleError::NotFound => concat3("Container '", id, "' not found"),
        LifecycleError::AlreadyExists => concat3("Container '", id, "' already exists"),
        LifecycleError::AlreadyRunning => concat3("Container '", id, "' is already running"),
        LifecycleError::CannotRestart => concat3("Container '", id, "' is stopped and cannot be restarted"),
        LifecycleError::NotRunning(_) => concat3("Container '", id, "' is not running"),
        LifecycleError::StillRunning => concat3("Cannot delete running container '", id, "'. Stop it first."),
    }
}

/// Whether `r` is the error answer with text `t`.
pub open spec fn is_error_reply(r: AgentReply, t: Seq<char>) -> bool {
    r matches AgentReply::Error(s) && s@ == t
}

/// The state of the agent: its containers.
pub struct AgentState {
    containers: ContainerTable<AgentRecord>,
}

impl View for AgentState {
    type V = Seq<ContainerInfoView>;

    closed spec fn view(&self) -> Seq<ContainerInfoView> {
        self.containers@
    }
}

impl AgentState {
    /// The state is well formed: container ids are unique.
    pub closed spec fn wf(&self) -> bool {
        self.containers.wf()
    }

    /// The records kept beside the containers, in the order of the view.
    pub closed spec fn records(&self) -> Seq<AgentRecord> {
        self.containers.payloads()
    }

    /// A well-formed agent holds no two containers with the same id.
    pub proof fn lemma_wf_unique_ids(&self)
        requires
            self.wf(),
        ensures
            unique_ids(self@),
    {
    }

    /// An agent with no containers.
    pub fn new() -> (s: Self)
        ensures
            s.wf(),
            s@ == Seq::<ContainerInfoView>::empty(),
    {
        AgentState { containers: ContainerTable::new() }
    }

    /// Answers a request. `pid` is the process id given to a container that
    /// starts. Creating needs a non-empty id and command and a new id;
    /// starting, stopping and deleting follow the container lifecycle.
    pub fn handle_request(&mut self, request: AgentCommand, pid: u32) -> (reply: AgentReply)
        requires
            old(self).wf(),
        ensures
            final(self).wf(),
            match request {
                AgentCommand::Create(c) => {
                    if c.id@.len() == 0 {
                        is_error_reply(reply, "Container ID cannot be empty"@) && final(self)@ == old(self)@
                    } else if c.command@.len() == 0 {
                        is_error_reply(reply, "Command cannot be empty"@) && final(self)@ == old(self)@
                    } else if has_id(old(self)@, c.id@) {
                        is_error_reply(reply, agent_error_text(LifecycleError::AlreadyExists, c.id@))
                            && final(self)@ == old(self)@
                    } else {
                        &&& reply matches AgentReply::Created(id) && id@ == c.id@
                        &&& final(self)@ == after_create(old(self)@, c.id@)
                        &&& final(self).records().last() == (AgentRecord {
                            rootfs: c.rootfs,
                            command: c.command,
                            env: c.env,
                            working_dir: c.working_dir,
                        })
                    }
                },
                AgentCommand::Start(id) => match start_outcome(old(self)@, id@) {
                    Ok(()) => reply is Started && final(self)@ == after_start(old(self)@, id@, pid),
                    Err(e) => is_error_reply(reply, agent_error_text(e, id@)) && final(self)@ == old(self)@,
                },
                AgentCommand::Stop(id) => match stop_outcome(old(self)@, id@) {
                    Ok(()) => reply is Stopped && final(self)@ == after_stop(old(self)@, id@),
                    Err(e) => is_error_reply(reply, agent_error_text(e, id@)) && final(self)@ == old(self)@,
                },
                AgentCommand::Delete(id) => match delete_outcome(old(self)@, id@) {
                    Ok(()) => reply is Deleted && final(self)@ == after_delete(old(self)@, id@)
                        && !has_id(final(self)@, id@),
                    Err(e) => is_error_reply(reply, agent_error_text(e, id@)) && final(self)@ == old(self)@,
                },
                AgentCommand::List => final(self)@ == old(self)@ && (reply matches AgentReply::List(v)
                    && v@.map_values(|p: ContainerInfoProto| p@) == old(self)@.map_values(|c: ContainerInfoView| proto_of(c))),
                AgentCommand::Metrics(id) => final(self)@ == old(self)@ && if has_id(old(self)@, id@) {
                    reply matches AgentReply::CollectMetrics(rid, rpid) && rid@ == id@
                        && rpid == old(self)@[index_of(old(self)@, id@)].pid
                } else {
                    is_error_reply(reply, "Container not found: "@ + id@)
                },
                AgentCommand::AllMetrics => final(self)@ == old(self)@ && (reply matches AgentReply::CollectAllMetrics(v)
                    && v@.len() == old(self)@.len()
                    && forall|i: int| 0 <= i < v@.len() ==> (#[trigger] v@[i]).0@ == old(self)@[i].id
                        && v@[i].1 == old(self)@[i].pid),
                AgentCommand::Unsupported(name) => final(self)@ == old(self)@
                    && is_error_reply(reply, "Unsupported request: "@ + name@),
            },
            match request {
                AgentCommand::Create(c) => if c.id@.len() > 0 && c.command@.len() > 0 && !has_id(old(self)@, c.id@) {
                    final(self).records() == old(self).records().push(AgentRecord {
                        rootfs: c.rootfs,
                        command: c.command,
                        env: c.env,
                        working_dir: c.working_dir,
                    })
                } else {
                    final(self).records() == old(self).records()
                },
                AgentCommand::Delete(id) => if delete_outcome(old(self)@, id@) is Ok {
                    final(self).records() == old(self).records().remove(index_of(old(self)@, id@))
                } else {
                    final(self).records() == old(self).records()
                },
                _ => final(self).records() == old(self).records(),
            },
    {
        match request {
            AgentCommand::Create(c) => {
                if c.id.as_str().unicode_len() == 0 {
                    return AgentReply::Error(String::from_str("Container ID cannot be empty"));
                }
                if c.command.len() == 0 {
                    return AgentReply::Error(String::from_str("Command cannot be empty"));
                }
                let id = c.id.clone();
                let record = AgentRecord {
                    rootfs: c.rootfs,
                    command: c.command,
                    env: c.env,
                    working_dir: c.working_dir,
                };
                match self.containers.create(c.id, record) {
                    Ok(()) => AgentReply::Created(id),
                    Err(e) => AgentReply::Error(agent_error(e, id.as_str())),
                }
            },
            AgentCommand::Start(id) => match self.containers.start(id.as_str(), pid) {
                Ok(()) => AgentReply::Started,
                Err(e) => AgentReply::Error(agent_error(e, id.as_str())),
            },
            AgentCommand::Stop(id) => match self.containers.stop(id.as_str()) {
                Ok(()) => AgentReply::Stopped,
                Err(e) => AgentReply::Error(agent_error(e, id.as_str())),
            },
            AgentCommand::Delete(id) => {
                proof {
                    if delete_outcome(self@, id@) is Ok {
                        law_deleted_is_gone(self@, id@);
                    }
                }
                match self.containers.delete(id.as_str()) {
                    Ok(_) => AgentReply::Deleted,
                    Err(e) => AgentReply::Error(agent_error(e, id.as_str())),
                }
            },
            AgentCommand::List => AgentReply::List(self.list()),
            AgentCommand::Metrics(id) => match self.containers.get(id.as_str()) {
                Some(info) => AgentReply::CollectMetrics(id, info.pid),
                None => {
                    let mut m = String::from_str("Container not found: ");
                    m.append(id.as_str());
                    AgentReply::Error(m)
                },
            },
            AgentCommand::AllMetrics => {
                let infos = self.containers.list();
                let mut v: Vec<(String, Option<u32>)> = Vec::new();
                let mut i: usize = 0;
                while i < infos.len()
                    invariant
                        i <= infos@.len(),
                        infos@.map_values(|c: crate::types::ContainerInfo| c@) == self.containers@,
                        v@.len() == i,
                        forall|j: int| 0 <= j < i ==> (#[trigger] v@[j]).0@ == self.containers@[j].id
                            && v@[j].1 == self.containers@[j].pid,
                    decreases infos@.len() - i,
                {
                    proof {
                        assert(infos@.map_values(|c: crate::types::ContainerInfo| c@)[i as int] == infos@[i as int]@);
                    }
                    v.push((infos[i].id.clone(), infos[i].pid));
                    i = i + 1;
                }
                AgentReply::CollectAllMetrics(v)
            },
            AgentCommand::Unsupported(name) => {
                let mut m = String::from_str("Unsupported request: ");
                m.append(name.as_str());
                AgentReply::Error(m)
            },
        }
    }

    /// Every container, as the agent reports it.
    pub fn list(&self) -> (r: Vec<ContainerInfoProto>)
        ensures
            r@.map_values(|p: ContainerInfoProto| p@) == self@.map_values(|c: ContainerInfoView| proto_of(c)),
    {
        let infos = self.containers.list();
        let mut r: Vec<ContainerInfoProto> = Vec::new();
        let mut i: usize = 0;
        while i < infos.len()
            invariant
                i <= infos@.len(),
                infos@.map_values(|c: crate::types::ContainerInfo| c@) == self@,
                r@.len() == i,
                forall|j: int| 0 <= j < i ==> #[trigger] r@[j]@ == proto_of(self@[j]),
            decreases infos@.len() - i,
        {
            proof {
                assert(infos@.map_values(|c: crate::types::ContainerInfo| c@)[i as int] == infos@[i as int]@);
            }
            r.push(ContainerInfoProto {
                id: infos[i].id.clone(),
                status: String::from_str(status_name(infos[i].status)),
                pid: infos[i].pid,
            });
            i = i + 1;
        }
        proof {
            assert(r@.map_values(|p: ContainerInfoProto| p@) =~= self@.map_values(|c: ContainerInfoView| proto_of(c)));
        }
        r
    }
}


/// The host reads back from an agent's report exactly the container record
/// the agent reported.
pub proof fn law_report_round_trip(c: ContainerInfoView)
    ensures
        info_from_proto_spec(proto_of(c)) == c,
{
    law_status_name_round_trip(c.status);
}

} // verus!
