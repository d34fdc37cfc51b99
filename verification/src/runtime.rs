//! The container runtime: containers kept in a [`ContainerTable`], with the
//! checks and error messages of the native runtime.

use vstd::prelude::*;
use vstd::string::*;
use crate::error::ShimError;
use crate::table::{
    ContainerTable, LifecycleError, after_create, after_delete, after_start, after_stop,
    count_stopped, delete_outcome, has_id, index_of, is_stopped, law_cleanup_removes_stopped_ids,
    pair_not_stopped_pred, law_delete_refuses_only_running, status_of, law_status_moves_forward, lemma_index_of_unique,
    unique_ids,
    not_stopped_pred, shut_down_all, start_outcome, stop_outcome, stopped_pred,
};
use crate::text::concat3;
use crate::types::{
    ContainerConfig, ContainerInfo, ContainerInfoView, ContainerStatus, RuntimeConfig,
    status_name, status_name_spec,
};

verus! {

/// Whether `e` is a runtime error with message `msg` and no context.
pub open spec fn is_runtime_error(e: ShimError, msg: Seq<char>) -> bool {
    e matches ShimError::Runtime { message, context: None } && message@ == msg
}

/// Whether `e` is a not-found error for resource `id` with no context.
pub open spec fn is_not_found_error(e: ShimError, id: Seq<char>) -> bool {
    e matches ShimError::NotFound { resource, context: None } && resource@ == id
}

/// The error the runtime reports for a refused lifecycle operation on the
/// container `id`.
pub open spec fn lifecycle_error_matches(err: ShimError, e: LifecycleError, id: Seq<char>) -> bool {
    match e {
        LifecycleError::NotFound => is_not_found_error(err, id),
        LifecycleError::AlreadyExists => is_runtime_error(err, "Container '"@ + id + "' already exists"@),
        LifecycleError::AlreadyRunning => is_runtime_error(err, "Container '"@ + id + "' is already running"@),
        LifecycleError::CannotRestart => is_runtime_error(
            err,
            "Container '"@ + id + "' is stopped and cannot be restarted (delete and recreate)"@,
        ),
        LifecycleError::NotRunning(s) => is_runtime_error(
            err,
            "Container '"@ + id + "' is not running (status: "@ + status_name_spec(s) + ")"@,
        ),
        LifecycleError::StillRunning => is_runtime_error(
            err,
            "Cannot delete running container '"@ + id + "'. Stop it first."@,
        ),
    }
}

/// The error the runtime reports for a refused lifecycle operation.
pub fn lifecycle_error(e: LifecycleError, id: &str) -> (err: ShimError)
    ensures
        lifecycle_error_matches(err, e, id@),
{
    match e {
        LifecycleError::NotFound => ShimError::not_found(id),
        LifecycleError::AlreadyExists => ShimError::runtime(concat3("Container '", id, "' already exists").as_str()),
        LifecycleError::AlreadyRunning => ShimError::runtime(concat3("Container '", id, "' is already running").as_str()),
        LifecycleError::CannotRestart => ShimError::runtime(
            concat3("Container '", id, "' is stopped and cannot be restarted (delete and recreate)").as_str(),
        ),
        LifecycleError::NotRunning(s) => {
            let mut m = concat3("Container '", id, "' is not running (status: ");
            m.append(status_name(s));
            m.append(")");
            ShimError::runtime(m.as_str())
        },
        LifecycleError::StillRunning => ShimError::runtime(
            concat3("Cannot delete running container '", id, "'. Stop it first.").as_str(),
        ),
    }
}

/// What validating a container configuration gives: the first rule that
/// fails, in the order id, command, root filesystem.
pub open spec fn validation_outcome(config: ContainerConfig, rootfs_exists: bool, err: Option<ShimError>) -> bool {
    if config.id@.len() == 0 {
        err matches Some(e) && is_runtime_error(e, "Container ID cannot be empty"@)
    } else if config.command@.len() == 0 {
        err matches Some(e) && is_runtime_error(e, "Command cannot be empty"@)
    } else if !rootfs_exists {
        err matches Some(e) && is_runtime_error(e, "Rootfs path does not exist: "@ + config.rootfs@)
    } else {
        err is None
    }
}

/// Checks a container configuration: its id and command must not be empty and
/// its root filesystem must exist (`rootfs_exists` says whether it does).
pub fn validate_config(config: &ContainerConfig, rootfs_exists: bool) -> (r: Option<ShimError>)
    ensures
        validation_outcome(*config, rootfs_exists, r),
{
    if config.id.as_str().unicode_len() == 0 {
        return Some(ShimError::runtime("Container ID cannot be empty"));
    }
    if config.command.len() == 0 {
        return Some(ShimError::runtime("Command cannot be empty"));
    }
    if !rootfs_exists {
        let mut m = String::from_str("Rootfs path does not exist: ");
        m.append(config.rootfs.as_str());
        return Some(ShimError::runtime(m.as_str()));
    }
    None
}

/// The container runtime.
pub struct ContainerRuntime {
    containers: ContainerTable<ContainerConfig>,
    config: RuntimeConfig,
}

impl View for ContainerRuntime {
    type V = Seq<ContainerInfoView>;

    closed spec fn view(&self) -> Seq<ContainerInfoView> {
        self.containers@
    }
}

impl ContainerRuntime {
    /// The runtime is well formed: container ids are unique.
    pub closed spec fn wf(&self) -> bool {
        self.containers.wf()
    }

    /// The configurations of the containers, in the order of the view.
    pub closed spec fn configs(&self) -> Seq<ContainerConfig> {
        self.containers.payloads()
    }

    /// Each container's record with its configuration, in the order of the view.
    pub closed spec fn entries(&self) -> Seq<(ContainerInfoView, ContainerConfig)> {
        self.containers.pairs()
    }

    /// The entries pair each record of the view with the configuration at the
    /// same position.
    pub proof fn lemma_entries(&self)
        ensures
            self.entries().len() == self@.len(),
            self.configs().len() == self@.len(),
            forall|i: int| 0 <= i < self@.len() ==> #[trigger] self.entries()[i] == (self@[i], self.configs()[i]),
    {
        self.containers.lemma_pairs();
    }

    /// A well-formed runtime holds no two containers with the same id.
    pub proof fn lemma_wf_unique_ids(&self)
        requires
            self.wf(),
        ensures
            unique_ids(self@),
    {
    }

    /// The runtime configuration.
    pub closed spec fn spec_config(&self) -> RuntimeConfig {
        self.config
    }

    /// A runtime with no containers and the given configuration.
    pub fn new_with_config(config: RuntimeConfig) -> (r: Self)
        ensures
            r.wf(),
            r@ == Seq::<ContainerInfoView>::empty(),
            r.spec_config() == config,
    {
        ContainerRuntime { containers: ContainerTable::new(), config }
    }

    /// The runtime configuration.
    pub fn config(&self) -> (c: &RuntimeConfig)
        ensures
            *c == self.spec_config(),
    {
        &self.config
    }

    /// Creates a container from `config` and returns its id. The configuration
    /// must pass [`validate_config`] (`rootfs_exists` says whether its root
    /// filesystem exists) and its id must be new.
    pub fn create(&mut self, config: ContainerConfig, rootfs_exists: bool) -> (r: Result<String, ShimError>)
        requires
            old(self).wf(),
        ensures
            final(self).wf(),
            final(self).spec_config() == old(self).spec_config(),
            ({
                let v = if r is Err { Some(r->Err_0) } else { None };
                let checked = validation_outcome(config, rootfs_exists, v);
                let ok_config = config.id@.len() > 0 && config.command@.len() > 0 && rootfs_exists;
                &&& !ok_config ==> checked
                &&& ok_config && has_id(old(self)@, config.id@) ==> (r matches Err(e)
                    && lifecycle_error_matches(e, LifecycleError::AlreadyExists, config.id@))
                &&& ok_config && !has_id(old(self)@, config.id@) ==> (r matches Ok(id) && id@ == config.id@)
            }),
            r is Ok ==> final(self)@ == after_create(old(self)@, config.id@)
                && final(self).configs() == old(self).configs().push(config),
            r is Err ==> final(self)@ == old(self)@ && final(self).configs() == old(self).configs(),
    {
        if let Some(e) = validate_config(&config, rootfs_exists) {
            return Err(e);
        }
        let id = config.id.clone();
        let key = config.id.clone();
        match self.containers.create(key, config) {
            Ok(()) => Ok(id),
            Err(e) => Err(lifecycle_error(e, id.as_str())),
        }
    }

    /// Starts the container `id`, which then runs as process `pid`.
    pub fn start(&mut self, id: &str, pid: u32) -> (r: Result<(), ShimError>)
        requires
            old(self).wf(),
        ensures
            final(self).wf(),
            final(self).spec_config() == old(self).spec_config(),
            final(self).configs() == old(self).configs(),
            match start_outcome(old(self)@, id@) {
                Ok(()) => r is Ok && final(self)@ == after_start(old(self)@, id@, pid),
                Err(e) => r matches Err(err) && lifecycle_error_matches(err, e, id@) && final(self)@ == old(self)@,
            },
    {
        match self.containers.start(id, pid) {
            Ok(()) => Ok(()),
            Err(e) => Err(lifecycle_error(e, id)),
        }
    }

    /// Stops the running container `id`.
    pub fn stop(&mut self, id: &str) -> (r: Result<(), ShimError>)
        requires
            old(self).wf(),
        ensures
            final(self).wf(),
            final(self).spec_config() == old(self).spec_config(),
            final(self).configs() == old(self).configs(),
            match stop_outcome(old(self)@, id@) {
                Ok(()) => r is Ok && final(self)@ == after_stop(old(self)@, id@),
                Err(e) => r matches Err(err) && lifecycle_error_matches(err, e, id@) && final(self)@ == old(self)@,
            },
    {
        match self.containers.stop(id) {
            Ok(()) => Ok(()),
            Err(e) => Err(lifecycle_error(e, id)),
        }
    }

    /// Deletes the container `id`, which must not be running.
    pub fn delete(&mut self, id: &str) -> (r: Result<(), ShimError>)
        requires
            old(self).wf(),
        ensures
            final(self).wf(),
            final(self).spec_config() == old(self).spec_config(),
            status_of(old(self)@, id@) == Some(ContainerStatus::Created) ==> r is Ok,
            status_of(old(self)@, id@) == Some(ContainerStatus::Stopped) ==> r is Ok,
            status_of(old(self)@, id@) == Some(ContainerStatus::Running) ==> r is Err,
            match delete_outcome(old(self)@, id@) {
                Ok(()) => r is Ok && final(self)@ == after_delete(old(self)@, id@)
                    && final(self).configs() == old(self).configs().remove(index_of(old(self)@, id@)),
                Err(e) => r matches Err(err) && lifecycle_error_matches(err, e, id@) && final(self)@ == old(self)@
                    && final(self).configs() == old(self).configs(),
            },
    {
        proof {
            law_delete_refuses_only_running(self@, id@);
        }
        match self.containers.delete(id) {
            Ok(_) => Ok(()),
            Err(e) => Err(lifecycle_error(e, id)),
        }
    }

    /// Stops the container `id` if it runs, then deletes it.
    pub fn force_delete(&mut self, id: &str) -> (r: Result<(), ShimError>)
        requires
            old(self).wf(),
        ensures
            final(self).wf(),
            final(self).spec_config() == old(self).spec_config(),
            !has_id(old(self)@, id@) ==> (r matches Err(e) && is_not_found_error(e, id@) && final(self)@ == old(self)@
                && final(self).configs() == old(self).configs()),
            has_id(old(self)@, id@) ==> r is Ok && final(self)@ == after_delete(old(self)@, id@)
                && final(self).configs() == old(self).configs().remove(index_of(old(self)@, id@)),
    {
        let ghost m0 = self@;
        let _ = self.stop(id);
        proof {
            if has_id(m0, id@) && stop_outcome(m0, id@) is Ok {
                law_status_moves_forward(m0, id@, 0);
            }
        }
        let ghost m1 = self@;
        let r = self.delete(id);
        proof {
            if has_id(m0, id@) {
                let i = index_of(m0, id@);
                assert(m1[i].id == id@);
                assert(m1.len() == m0.len());
                assert(unique_ids(m1));
                lemma_index_of_unique(m1, id@, i);
                assert(m1.remove(i) =~= m0.remove(i));
            }
        }
        r
    }

    /// The record of the container `id`, if there is one.
    pub fn get(&self, id: &str) -> (r: Option<&ContainerInfo>)
        requires
            self.wf(),
        ensures
            r is Some <==> has_id(self@, id@),
            r matches Some(c) ==> c@ == self@[index_of(self@, id@)],
    {
        self.containers.get(id)
    }

    /// The configuration the container `id` was created with, if there is one.
    pub fn get_config(&self, id: &str) -> (r: Option<&ContainerConfig>)
        requires
            self.wf(),
        ensures
            r is Some <==> has_id(self@, id@),
            r matches Some(c) ==> *c == self.configs()[index_of(self@, id@)],
    {
        self.containers.payload(id)
    }

    /// Every container, in creation order.
    pub fn list(&self) -> (r: Vec<ContainerInfo>)
        ensures
            r@.map_values(|c: ContainerInfo| c@) == self@,
    {
        self.containers.list()
    }

    /// The containers that may be orphaned: the stopped ones.
    pub fn list_orphaned(&self) -> (r: Vec<ContainerInfo>)
        ensures
            r@.map_values(|c: ContainerInfo| c@) == self@.filter(stopped_pred()),
    {
        self.containers.list_stopped()
    }

    /// Deletes every stopped container and returns how many were deleted.
    pub fn cleanup_stopped(&mut self) -> (n: usize)
        requires
            old(self).wf(),
        ensures
            final(self).wf(),
            final(self).spec_config() == old(self).spec_config(),
            final(self)@ == old(self)@.filter(not_stopped_pred()),
            final(self).entries() == old(self).entries().filter(pair_not_stopped_pred::<ContainerConfig>()),
            forall|i: int| 0 <= i < old(self)@.len() && is_stopped(old(self)@[i])
                ==> !has_id(final(self)@, #[trigger] old(self)@[i].id),
            n == count_stopped(old(self)@),
    {
        proof {
            law_cleanup_removes_stopped_ids(self@);
        }
        self.containers.remove_stopped()
    }

    /// Stops every running container.
    pub fn shutdown(&mut self)
        requires
            old(self).wf(),
        ensures
            final(self).wf(),
            final(self).spec_config() == old(self).spec_config(),
            final(self).configs() == old(self).configs(),
            final(self)@ == shut_down_all(old(self)@),
    {
        self.containers.stop_all_running()
    }
}

} // verus!
