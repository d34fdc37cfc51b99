//! The container table: the record of every container the runtime knows, with
//! the lifecycle rules that govern it.
//!
//! A container is created in the `Created` state, may be started once (to
//! `Running`), stopped once it runs (to `Stopped`), and deleted when it is not
//! running. Container ids are unique within a table.

use vstd::prelude::*;
use vstd::string::*;
use crate::types::{ContainerInfo, ContainerInfoView, ContainerStatus};

verus! {

/// Why a lifecycle operation was refused.
#[derive(Clone, Copy, Debug, PartialEq, Eq, Structural)]
pub enum LifecycleError {
    /// No container has the given id.
    NotFound,
    /// A container with the given id exists already.
    AlreadyExists,
    /// The container is running already.
    AlreadyRunning,
    /// The container has stopped; a stopped container is not restarted.
    CannotRestart,
    /// The container is not running; its status is given.
    NotRunning(ContainerStatus),
    /// The container runs and must be stopped before it is deleted.
    StillRunning,
}

/// One container of the table: its public information and what the runtime
/// keeps beside it.
pub struct TableEntry<T> {
    pub info: ContainerInfo,
    pub payload: T,
}

/// Whether a container with id `id` is in `m`.
pub open spec fn has_id(m: Seq<ContainerInfoView>, id: Seq<char>) -> bool {
    exists|i: int| 0 <= i < m.len() && #[trigger] m[i].id == id
}

/// The position of the container with id `id` in `m` (meaningful when
/// `has_id(m, id)`).
pub open spec fn index_of(m: Seq<ContainerInfoView>, id: Seq<char>) -> int {
    choose|i: int| 0 <= i < m.len() && #[trigger] m[i].id == id
}

/// No two containers in `m` share an id.
pub open spec fn unique_ids(m: Seq<ContainerInfoView>) -> bool {
    forall|i: int, j: int| 0 <= i < m.len() && 0 <= j < m.len() && i != j ==> #[trigger] m[i].id != #[trigger] m[j].id
}

/// The status of the container with id `id`, if there is one.
pub open spec fn status_of(m: Seq<ContainerInfoView>, id: Seq<char>) -> Option<ContainerStatus> {
    if has_id(m, id) {
        Some(m[index_of(m, id)].status)
    } else {
        None
    }
}

/// The record of a freshly created container.
pub open spec fn created_view(id: Seq<char>) -> ContainerInfoView {
    ContainerInfoView { id, status: ContainerStatus::Created, pid: None }
}

/// The outcome of creating a container with id `id` in `m`.
pub open spec fn create_outcome(m: Seq<ContainerInfoView>, id: Seq<char>) -> Result<(), LifecycleError> {
    if has_id(m, id) {
        Err(LifecycleError::AlreadyExists)
    } else {
        Ok(())
    }
}

/// The outcome of starting the container with id `id` in `m`.
pub open spec fn start_outcome(m: Seq<ContainerInfoView>, id: Seq<char>) -> Result<(), LifecycleError> {
    match status_of(m, id) {
        None => Err(LifecycleError::NotFound),
        Some(ContainerStatus::Running) => Err(LifecycleError::AlreadyRunning),
        Some(ContainerStatus::Stopped) => Err(LifecycleError::CannotRestart),
        Some(ContainerStatus::Created) => Ok(()),
    }
}

/// The outcome of stopping the container with id `id` in `m`.
pub open spec fn stop_outcome(m: Seq<ContainerInfoView>, id: Seq<char>) -> Result<(), LifecycleError> {
    match status_of(m, id) {
        None => Err(LifecycleError::NotFound),
        Some(ContainerStatus::Running) => Ok(()),
        Some(s) => Err(LifecycleError::NotRunning(s)),
    }
}

/// The outcome of deleting the container with id `id` in `m`.
pub open spec fn delete_outcome(m: Seq<ContainerInfoView>, id: Seq<char>) -> Result<(), LifecycleError> {
    match status_of(m, id) {
        None => Err(LifecycleError::NotFound),
        Some(ContainerStatus::Running) => Err(LifecycleError::StillRunning),
        Some(_) => Ok(()),
    }
}

/// `m` after creating the container `id`.
pub open spec fn after_create(m: Seq<ContainerInfoView>, id: Seq<char>) -> Seq<ContainerInfoView> {
    m.push(created_view(id))
}

/// `m` after starting the container `id`, which then has process id `pid`.
pub open spec fn after_start(m: Seq<ContainerInfoView>, id: Seq<char>, pid: u32) -> Seq<ContainerInfoView> {
    m.update(index_of(m, id), ContainerInfoView { id, status: ContainerStatus::Running, pid: Some(pid) })
}

/// `m` after stopping the container `id`.
pub open spec fn after_stop(m: Seq<ContainerInfoView>, id: Seq<char>) -> Seq<ContainerInfoView> {
    m.update(index_of(m, id), ContainerInfoView { id, status: ContainerStatus::Stopped, pid: None })
}

/// `m` after deleting the container `id`.
pub open spec fn after_delete(m: Seq<ContainerInfoView>, id: Seq<char>) -> Seq<ContainerInfoView> {
    m.remove(index_of(m, id))
}

/// Whether a container record is not stopped.
pub open spec fn is_not_stopped(c: ContainerInfoView) -> bool {
    c.status != ContainerStatus::Stopped
}

/// Whether a container record is stopped.
pub open spec fn is_stopped(c: ContainerInfoView) -> bool {
    c.status == ContainerStatus::Stopped
}

/// A record after a shutdown: running containers are stopped, the others kept.
pub open spec fn shut_down(c: ContainerInfoView) -> ContainerInfoView {
    if c.status == ContainerStatus::Running {
        ContainerInfoView { id: c.id, status: ContainerStatus::Stopped, pid: None }
    } else {
        c
    }
}

/// Every record of `m` after a shutdown.
pub open spec fn shut_down_all(m: Seq<ContainerInfoView>) -> Seq<ContainerInfoView> {
    m.map_values(|c: ContainerInfoView| shut_down(c))
}

/// The number of stopped records in `m`.
pub open spec fn count_stopped(m: Seq<ContainerInfoView>) -> nat
    decreases m.len(),
{
    if m.len() == 0 {
        0
    } else {
        count_stopped(m.drop_last()) + if is_stopped(m.last()) { 1nat } else { 0nat }
    }
}

/// The predicate that keeps records which are not stopped.
pub open spec fn not_stopped_pred() -> spec_fn(ContainerInfoView) -> bool {
    |c: ContainerInfoView| is_not_stopped(c)
}

/// The predicate that keeps records which are stopped.
pub open spec fn stopped_pred() -> spec_fn(ContainerInfoView) -> bool {
    |c: ContainerInfoView| is_stopped(c)
}

/// The predicate that keeps (record, payload) pairs whose record is not stopped.
pub open spec fn pair_not_stopped_pred<T>() -> spec_fn((ContainerInfoView, T)) -> bool {
    |p: (ContainerInfoView, T)| is_not_stopped(p.0)
}

/// The rank of a status in the lifecycle order Created < Running < Stopped.
pub open spec fn status_rank(s: ContainerStatus) -> int {
    match s {
        ContainerStatus::Created => 0,
        ContainerStatus::Running => 1,
        ContainerStatus::Stopped => 2,
    }
}

/// If `m[i]` has id `id` and ids are unique, `i` is the index of `id`.
pub proof fn lemma_index_of_unique(m: Seq<ContainerInfoView>, id: Seq<char>, i: int)
    requires
        unique_ids(m),
        0 <= i < m.len(),
        m[i].id == id,
    ensures
        has_id(m, id),
        index_of(m, id) == i,
{
    assert(has_id(m, id));
    let j = index_of(m, id);
    if j != i {
        assert(m[i].id != m[j].id);
    }
}

/// The table of containers.
pub struct ContainerTable<T> {
    entries: Vec<TableEntry<T>>,
}

impl<T> View for ContainerTable<T> {
    type V = Seq<ContainerInfoView>;

    closed spec fn view(&self) -> Seq<ContainerInfoView> {
        self.entries@.map_values(|e: TableEntry<T>| e.info@)
    }
}

impl<T> ContainerTable<T> {
    /// The table is well formed: its container ids are unique.
    pub open spec fn wf(&self) -> bool {
        unique_ids(self@)
    }

    /// Each container's record together with what is kept beside it, in table order.
    pub closed spec fn pairs(&self) -> Seq<(ContainerInfoView, T)> {
        self.entries@.map_values(|e: TableEntry<T>| (e.info@, e.payload))
    }

    /// What the table keeps beside each container, in table order.
    pub closed spec fn payloads(&self) -> Seq<T> {
        self.entries@.map_values(|e: TableEntry<T>| e.payload)
    }

    proof fn lemma_view_len(&self)
        ensures
            self@.len() == self.entries@.len(),
            self.payloads().len() == self.entries@.len(),
            forall|i: int| 0 <= i < self.entries@.len() ==> #[trigger] self@[i] == self.entries@[i].info@,
            forall|i: int| 0 <= i < self.entries@.len() ==> #[trigger] self.payloads()[i] == self.entries@[i].payload,
            self.pairs().len() == self.entries@.len(),
            forall|i: int| 0 <= i < self.entries@.len() ==> #[trigger] self.pairs()[i] == (self.entries@[i].info@, self.entries@[i].payload),
    {
    }

    /// Each pair holds the record and the kept value at the same position.
    pub proof fn lemma_pairs(&self)
        ensures
            self.pairs().len() == self@.len(),
            self.payloads().len() == self@.len(),
            forall|i: int| 0 <= i < self@.len() ==> #[trigger] self.pairs()[i] == (self@[i], self.payloads()[i]),
    {
        self.lemma_view_len();
    }

    /// An empty table.
    pub fn new() -> (t: Self)
        ensures
            t.wf(),
            t@ == Seq::<ContainerInfoView>::empty(),
            t.payloads() == Seq::<T>::empty(),
    {
        let t = ContainerTable { entries: Vec::new() };
        assert(t@ =~= Seq::<ContainerInfoView>::empty());
        assert(t.payloads() =~= Seq::<T>::empty());
        t
    }

    /// The number of containers.
    pub fn len(&self) -> (n: usize)
        ensures
            n == self@.len(),
    {
        self.entries.len()
    }

    /// The position of the container with id `id`.
    fn find(&self, id: &str) -> (r: Option<usize>)
        requires
            self.wf(),
        ensures
            r is None <==> !has_id(self@, id@),
            r matches Some(i) ==> i < self@.len() && index_of(self@, id@) == i && self@[i as int].id == id@,
    {
        let key = String::from_str(id);
        let mut i: usize = 0;
        while i < self.entries.len()
            invariant
                self.wf(),
                key@ == id@,
                i <= self.entries@.len(),
                forall|j: int| 0 <= j < i ==> #[trigger] self@[j].id != id@,
            decreases self.entries@.len() - i,
        {
            proof { self.lemma_view_len(); }
            if self.entries[i].info.id == key {
                proof {
                    lemma_index_of_unique(self@, id@, i as int);
                }
                return Some(i);
            }
            i = i + 1;
        }
        proof {
            self.lemma_view_len();
            assert forall|j: int| 0 <= j < self@.len() implies #[trigger] self@[j].id != id@ by {}
        }
        None
    }

    /// Whether a container with id `id` exists.
    pub fn contains(&self, id: &str) -> (b: bool)
        requires
            self.wf(),
        ensures
            b == has_id(self@, id@),
    {
        self.find(id).is_some()
    }

    /// The status of the container with id `id`, if there is one.
    pub fn status(&self, id: &str) -> (r: Option<ContainerStatus>)
        requires
            self.wf(),
        ensures
            r == status_of(self@, id@),
    {
        match self.find(id) {
            Some(i) => {
                proof { self.lemma_view_len(); }
                Some(self.entries[i].info.status)
            },
            None => None,
        }
    }

    /// The information of the container with id `id`, if there is one.
    pub fn get(&self, id: &str) -> (r: Option<&ContainerInfo>)
        requires
            self.wf(),
        ensures
            r is Some <==> has_id(self@, id@),
            r matches Some(c) ==> c@ == self@[index_of(self@, id@)],
    {
        match self.find(id) {
            Some(i) => {
                proof { self.lemma_view_len(); }
                Some(&self.entries[i].info)
            },
            None => None,
        }
    }

    /// What is kept beside the container with id `id`, if there is one.
    pub fn payload(&self, id: &str) -> (r: Option<&T>)
        requires
            self.wf(),
        ensures
            r is Some <==> has_id(self@, id@),
            r matches Some(p) ==> *p == self.payloads()[index_of(self@, id@)],
    {
        match self.find(id) {
            Some(i) => {
                proof { self.lemma_view_len(); }
                Some(&self.entries[i].payload)
            },
            None => None,
        }
    }

    /// Records a new container `id` in the `Created` state, with `payload`
    /// beside it. Refused when the id is taken.
    pub fn create(&mut self, id: String, payload: T) -> (r: Result<(), LifecycleError>)
        requires
            old(self).wf(),
        ensures
            final(self).wf(),
            r == create_outcome(old(self)@, id@),
            r is Ok ==> final(self)@ == after_create(old(self)@, id@)
                && final(self).payloads() == old(self).payloads().push(payload),
            r is Err ==> final(self)@ == old(self)@ && final(self).payloads() == old(self).payloads(),
    {
        if self.contains(id.as_str()) {
            return Err(LifecycleError::AlreadyExists);
        }
        let ghost old_view = self@;
        let ghost old_payloads = self.payloads();
        let ghost gid = id@;
        self.entries.push(TableEntry {
            info: ContainerInfo { id, status: ContainerStatus::Created, pid: None },
            payload,
        });
        proof {
            assert(self@ =~= old_view.push(created_view(gid)));
            assert(self.payloads() =~= old_payloads.push(payload));
            assert forall|i: int, j: int| 0 <= i < self@.len() && 0 <= j < self@.len() && i != j
                implies #[trigger] self@[i].id != #[trigger] self@[j].id by {
                if i == old_view.len() as int {
                    assert(old_view[j] == self@[j]);
                } else if j == old_view.len() as int {
                    assert(old_view[i] == self@[i]);
                } else {
                    assert(old_view[i] == self@[i]);
                    assert(old_view[j] == self@[j]);
                }
            }
        }
        Ok(())
    }

    /// Replaces the status and process id of the container at position `i`.
    fn set_state(&mut self, i: usize, status: ContainerStatus, pid: Option<u32>)
        requires
            old(self).wf(),
            i < old(self)@.len(),
        ensures
            final(self).wf(),
            final(self)@ == old(self)@.update(i as int, ContainerInfoView { id: old(self)@[i as int].id, status, pid }),
            final(self).payloads() == old(self).payloads(),
    {
        proof { self.lemma_view_len(); }
        let ghost old_view = self@;
        let ghost old_payloads = self.payloads();
        let mut e = self.entries.remove(i);
        e.info.status = status;
        e.info.pid = pid;
        self.entries.insert(i, e);
        proof {
            self.lemma_view_len();
            assert(self@ =~= old_view.update(i as int, ContainerInfoView { id: old_view[i as int].id, status, pid }));
            assert(self.payloads() =~= old_payloads);
            assert forall|a: int, b: int| 0 <= a < self@.len() && 0 <= b < self@.len() && a != b
                implies #[trigger] self@[a].id != #[trigger] self@[b].id by {
                assert(self@[a].id == old_view[a].id);
                assert(self@[b].id == old_view[b].id);
            }
        }
    }

    /// Decides whether the container `id` may be started, without changing it.
    pub fn check_start(&self, id: &str) -> (r: Result<(), LifecycleError>)
        requires
            self.wf(),
        ensures
            r == start_outcome(self@, id@),
    {
        match self.status(id) {
            None => Err(LifecycleError::NotFound),
            Some(ContainerStatus::Running) => Err(LifecycleError::AlreadyRunning),
            Some(ContainerStatus::Stopped) => Err(LifecycleError::CannotRestart),
            Some(ContainerStatus::Created) => Ok(()),
        }
    }

    /// Starts the container `id`, which then runs as process `pid`. Only a
    /// created container starts.
    pub fn start(&mut self, id: &str, pid: u32) -> (r: Result<(), LifecycleError>)
        requires
            old(self).wf(),
        ensures
            final(self).wf(),
            r == start_outcome(old(self)@, id@),
            r is Ok ==> final(self)@ == after_start(old(self)@, id@, pid),
            r is Err ==> final(self)@ == old(self)@,
            final(self).payloads() == old(self).payloads(),
    {
        let r = self.check_start(id);
        if r.is_ok() {
            let i = self.find(id).unwrap();
            self.set_state(i, ContainerStatus::Running, Some(pid));
        }
        r
    }

    /// Decides whether the container `id` may be stopped, without changing it.
    pub fn check_stop(&self, id: &str) -> (r: Result<(), LifecycleError>)
        requires
            self.wf(),
        ensures
            r == stop_outcome(self@, id@),
    {
        match self.status(id) {
            None => Err(LifecycleError::NotFound),
            Some(ContainerStatus::Running) => Ok(()),
            Some(s) => Err(LifecycleError::NotRunning(s)),
        }
    }

    /// Stops the container `id`. Only a running container stops; it then has
    /// no process id.
    pub fn stop(&mut self, id: &str) -> (r: Result<(), LifecycleError>)
        requires
            old(self).wf(),
        ensures
            final(self).wf(),
            r == stop_outcome(old(self)@, id@),
            r is Ok ==> final(self)@ == after_stop(old(self)@, id@),
            r is Err ==> final(self)@ == old(self)@,
            final(self).payloads() == old(self).payloads(),
    {
        let r = self.check_stop(id);
        if r.is_ok() {
            let i = self.find(id).unwrap();
            self.set_state(i, ContainerStatus::Stopped, None);
        }
        r
    }

    /// Decides whether the container `id` may be deleted, without changing it.
    pub fn check_delete(&self, id: &str) -> (r: Result<(), LifecycleError>)
        requires
            self.wf(),
        ensures
            r == delete_outcome(self@, id@),
    {
        match self.status(id) {
            None => Err(LifecycleError::NotFound),
            Some(ContainerStatus::Running) => Err(LifecycleError::StillRunning),
            Some(_) => Ok(()),
        }
    }

    /// Deletes the container `id` and hands back what was kept beside it.
    /// A running container is not deleted.
    pub fn delete(&mut self, id: &str) -> (r: Result<T, LifecycleError>)
        requires
            old(self).wf(),
        ensures
            final(self).wf(),
            match r {
                Ok(_) => delete_outcome(old(self)@, id@) is Ok,
                Err(e) => delete_outcome(old(self)@, id@) == Err::<(), LifecycleError>(e),
            },
            r matches Ok(p) ==> final(self)@ == after_delete(old(self)@, id@)
                && final(self).payloads() == old(self).payloads().remove(index_of(old(self)@, id@))
                && p == old(self).payloads()[index_of(old(self)@, id@)],
            r is Err ==> final(self)@ == old(self)@ && final(self).payloads() == old(self).payloads(),
    {
        match self.check_delete(id) {
            Err(e) => Err(e),
            Ok(()) => {
                let i = self.find(id).unwrap();
                proof { self.lemma_view_len(); }
                let ghost old_view = self@;
                let ghost old_payloads = self.payloads();
                let e = self.entries.remove(i);
                proof {
                    self.lemma_view_len();
                    assert(self@ =~= old_view.remove(i as int));
                    assert(self.payloads() =~= old_payloads.remove(i as int));
                    assert forall|a: int, b: int| 0 <= a < self@.len() && 0 <= b < self@.len() && a != b
                        implies #[trigger] self@[a].id != #[trigger] self@[b].id by {
                        let oa = if a < i { a } else { a + 1 };
                        let ob = if b < i { b } else { b + 1 };
                        assert(self@[a] == old_view[oa]);
                        assert(self@[b] == old_view[ob]);
                    }
                }
                Ok(e.payload)
            },
        }
    }

    /// The information of every container, in table order.
    pub fn list(&self) -> (r: Vec<ContainerInfo>)
        ensures
            r@.map_values(|c: ContainerInfo| c@) == self@,
    {
        let mut r: Vec<ContainerInfo> = Vec::new();
        let mut i: usize = 0;
        while i < self.entries.len()
            invariant
                i <= self.entries@.len(),
                r@.map_values(|c: ContainerInfo| c@) == self@.take(i as int),
            decreases self.entries@.len() - i,
        {
            proof { self.lemma_view_len(); }
            let c = self.entries[i].info.duplicate();
            let ghost prev = r@;
            r.push(c);
            proof {
                assert(r@.map_values(|c: ContainerInfo| c@) =~= prev.map_values(|c: ContainerInfo| c@).push(c@));
                assert(self@.take(i + 1) =~= self@.take(i as int).push(self@[i as int]));
            }
            i = i + 1;
        }
        proof {
            self.lemma_view_len();
            assert(self@.take(i as int) =~= self@);
        }
        r
    }
}


impl<T> ContainerTable<T> {
    /// Removes every stopped container and returns how many were removed.
    /// The remaining containers keep their order and payloads.
    pub fn remove_stopped(&mut self) -> (n: usize)
        requires
            old(self).wf(),
        ensures
            final(self).wf(),
            final(self)@ == old(self)@.filter(not_stopped_pred()),
            final(self).pairs() == old(self).pairs().filter(pair_not_stopped_pred::<T>()),
            n == count_stopped(old(self)@),
    {
        let ghost orig = self@;
        let ghost orig_pairs = self.pairs();
        let ghost mut k: int = 0;
        let mut i: usize = 0;
        let mut n: usize = 0;
        let total = self.entries.len();
        proof {
            self.lemma_view_len();
            assert(orig.take(0) =~= Seq::<ContainerInfoView>::empty());
            assert(orig_pairs.take(0) =~= Seq::<(ContainerInfoView, T)>::empty());
            reveal(Seq::filter);
            assert(self@.take(0) =~= orig.take(0).filter(not_stopped_pred()));
            assert(self.pairs().take(0) =~= orig_pairs.take(0).filter(pair_not_stopped_pred::<T>()));
            assert(self@.skip(0) =~= orig.skip(0));
            assert(self.pairs().skip(0) =~= orig_pairs.skip(0));
            assert(orig.take(0) =~= Seq::<ContainerInfoView>::empty());
        }
        while i < self.entries.len()
            invariant
                0 <= k <= orig.len(),
                orig.len() == orig_pairs.len(),
                orig.len() == total,
                i <= self@.len(),
                self@.len() == self.pairs().len(),
                self@.len() - i == orig.len() - k,
                unique_ids(self@),
                self@.take(i as int) == orig.take(k).filter(not_stopped_pred()),
                self@.skip(i as int) == orig.skip(k),
                self.pairs().take(i as int) == orig_pairs.take(k).filter(pair_not_stopped_pred::<T>()),
                self.pairs().skip(i as int) == orig_pairs.skip(k),
                forall|j: int| 0 <= j < orig.len() ==> (#[trigger] orig_pairs[j]).0 == orig[j],
                n == count_stopped(orig.take(k)),
                n <= k,
            decreases self@.len() - i,
        {
            proof { self.lemma_view_len(); }
            let stopped = self.entries[i].info.status == ContainerStatus::Stopped;
            let ghost cur = self@[i as int];
            let ghost cur_pair = self.pairs()[i as int];
            proof {
                assert(self@.skip(i as int)[0] == orig.skip(k)[0]);
                assert(cur == orig[k]);
                assert(self.pairs().skip(i as int)[0] == orig_pairs.skip(k)[0]);
                assert(cur_pair == orig_pairs[k]);
                assert(orig.take(k + 1) =~= orig.take(k).push(orig[k]));
                assert(orig_pairs.take(k + 1) =~= orig_pairs.take(k).push(orig_pairs[k]));
                orig.take(k).lemma_filter_push(orig[k], not_stopped_pred());
                orig_pairs.take(k).lemma_filter_push(orig_pairs[k], pair_not_stopped_pred::<T>());
                assert(orig.take(k + 1).drop_last() =~= orig.take(k));
            }
            if stopped {
                let ghost before = self@;
                let ghost before_pairs = self.pairs();
                let _removed = self.entries.remove(i);
                proof {
                    self.lemma_view_len();
                    assert(self@ =~= before.remove(i as int));
                    assert(self.pairs() =~= before_pairs.remove(i as int));
                    assert(self@.take(i as int) =~= before.take(i as int));
                    assert(self.pairs().take(i as int) =~= before_pairs.take(i as int));
                    assert(self@.skip(i as int) =~= before.skip(i as int).skip(1));
                    assert(self.pairs().skip(i as int) =~= before_pairs.skip(i as int).skip(1));
                    assert(orig.skip(k).skip(1) =~= orig.skip(k + 1));
                    assert(orig_pairs.skip(k).skip(1) =~= orig_pairs.skip(k + 1));
                    assert forall|a: int, b: int| 0 <= a < self@.len() && 0 <= b < self@.len() && a != b
                        implies #[trigger] self@[a].id != #[trigger] self@[b].id by {
                        let oa = if a < i { a } else { a + 1 };
                        let ob = if b < i { b } else { b + 1 };
                        assert(self@[a] == before[oa]);
                        assert(self@[b] == before[ob]);
                    }
                    k = k + 1;
                }
                n = n + 1;
            } else {
                proof {
                    assert(self@.take(i + 1) =~= self@.take(i as int).push(cur));
                    assert(self.pairs().take(i + 1) =~= self.pairs().take(i as int).push(cur_pair));
                    assert(self@.skip(i + 1) =~= self@.skip(i as int).skip(1));
                    assert(self.pairs().skip(i + 1) =~= self.pairs().skip(i as int).skip(1));
                    assert(orig.skip(k).skip(1) =~= orig.skip(k + 1));
                    assert(orig_pairs.skip(k).skip(1) =~= orig_pairs.skip(k + 1));
                    k = k + 1;
                }
                i = i + 1;
            }
        }
        proof {
            self.lemma_view_len();
            assert(orig.take(k) =~= orig);
            assert(orig_pairs.take(k) =~= orig_pairs);
            assert(self@.take(i as int) =~= self@);
            assert(self.pairs().take(i as int) =~= self.pairs());
        }
        n
    }

    /// Stops every running container; the others are left as they are.
    pub fn stop_all_running(&mut self)
        requires
            old(self).wf(),
        ensures
            final(self).wf(),
            final(self)@ == shut_down_all(old(self)@),
            final(self).payloads() == old(self).payloads(),
    {
        let ghost orig = self@;
        let ghost orig_payloads = self.payloads();
        let mut i: usize = 0;
        proof { self.lemma_view_len(); }
        while i < self.entries.len()
            invariant
                i <= self@.len(),
                self@.len() == orig.len(),
                unique_ids(self@),
                self.payloads() == orig_payloads,
                forall|j: int| 0 <= j < i ==> #[trigger] self@[j] == shut_down(orig[j]),
                forall|j: int| i <= j < self@.len() ==> #[trigger] self@[j] == orig[j],
            decreases self@.len() - i,
        {
            proof { self.lemma_view_len(); }
            if self.entries[i].info.status == ContainerStatus::Running {
                self.set_state(i, ContainerStatus::Stopped, None);
            }
            i = i + 1;
        }
        proof {
            assert(self@ =~= orig.map_values(|c: ContainerInfoView| shut_down(c)));
        }
    }

    /// The information of every stopped container, in table order.
    pub fn list_stopped(&self) -> (r: Vec<ContainerInfo>)
        ensures
            r@.map_values(|c: ContainerInfo| c@) == self@.filter(stopped_pred()),
    {
        let mut r: Vec<ContainerInfo> = Vec::new();
        let mut i: usize = 0;
        proof {
            reveal(Seq::filter);
            assert(self@.take(0) =~= Seq::<ContainerInfoView>::empty());
            assert(r@.map_values(|c: ContainerInfo| c@) =~= self@.take(0).filter(stopped_pred()));
        }
        while i < self.entries.len()
            invariant
                i <= self.entries@.len(),
                r@.map_values(|c: ContainerInfo| c@) == self@.take(i as int).filter(stopped_pred()),
            decreases self.entries@.len() - i,
        {
            proof {
                self.lemma_view_len();
                assert(self@.take(i + 1) =~= self@.take(i as int).push(self@[i as int]));
                self@.take(i as int).lemma_filter_push(self@[i as int], stopped_pred());
            }
            if self.entries[i].info.status == ContainerStatus::Stopped {
                let c = self.entries[i].info.duplicate();
                let ghost prev = r@;
                r.push(c);
                proof {
                    assert(r@.map_values(|c: ContainerInfo| c@) =~= prev.map_values(|c: ContainerInfo| c@).push(c@));
                }
            }
            i = i + 1;
        }
        proof {
            self.lemma_view_len();
            assert(self@.take(i as int) =~= self@);
        }
        r
    }
}

/// Creating, starting, stopping and deleting a new container leaves the table
/// as it was, and each of the four steps is allowed.
pub proof fn law_lifecycle_round_trip(m: Seq<ContainerInfoView>, id: Seq<char>, pid: u32)
    requires
        unique_ids(m),
        !has_id(m, id),
    ensures
        create_outcome(m, id) is Ok,
        start_outcome(after_create(m, id), id) is Ok,
        stop_outcome(after_start(after_create(m, id), id, pid), id) is Ok,
        delete_outcome(after_stop(after_start(after_create(m, id), id, pid), id), id) is Ok,
        after_delete(after_stop(after_start(after_create(m, id), id, pid), id), id) == m,
{
    let n = m.len() as int;
    let m1 = after_create(m, id);
    assert(unique_ids(m1)) by {
        assert forall|i: int, j: int| 0 <= i < m1.len() && 0 <= j < m1.len() && i != j
            implies #[trigger] m1[i].id != #[trigger] m1[j].id by {
            if i == n {
                assert(m1[j] == m[j]);
            } else if j == n {
                assert(m1[i] == m[i]);
            } else {
                assert(m1[i] == m[i]);
                assert(m1[j] == m[j]);
            }
        }
    }
    lemma_index_of_unique(m1, id, n);
    let m2 = after_start(m1, id, pid);
    assert(unique_ids(m2)) by {
        assert forall|i: int, j: int| 0 <= i < m2.len() && 0 <= j < m2.len() && i != j
            implies #[trigger] m2[i].id != #[trigger] m2[j].id by {
            assert(m2[i].id == m1[i].id);
            assert(m2[j].id == m1[j].id);
        }
    }
    lemma_index_of_unique(m2, id, n);
    let m3 = after_stop(m2, id);
    assert(unique_ids(m3)) by {
        assert forall|i: int, j: int| 0 <= i < m3.len() && 0 <= j < m3.len() && i != j
            implies #[trigger] m3[i].id != #[trigger] m3[j].id by {
            assert(m3[i].id == m1[i].id);
            assert(m3[j].id == m1[j].id);
        }
    }
    lemma_index_of_unique(m3, id, n);
    assert(after_delete(m3, id) =~= m);
}

/// Deleting is refused exactly for a container that is missing or running: a
/// container that was only created, or that has stopped, is deleted.
pub proof fn law_delete_refuses_only_running(m: Seq<ContainerInfoView>, id: Seq<char>)
    ensures
        status_of(m, id) == Some(ContainerStatus::Created) ==> delete_outcome(m, id) is Ok,
        status_of(m, id) == Some(ContainerStatus::Stopped) ==> delete_outcome(m, id) is Ok,
        status_of(m, id) == Some(ContainerStatus::Running)
            ==> delete_outcome(m, id) == Err::<(), LifecycleError>(LifecycleError::StillRunning),
        status_of(m, id) is None ==> delete_outcome(m, id) == Err::<(), LifecycleError>(LifecycleError::NotFound),
{
}

/// Starting succeeds exactly for a container that was created and not yet
/// started; stopping succeeds exactly for a running container.
pub proof fn law_start_stop_need_status(m: Seq<ContainerInfoView>, id: Seq<char>)
    ensures
        start_outcome(m, id) is Ok <==> status_of(m, id) == Some(ContainerStatus::Created),
        status_of(m, id) == Some(ContainerStatus::Running)
            ==> start_outcome(m, id) == Err::<(), LifecycleError>(LifecycleError::AlreadyRunning),
        status_of(m, id) == Some(ContainerStatus::Stopped)
            ==> start_outcome(m, id) == Err::<(), LifecycleError>(LifecycleError::CannotRestart),
        stop_outcome(m, id) is Ok <==> status_of(m, id) == Some(ContainerStatus::Running),
        status_of(m, id) is None ==> start_outcome(m, id) == Err::<(), LifecycleError>(LifecycleError::NotFound)
            && stop_outcome(m, id) == Err::<(), LifecycleError>(LifecycleError::NotFound),
{
}

/// A container deleted right after it is created is deleted, and the table is
/// as it was before the create.
pub proof fn law_create_then_delete(m: Seq<ContainerInfoView>, id: Seq<char>)
    requires
        unique_ids(m),
        !has_id(m, id),
    ensures
        delete_outcome(after_create(m, id), id) is Ok,
        after_delete(after_create(m, id), id) == m,
{
    law_create_then_lookup(m, id);
    law_delete_refuses_only_running(after_create(m, id), id);
    let m1 = after_create(m, id);
    lemma_index_of_unique(m1, id, m.len() as int);
    assert(m1.remove(m.len() as int) =~= m);
}

/// A created container is found with status `Created` and no process id.
pub proof fn law_create_then_lookup(m: Seq<ContainerInfoView>, id: Seq<char>)
    requires
        unique_ids(m),
        !has_id(m, id),
    ensures
        unique_ids(after_create(m, id)),
        status_of(after_create(m, id), id) == Some(ContainerStatus::Created),
        after_create(m, id)[index_of(after_create(m, id), id)] == created_view(id),
{
    let n = m.len() as int;
    let m1 = after_create(m, id);
    assert forall|i: int, j: int| 0 <= i < m1.len() && 0 <= j < m1.len() && i != j
        implies #[trigger] m1[i].id != #[trigger] m1[j].id by {
        if i == n {
            assert(m1[j] == m[j]);
        } else if j == n {
            assert(m1[i] == m[i]);
        } else {
            assert(m1[i] == m[i]);
            assert(m1[j] == m[j]);
        }
    }
    lemma_index_of_unique(m1, id, n);
}

/// An operation on one container leaves every other container as it was.
pub proof fn law_other_containers_unchanged(
    m: Seq<ContainerInfoView>,
    id: Seq<char>,
    other: Seq<char>,
    pid: u32,
)
    requires
        unique_ids(m),
        has_id(m, id),
        id != other,
    ensures
        status_of(after_start(m, id, pid), other) == status_of(m, other),
        status_of(after_stop(m, id), other) == status_of(m, other),
        status_of(after_delete(m, id), other) == status_of(m, other),
{
    let i = index_of(m, id);
    let ms = after_start(m, id, pid);
    let mt = after_stop(m, id);
    let md = after_delete(m, id);
    if has_id(m, other) {
        let j = index_of(m, other);
        assert(j != i);
        assert(ms[j] == m[j]);
        assert(unique_ids(ms)) by {
            assert forall|a: int, b: int| 0 <= a < ms.len() && 0 <= b < ms.len() && a != b
                implies #[trigger] ms[a].id != #[trigger] ms[b].id by {
                assert(ms[a].id == m[a].id);
                assert(ms[b].id == m[b].id);
            }
        }
        lemma_index_of_unique(ms, other, j);
        assert(mt[j] == m[j]);
        assert(unique_ids(mt)) by {
            assert forall|a: int, b: int| 0 <= a < mt.len() && 0 <= b < mt.len() && a != b
                implies #[trigger] mt[a].id != #[trigger] mt[b].id by {
                assert(mt[a].id == m[a].id);
                assert(mt[b].id == m[b].id);
            }
        }
        lemma_index_of_unique(mt, other, j);
        let jd = if j < i { j } else { j - 1 };
        assert(md[jd] == m[j]);
        assert(unique_ids(md)) by {
            assert forall|a: int, b: int| 0 <= a < md.len() && 0 <= b < md.len() && a != b
                implies #[trigger] md[a].id != #[trigger] md[b].id by {
                let oa = if a < i { a } else { a + 1 };
                let ob = if b < i { b } else { b + 1 };
                assert(md[a] == m[oa]);
                assert(md[b] == m[ob]);
            }
        }
        lemma_index_of_unique(md, other, jd);
    } else {
        assert(!has_id(ms, other)) by {
            if has_id(ms, other) {
                let j = index_of(ms, other);
                assert(m[j].id == other);
            }
        }
        assert(!has_id(mt, other)) by {
            if has_id(mt, other) {
                let j = index_of(mt, other);
                assert(m[j].id == other);
            }
        }
        assert(!has_id(md, other)) by {
            if has_id(md, other) {
                let j = index_of(md, other);
                let oj = if j < i { j } else { j + 1 };
                assert(md[j] == m[oj]);
            }
        }
    }
}

/// A container's status only moves forward: Created, then Running, then
/// Stopped. A successful start or stop raises the rank of the container's
/// status, and a stopped container is never started again.
pub proof fn law_status_moves_forward(m: Seq<ContainerInfoView>, id: Seq<char>, pid: u32)
    requires
        unique_ids(m),
    ensures
        start_outcome(m, id) is Ok ==> status_of(after_start(m, id, pid), id) == Some(ContainerStatus::Running)
            && status_rank(ContainerStatus::Running) > status_rank(status_of(m, id)->0),
        stop_outcome(m, id) is Ok ==> status_of(after_stop(m, id), id) == Some(ContainerStatus::Stopped)
            && status_rank(ContainerStatus::Stopped) > status_rank(status_of(m, id)->0),
        status_of(m, id) == Some(ContainerStatus::Stopped) ==> start_outcome(m, id) == Err::<(), LifecycleError>(LifecycleError::CannotRestart),
{
    if has_id(m, id) {
        let i = index_of(m, id);
        let ms = after_start(m, id, pid);
        assert(unique_ids(ms)) by {
            assert forall|a: int, b: int| 0 <= a < ms.len() && 0 <= b < ms.len() && a != b
                implies #[trigger] ms[a].id != #[trigger] ms[b].id by {
                assert(ms[a].id == m[a].id);
                assert(ms[b].id == m[b].id);
            }
        }
        lemma_index_of_unique(ms, id, i);
        let mt = after_stop(m, id);
        assert(unique_ids(mt)) by {
            assert forall|a: int, b: int| 0 <= a < mt.len() && 0 <= b < mt.len() && a != b
                implies #[trigger] mt[a].id != #[trigger] mt[b].id by {
                assert(mt[a].id == m[a].id);
                assert(mt[b].id == m[b].id);
            }
        }
        lemma_index_of_unique(mt, id, i);
    }
}

/// A deleted container is gone from the table.
pub proof fn law_deleted_is_gone(m: Seq<ContainerInfoView>, id: Seq<char>)
    requires
        unique_ids(m),
        delete_outcome(m, id) is Ok,
    ensures
        !has_id(after_delete(m, id), id),
        after_delete(m, id).len() + 1 == m.len(),
{
    let i = index_of(m, id);
    let md = after_delete(m, id);
    if has_id(md, id) {
        let j = index_of(md, id);
        let oj = if j < i { j } else { j + 1 };
        assert(md[j] == m[oj]);
        assert(m[oj].id != m[i].id);
    }
}


/// Removing the stopped containers leaves no stopped container, keeps every
/// container that was not stopped, and removes as many as were stopped.
pub proof fn law_cleanup_removes_exactly_stopped(m: Seq<ContainerInfoView>)
    ensures
        forall|i: int|
            0 <= i < m.filter(not_stopped_pred()).len() ==> !is_stopped(#[trigger] m.filter(not_stopped_pred())[i]),
        forall|i: int| 0 <= i < m.len() && !is_stopped(m[i]) ==> #[trigger] m.filter(not_stopped_pred()).contains(m[i]),
        m.filter(not_stopped_pred()).len() + count_stopped(m) == m.len(),
    decreases m.len(),
{
    broadcast use vstd::seq_lib::group_filter_ensures;
    reveal(Seq::filter);
    if m.len() > 0 {
        law_cleanup_removes_exactly_stopped(m.drop_last());
    }
    assert forall|i: int|
        0 <= i < m.filter(not_stopped_pred()).len() implies !is_stopped(#[trigger] m.filter(not_stopped_pred())[i]) by {
        m.lemma_filter_pred(not_stopped_pred(), i);
    }
    assert forall|i: int| 0 <= i < m.len() && !is_stopped(m[i]) implies #[trigger] m.filter(not_stopped_pred()).contains(
        m[i],
    ) by {
        m.lemma_filter_contains(not_stopped_pred(), i);
    }
}

/// Removing the stopped containers of a table with unique ids leaves none of
/// their ids behind, and keeps the ids unique.
pub proof fn law_cleanup_removes_stopped_ids(m: Seq<ContainerInfoView>)
    requires
        unique_ids(m),
    ensures
        forall|i: int| 0 <= i < m.len() && is_stopped(m[i]) ==> !has_id(m.filter(not_stopped_pred()), #[trigger] m[i].id),
        unique_ids(m.filter(not_stopped_pred())),
{
    let f = m.filter(not_stopped_pred());
    assert forall|i: int| 0 <= i < m.len() && is_stopped(m[i]) implies !has_id(f, #[trigger] m[i].id) by {
        if has_id(f, m[i].id) {
            let k = choose|k: int| 0 <= k < f.len() && #[trigger] f[k].id == m[i].id;
            m.lemma_filter_pred(not_stopped_pred(), k);
            assert(f.contains(f[k]));
            m.lemma_filter_contains_rev(not_stopped_pred(), f[k]);
            let j = choose|j: int| 0 <= j < m.len() && m[j] == f[k];
            assert(m[j].id == m[i].id);
            assert(i != j);
        }
    }
    assert forall|a: int, b: int| 0 <= a < f.len() && 0 <= b < f.len() && a != b implies #[trigger] f[a].id != #[trigger] f[b].id by {
        if f[a].id == f[b].id {
            lemma_filtered_ids_distinct(m, a, b);
        }
    }
}

proof fn lemma_filtered_ids_distinct(m: Seq<ContainerInfoView>, a: int, b: int)
    requires
        unique_ids(m),
        0 <= a < m.filter(not_stopped_pred()).len(),
        0 <= b < m.filter(not_stopped_pred()).len(),
        a != b,
    ensures
        m.filter(not_stopped_pred())[a].id != m.filter(not_stopped_pred())[b].id,
    decreases m.len(),
{
    reveal(Seq::filter);
    broadcast use vstd::seq_lib::group_filter_ensures;
    let rest = m.drop_last();
    let fr = rest.filter(not_stopped_pred());
    let f = m.filter(not_stopped_pred());
    assert(unique_ids(rest));
    if is_not_stopped(m.last()) {
        assert(f == fr.push(m.last()));
        if a < fr.len() && b < fr.len() {
            lemma_filtered_ids_distinct(rest, a, b);
        } else {
            let x = if a < fr.len() { a } else { b };
            assert(fr.contains(fr[x]));
            rest.lemma_filter_contains_rev(not_stopped_pred(), fr[x]);
            let j = choose|j: int| 0 <= j < rest.len() && rest[j] == fr[x];
            assert(m[j] == rest[j]);
            assert(m[j].id != m[m.len() - 1].id);
        }
    } else {
        assert(f == fr);
        lemma_filtered_ids_distinct(rest, a, b);
    }
}

/// After a shutdown no container runs; each keeps its id, and a container
/// that was not running is unchanged.
pub proof fn law_shutdown_leaves_none_running(m: Seq<ContainerInfoView>)
    ensures
        shut_down_all(m).len() == m.len(),
        forall|i: int|
            0 <= i < m.len() ==> (#[trigger] shut_down_all(m)[i]).status
                != ContainerStatus::Running,
        forall|i: int| 0 <= i < m.len() ==> (#[trigger] shut_down_all(m)[i]).id == m[i].id,
        forall|i: int|
            0 <= i < m.len() && m[i].status != ContainerStatus::Running ==> #[trigger] shut_down_all(m)[i] == m[i],
{
}

/// A shutdown followed by removing the stopped containers leaves only the
/// containers that were created and never started.
pub proof fn law_shutdown_then_cleanup_keeps_created(m: Seq<ContainerInfoView>)
    ensures
        forall|i: int|
            0 <= i < shut_down_all(m).filter(not_stopped_pred()).len()
                ==> (#[trigger] shut_down_all(m).filter(not_stopped_pred())[i]).status
                == ContainerStatus::Created,
{
    let s = shut_down_all(m);
    law_shutdown_leaves_none_running(m);
    law_cleanup_removes_exactly_stopped(s);
    assert forall|i: int| 0 <= i < s.filter(not_stopped_pred()).len() implies (
    #[trigger] s.filter(not_stopped_pred())[i]).status == ContainerStatus::Created by {
        broadcast use vstd::seq_lib::group_filter_ensures;
        let x = s.filter(not_stopped_pred())[i];
        assert(s.filter(not_stopped_pred()).contains(x));
        s.lemma_filter_contains_rev(not_stopped_pred(), x);
        assert(s.contains(x));
        let k = choose|k: int| 0 <= k < s.len() && s[k] == x;
        assert(s[k].status != ContainerStatus::Running);
        assert(!is_stopped(x));
    }
}

} // verus!
