//! The record of what has been deployed.
//!
//! Times are seconds since the Unix epoch. Pods and volumes are kept as lists
//! whose names are unique; the order of the lists carries no meaning.

use vstd::prelude::*;
use vstd::string::*;

use crate::bytes::str_eq;

verus! {

/// Version of the state format.
pub const STATE_VERSION: &'static str = "1.0";

/// Number of history entries kept.
pub const MAX_HISTORY: usize = 100;

/// The deployment state of one project environment.
#[derive(Debug, Clone)]
pub struct DeploymentState {
    /// Format version.
    pub version: String,
    /// Project name.
    pub project: String,
    /// Environment name.
    pub environment: String,
    /// Digest of the last applied document.
    pub config_hash: String,
    /// Deployed pods, with unique names.
    pub pods: Vec<PodState>,
    /// Persistent volumes, with unique names.
    pub volumes: Vec<VolumeState>,
    /// When the state last changed.
    pub last_updated: i64,
    /// Recent runs, oldest first.
    pub history: Vec<DeploymentHistoryEntry>,
}

/// A deployed pod.
#[derive(Debug, Clone)]
pub struct PodState {
    /// Name in the document.
    pub name: String,
    /// Provider identifier.
    pub runpod_id: String,
    /// Digest of the pod's specification when it was deployed.
    pub config_hash: String,
    /// Status.
    pub status: DeploymentStatus,
    /// GPU type allocated.
    pub gpu_type: String,
    /// Number of GPUs.
    pub gpu_count: u32,
    /// Image deployed.
    pub image: String,
    /// Public endpoints: port and URL.
    pub endpoints: Vec<(u16, String)>,
    /// When the pod was created.
    pub created_at: i64,
    /// When the record last changed.
    pub updated_at: i64,
    /// Tags, as key/value pairs.
    pub tags: Vec<(String, String)>,
}

/// A persistent volume.
#[derive(Debug, Clone)]
pub struct VolumeState {
    /// Volume name.
    pub name: String,
    /// Provider identifier.
    pub runpod_id: String,
    /// Mount path.
    pub mount_path: String,
    /// Size in GB.
    pub size_gb: u32,
    /// When the volume was created.
    pub created_at: i64,
}

/// Status of a deployed pod.
#[derive(Debug, Clone, Copy, PartialEq, Eq, Structural)]
pub enum DeploymentStatus {
    /// Being created.
    Creating,
    /// Running.
    Running,
    /// Stopped.
    Stopped,
    /// Failed.
    Error,
    /// Being deleted.
    Deleting,
    /// Deleted.
    Deleted,
    /// Not known.
    Unknown,
}

/// One recorded run.
#[derive(Debug, Clone)]
pub struct DeploymentHistoryEntry {
    /// When the run ended.
    pub timestamp: i64,
    /// Kind of run.
    pub operation: DeploymentOperation,
    /// Digest of the document applied.
    pub config_hash: String,
    /// Resources the run touched.
    pub resources: Vec<String>,
    /// Whether it succeeded.
    pub success: bool,
    /// Error, if it failed.
    pub error: Option<String>,
}

/// Kinds of runs.
#[derive(Debug, Clone, Copy, PartialEq, Eq, Structural)]
pub enum DeploymentOperation {
    /// Deployment.
    Create,
    /// Update.
    Update,
    /// Scaling.
    Scale,
    /// Reconciliation.
    Reconcile,
    /// Destruction.
    Destroy,
}

/// Whether no two pods share a name.
pub open spec fn pod_names_unique(pods: Seq<PodState>) -> bool {
    forall|i: int, j: int|
        0 <= i < pods.len() && 0 <= j < pods.len() && i != j ==> #[trigger] pods[i].name@ != #[trigger] pods[j].name@
}

/// Whether no two volumes share a name.
pub open spec fn volume_names_unique(vols: Seq<VolumeState>) -> bool {
    forall|i: int, j: int|
        0 <= i < vols.len() && 0 <= j < vols.len() && i != j ==> #[trigger] vols[i].name@ != #[trigger] vols[j].name@
}

/// Whether some pod has the name.
pub open spec fn has_pod_named(pods: Seq<PodState>, name: Seq<char>) -> bool {
    exists|i: int| 0 <= i < pods.len() && #[trigger] pods[i].name@ == name
}

/// The history after appending `e`, the oldest entry dropped when
/// `MAX_HISTORY` entries are already kept.
pub open spec fn push_bounded(h: Seq<DeploymentHistoryEntry>, e: DeploymentHistoryEntry) -> Seq<DeploymentHistoryEntry> {
    if h.len() >= MAX_HISTORY {
        h.drop_first().push(e)
    } else {
        h.push(e)
    }
}

/// The history after appending each of `entries` in turn.
pub open spec fn push_all(h: Seq<DeploymentHistoryEntry>, entries: Seq<DeploymentHistoryEntry>) -> Seq<DeploymentHistoryEntry>
    decreases entries.len(),
{
    if entries.len() == 0 {
        h
    } else {
        push_bounded(push_all(h, entries.drop_last()), entries.last())
    }
}

/// However many runs are recorded, the history keeps at most `MAX_HISTORY`
/// entries and the newest is last.
pub proof fn lemma_history_bounded(h: Seq<DeploymentHistoryEntry>, entries: Seq<DeploymentHistoryEntry>)
    requires
        h.len() <= MAX_HISTORY,
    ensures
        push_all(h, entries).len() <= MAX_HISTORY,
        entries.len() > 0 ==> push_all(h, entries).last() == entries.last(),
    decreases entries.len(),
{
    if entries.len() > 0 {
        lemma_history_bounded(h, entries.drop_last());
    }
}

impl DeploymentState {
    /// Well-formedness: pod names and volume names are unique, and the
    /// history holds at most `MAX_HISTORY` entries.
    pub open spec fn wf(&self) -> bool {
        pod_names_unique(self.pods@) && volume_names_unique(self.volumes@) && self.history@.len()
            <= MAX_HISTORY
    }

    /// An empty state for a project environment.
    pub fn new(project: &str, environment: &str, now: i64) -> (r: Self)
        ensures
            r.wf(),
            r.version@ == STATE_VERSION@,
            r.project@ == project@,
            r.environment@ == environment@,
            r.config_hash@.len() == 0,
            r.pods@.len() == 0,
            r.volumes@.len() == 0,
            r.last_updated == now,
            r.history@.len() == 0,
    {
        DeploymentState {
            version: String::from_str(STATE_VERSION),
            project: String::from_str(project),
            environment: String::from_str(environment),
            config_hash: String::new(),
            pods: Vec::new(),
            volumes: Vec::new(),
            last_updated: now,
            history: Vec::new(),
        }
    }

    /// Index of the pod with the given name.
    pub fn find_pod(&self, name: &str) -> (r: Option<usize>)
        ensures
            match r {
                Some(i) => i < self.pods@.len() && self.pods@[i as int].name@ == name@,
                None => !has_pod_named(self.pods@, name@),
            },
    {
        let mut i: usize = 0;
        while i < self.pods.len()
            invariant
                i <= self.pods@.len(),
                forall|j: int| 0 <= j < i ==> #[trigger] self.pods@[j].name@ != name@,
            decreases self.pods@.len() - i,
        {
            if str_eq(self.pods[i].name.as_str(), name) {
                return Some(i);
            }
            i = i + 1;
        }
        None
    }

    /// The pod with the given name.
    pub fn get_pod(&self, name: &str) -> (r: Option<&PodState>)
        ensures
            match r {
                Some(p) => self.pods@.contains(*p) && p.name@ == name@,
                None => !has_pod_named(self.pods@, name@),
            },
    {
        match self.find_pod(name) {
            Some(i) => Some(&self.pods[i]),
            None => None,
        }
    }

    /// Records a pod, replacing the pod of the same name.
    pub fn set_pod(&mut self, pod: PodState, now: i64)
        requires
            old(self).wf(),
        ensures
            final(self).wf(),
            final(self).pods@.contains(pod),
            forall|p: PodState| p.name@ != pod.name@ ==> (#[trigger] final(self).pods@.contains(p) <==> old(self).pods@.contains(p)),
            forall|p: PodState| #[trigger] final(self).pods@.contains(p) && p.name@ == pod.name@ ==> p == pod,
            final(self).last_updated == now,
            final(self).history == old(self).history,
            final(self).config_hash == old(self).config_hash,
            final(self).volumes == old(self).volumes,
    {
        let ghost before = self.pods@;
        match self.find_pod(pod.name.as_str()) {
            Some(i) => {
                self.pods.set(i, pod);
                proof {
                    assert forall|p: PodState| p.name@ != pod.name@ implies (#[trigger] self.pods@.contains(p) <==> before.contains(p)) by {
                        if before.contains(p) {
                            let j = choose|j: int| 0 <= j < before.len() && before[j] == p;
                            assert(self.pods@[j] == p);
                        }
                        if self.pods@.contains(p) {
                            let j = choose|j: int| 0 <= j < self.pods@.len() && self.pods@[j] == p;
                            assert(before[j] == p);
                        }
                    }
                    assert forall|p: PodState| #[trigger] self.pods@.contains(p) && p.name@ == pod.name@ implies p == pod by {
                        let j = choose|j: int| 0 <= j < self.pods@.len() && self.pods@[j] == p;
                        if j != i {
                            assert(before[j].name@ == before[i as int].name@);
                        }
                    }
                    assert(self.pods@[i as int] == pod);
                }
            },
            None => {
                self.pods.push(pod);
                proof {
                    let n = before.len();
                    assert(self.pods@[n as int] == pod);
                    assert forall|p: PodState| p.name@ != pod.name@ implies (#[trigger] self.pods@.contains(p) <==> before.contains(p)) by {
                        if before.contains(p) {
                            let j = choose|j: int| 0 <= j < before.len() && before[j] == p;
                            assert(self.pods@[j] == p);
                        }
                    }
                    assert forall|p: PodState| #[trigger] self.pods@.contains(p) && p.name@ == pod.name@ implies p == pod by {
                        let j = choose|j: int| 0 <= j < self.pods@.len() && self.pods@[j] == p;
                        if j < n {
                            assert(before[j].name@ == pod.name@);
                        }
                    }
                }
            },
        }
        self.last_updated = now;
    }

    /// Removes the pod with the given name and returns it; the time of last
    /// change moves to `now` only when a pod was removed.
    pub fn remove_pod(&mut self, name: &str, now: i64) -> (r: Option<PodState>)
        requires
            old(self).wf(),
        ensures
            final(self).wf(),
            forall|p: PodState| #[trigger] final(self).pods@.contains(p) <==> (old(self).pods@.contains(p) && p.name@ != name@),
            match r {
                Some(p) => old(self).pods@.contains(p) && p.name@ == name@ && final(self).last_updated == now,
                None => !has_pod_named(old(self).pods@, name@) && final(self).last_updated == old(self).last_updated,
            },
            final(self).history == old(self).history,
            final(self).config_hash == old(self).config_hash,
            final(self).volumes == old(self).volumes,
    {
        let ghost before = self.pods@;
        match self.find_pod(name) {
            Some(i) => {
                let p = self.pods.remove(i);
                proof {
                    assert(before[i as int] == p);
                    assert forall|q: PodState| #[trigger] self.pods@.contains(q) <==> (before.contains(q) && q.name@ != name@) by {
                        if self.pods@.contains(q) {
                            let j = choose|j: int| 0 <= j < self.pods@.len() && self.pods@[j] == q;
                            let k = if j < i { j } else { j + 1 };
                            assert(before[k] == q);
                            assert(k != i);
                        }
                        if before.contains(q) && q.name@ != name@ {
                            let k = choose|k: int| 0 <= k < before.len() && before[k] == q;
                            assert(k != i);
                            let j = if k < i { k } else { k - 1 };
                            assert(self.pods@[j] == q);
                        }
                    }
                    assert forall|a: int, b: int|
                        0 <= a < self.pods@.len() && 0 <= b < self.pods@.len() && a != b
                        implies #[trigger] self.pods@[a].name@ != #[trigger] self.pods@[b].name@ by {
                        let ka = if a < i { a } else { a + 1 };
                        let kb = if b < i { b } else { b + 1 };
                        assert(self.pods@[a] == before[ka]);
                        assert(self.pods@[b] == before[kb]);
                    }
                }
                self.last_updated = now;
                Some(p)
            },
            None => {
                proof {
                    assert forall|q: PodState| #[trigger] self.pods@.contains(q) implies q.name@ != name@ by {
                        let j = choose|j: int| 0 <= j < self.pods@.len() && self.pods@[j] == q;
                    }
                }
                None
            },
        }
    }

    /// Appends a history entry, dropping the oldest when `MAX_HISTORY`
    /// entries are already kept.
    pub fn add_history(&mut self, entry: DeploymentHistoryEntry)
        requires
            old(self).history@.len() <= MAX_HISTORY,
        ensures
            final(self).history@.len() <= MAX_HISTORY,
            final(self).history@.last() == entry,
            final(self).history@ == push_bounded(old(self).history@, entry),
            final(self).pods == old(self).pods,
            final(self).volumes == old(self).volumes,
            final(self).config_hash == old(self).config_hash,
            final(self).last_updated == old(self).last_updated,
            final(self).project == old(self).project,
            final(self).environment == old(self).environment,
            final(self).version == old(self).version,
    {
        if self.history.len() >= MAX_HISTORY {
            self.history.remove(0);
        }
        self.history.push(entry);
    }

    /// Sets the status of the pod with the given name, if there is one.
    pub fn set_pod_status(&mut self, name: &str, status: DeploymentStatus, now: i64)
        requires
            old(self).wf(),
        ensures
            final(self).wf(),
            final(self).pods@.len() == old(self).pods@.len(),
            forall|i: int| 0 <= i < old(self).pods@.len() ==> #[trigger] final(self).pods@[i] == if old(self).pods@[i].name@ == name@ {
                PodState { status, updated_at: now, ..old(self).pods@[i] }
            } else {
                old(self).pods@[i]
            },
            final(self).history == old(self).history,
            final(self).config_hash == old(self).config_hash,
            final(self).volumes == old(self).volumes,
            final(self).last_updated == old(self).last_updated,
    {
        match self.find_pod(name) {
            Some(i) => {
                let ghost before = self.pods@;
                let mut p = self.pods.remove(i);
                p.set_status(status, now);
                self.pods.insert(i, p);
                proof {
                    assert forall|j: int| 0 <= j < before.len() implies #[trigger] self.pods@[j] == if before[j].name@ == name@ {
                        PodState { status, updated_at: now, ..before[j] }
                    } else {
                        before[j]
                    } by {
                        if j != i {
                            assert(self.pods@[j] == before[j]);
                        }
                    }
                    assert forall|a: int, b: int|
                        0 <= a < self.pods@.len() && 0 <= b < self.pods@.len() && a != b
                        implies #[trigger] self.pods@[a].name@ != #[trigger] self.pods@[b].name@ by {
                        assert(self.pods@[a].name@ == before[a].name@);
                        assert(self.pods@[b].name@ == before[b].name@);
                    }
                }
            },
            None => {},
        }
    }

    /// Index of the volume with the given name.
    fn find_volume(&self, name: &str) -> (r: Option<usize>)
        ensures
            match r {
                Some(i) => i < self.volumes@.len() && self.volumes@[i as int].name@ == name@,
                None => forall|j: int| 0 <= j < self.volumes@.len() ==> #[trigger] self.volumes@[j].name@ != name@,
            },
    {
        let mut i: usize = 0;
        while i < self.volumes.len()
            invariant
                i <= self.volumes@.len(),
                forall|j: int| 0 <= j < i ==> #[trigger] self.volumes@[j].name@ != name@,
            decreases self.volumes@.len() - i,
        {
            if str_eq(self.volumes[i].name.as_str(), name) {
                return Some(i);
            }
            i = i + 1;
        }
        None
    }

    /// Records a volume, replacing the volume of the same name.
    pub fn set_volume(&mut self, volume: VolumeState, now: i64)
        requires
            old(self).wf(),
        ensures
            final(self).wf(),
            final(self).volumes@.contains(volume),
            forall|v: VolumeState| v.name@ != volume.name@ ==> (#[trigger] final(self).volumes@.contains(v) <==> old(self).volumes@.contains(v)),
            forall|v: VolumeState| #[trigger] final(self).volumes@.contains(v) && v.name@ == volume.name@ ==> v == volume,
            final(self).last_updated == now,
            final(self).pods == old(self).pods,
            final(self).history == old(self).history,
            final(self).config_hash == old(self).config_hash,
    {
        let ghost before = self.volumes@;
        let found = self.find_volume(volume.name.as_str());
        if let Some(i) = found {
            self.volumes.set(i, volume);
            proof {
                assert forall|v: VolumeState| v.name@ != volume.name@ implies (#[trigger] self.volumes@.contains(v) <==> before.contains(v)) by {
                    if before.contains(v) {
                        let j = choose|j: int| 0 <= j < before.len() && before[j] == v;
                        assert(self.volumes@[j] == v);
                    }
                    if self.volumes@.contains(v) {
                        let j = choose|j: int| 0 <= j < self.volumes@.len() && self.volumes@[j] == v;
                        assert(before[j] == v);
                    }
                }
                assert forall|v: VolumeState| #[trigger] self.volumes@.contains(v) && v.name@ == volume.name@ implies v == volume by {
                    let j = choose|j: int| 0 <= j < self.volumes@.len() && self.volumes@[j] == v;
                    if j != i {
                        assert(before[j].name@ == before[i as int].name@);
                    }
                }
                assert(self.volumes@[i as int] == volume);
            }
        } else {
            self.volumes.push(volume);
            proof {
                let n = before.len();
                assert(self.volumes@[n as int] == volume);
                assert forall|v: VolumeState| v.name@ != volume.name@ implies (#[trigger] self.volumes@.contains(v) <==> before.contains(v)) by {
                    if before.contains(v) {
                        let j = choose|j: int| 0 <= j < before.len() && before[j] == v;
                        assert(self.volumes@[j] == v);
                    }
                }
                assert forall|v: VolumeState| #[trigger] self.volumes@.contains(v) && v.name@ == volume.name@ implies v == volume by {
                    let j = choose|j: int| 0 <= j < self.volumes@.len() && self.volumes@[j] == v;
                    if j < n {
                        assert(before[j].name@ == volume.name@);
                    }
                }
            }
        }
        self.last_updated = now;
    }

    /// Names of the deployed pods.
    pub fn pod_names(&self) -> (r: Vec<String>)
        ensures
            r@.len() == self.pods@.len(),
            forall|i: int| 0 <= i < r@.len() ==> #[trigger] r@[i]@ == self.pods@[i].name@,
    {
        let mut r: Vec<String> = Vec::new();
        let mut i: usize = 0;
        while i < self.pods.len()
            invariant
                i <= self.pods@.len(),
                r@.len() == i,
                forall|j: int| 0 <= j < i ==> #[trigger] r@[j]@ == self.pods@[j].name@,
            decreases self.pods@.len() - i,
        {
            r.push(self.pods[i].name.clone());
            i = i + 1;
        }
        r
    }

    /// Names of the running pods, in stored order.
    pub fn running_pods(&self) -> (r: Vec<String>)
        ensures
            r@.map_values(|s: String| s@) == self.pods@.filter(
                |p: PodState| p.status == DeploymentStatus::Running,
            ).map_values(|p: PodState| p.name@),
    {
        let mut r: Vec<String> = Vec::new();
        let mut i: usize = 0;
        while i < self.pods.len()
            invariant
                i <= self.pods@.len(),
                r@.map_values(|s: String| s@) == self.pods@.take(i as int).filter(
                    |p: PodState| p.status == DeploymentStatus::Running,
                ).map_values(|p: PodState| p.name@),
            decreases self.pods@.len() - i,
        {
            let ghost f = |p: PodState| p.status == DeploymentStatus::Running;
            proof {
                assert(self.pods@.take(i as int + 1).drop_last() =~= self.pods@.take(i as int));
                reveal(Seq::filter);
            }
            let ghost prev = r@;
            if self.pods[i].status == DeploymentStatus::Running {
                r.push(self.pods[i].name.clone());
                assert(r@.map_values(|s: String| s@) =~= prev.map_values(|s: String| s@).push(self.pods@[i as int].name@));
            }
            i = i + 1;
            proof {
                assert(r@.map_values(|s: String| s@) =~= self.pods@.take(i as int).filter(f).map_values(|p: PodState| p.name@));
            }
        }
        assert(self.pods@.take(i as int) =~= self.pods@);
        r
    }

    /// The volume with the given name.
    pub fn get_volume(&self, name: &str) -> (r: Option<&VolumeState>)
        ensures
            match r {
                Some(v) => self.volumes@.contains(*v) && v.name@ == name@,
                None => forall|i: int| 0 <= i < self.volumes@.len() ==> #[trigger] self.volumes@[i].name@ != name@,
            },
    {
        let mut i: usize = 0;
        while i < self.volumes.len()
            invariant
                i <= self.volumes@.len(),
                forall|j: int| 0 <= j < i ==> #[trigger] self.volumes@[j].name@ != name@,
            decreases self.volumes@.len() - i,
        {
            if str_eq(self.volumes[i].name.as_str(), name) {
                assert(self.volumes@[i as int] == self.volumes@[i as int]);
                return Some(&self.volumes[i]);
            }
            i = i + 1;
        }
        None
    }
}

impl PodState {
    /// A pod record in status `Creating`, with no GPU, image, endpoints or
    /// tags recorded yet.
    pub fn new(name: &str, runpod_id: &str, config_hash: &str, now: i64) -> (r: Self)
        ensures
            r.name@ == name@,
            r.runpod_id@ == runpod_id@,
            r.config_hash@ == config_hash@,
            r.status == DeploymentStatus::Creating,
            r.gpu_type@.len() == 0,
            r.gpu_count == 0,
            r.image@.len() == 0,
            r.endpoints@.len() == 0,
            r.created_at == now,
            r.updated_at == now,
            r.tags@.len() == 0,
    {
        PodState {
            name: String::from_str(name),
            runpod_id: String::from_str(runpod_id),
            config_hash: String::from_str(config_hash),
            status: DeploymentStatus::Creating,
            gpu_type: String::new(),
            gpu_count: 0,
            image: String::new(),
            endpoints: Vec::new(),
            created_at: now,
            updated_at: now,
            tags: Vec::new(),
        }
    }

    /// Sets the status.
    pub fn set_status(&mut self, status: DeploymentStatus, now: i64)
        ensures
            *final(self) == (PodState { status, updated_at: now, ..*old(self) }),
    {
        self.status = status;
        self.updated_at = now;
    }

    /// Records the URL of a port, replacing an earlier URL of that port.
    pub fn add_endpoint(&mut self, port: u16, url: String, now: i64)
        ensures
            final(self).endpoints@.len() >= old(self).endpoints@.len(),
            exists|i: int| 0 <= i < final(self).endpoints@.len() && #[trigger] final(self).endpoints@[i] == (port, url),
            forall|i: int| 0 <= i < final(self).endpoints@.len() && (#[trigger] final(self).endpoints@[i]).0 != port ==> i < old(self).endpoints@.len() && final(self).endpoints@[i] == old(self).endpoints@[i],
            final(self).updated_at == now,
            *final(self) == (PodState { endpoints: final(self).endpoints, updated_at: now, ..*old(self) }),
    {
        let mut i: usize = 0;
        while i < self.endpoints.len()
            invariant
                i <= self.endpoints@.len(),
                self.endpoints@ == old(self).endpoints@,
                *self == *old(self),
                forall|j: int| 0 <= j < i ==> (#[trigger] self.endpoints@[j]).0 != port,
            decreases self.endpoints@.len() - i,
        {
            if self.endpoints[i].0 == port {
                break;
            }
            i = i + 1;
        }
        let ghost before = self.endpoints@;
        if i < self.endpoints.len() {
            self.endpoints.set(i, (port, url));
            assert(self.endpoints@[i as int] == (port, url));
        } else {
            self.endpoints.push((port, url));
            assert(self.endpoints@[before.len() as int] == (port, url));
        }
        self.updated_at = now;
    }

    /// Whether the pod is running.
    pub fn is_healthy(&self) -> (r: bool)
        ensures
            r == (self.status == DeploymentStatus::Running),
    {
        self.status == DeploymentStatus::Running
    }
}

impl DeploymentHistoryEntry {
    /// A successful run.
    pub fn new(operation: DeploymentOperation, config_hash: &str, resources: Vec<String>, now: i64) -> (r: Self)
        ensures
            r.timestamp == now,
            r.operation == operation,
            r.config_hash@ == config_hash@,
            r.resources == resources,
            r.success,
            r.error is None,
    {
        DeploymentHistoryEntry {
            timestamp: now,
            operation,
            config_hash: String::from_str(config_hash),
            resources,
            success: true,
            error: None,
        }
    }

    /// A failed run.
    pub fn failed(
        operation: DeploymentOperation,
        config_hash: &str,
        resources: Vec<String>,
        error: &str,
        now: i64,
    ) -> (r: Self)
        ensures
            r.timestamp == now,
            r.operation == operation,
            r.config_hash@ == config_hash@,
            r.resources == resources,
            !r.success,
            r.error matches Some(e) && e@ == error@,
    {
        DeploymentHistoryEntry {
            timestamp: now,
            operation,
            config_hash: String::from_str(config_hash),
            resources,
            success: false,
            error: Some(String::from_str(error)),
        }
    }
}

} // verus!
