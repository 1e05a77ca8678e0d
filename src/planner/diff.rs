//! Classification of each resource against prior state and observation.

use vstd::prelude::*;
use vstd::string::*;

use crate::config::hash::{pod_digest, ConfigHasher};
use crate::config::spec::{DeployConfig, PodConfig, ProjectConfig};
use crate::digest::{decimal, u64_text};
use crate::runpod::observer::ObservedPod;
use crate::bytes::str_eq;
use crate::state::types::{DeploymentState, PodState};

verus! {

/// Compares the document with the observed pods.
#[derive(Debug, Default)]
pub struct DiffEngine {
    hasher: ConfigHasher,
}

/// The difference found for one resource.
#[derive(Debug, Clone)]
pub struct ResourceDiff {
    /// Resource name.
    pub name: String,
    /// Kind of difference.
    pub diff_type: DiffType,
    /// Field-level details.
    pub details: Vec<DiffDetail>,
    /// Digest before, if known.
    pub old_hash: Option<String>,
    /// Digest wanted, if any.
    pub new_hash: Option<String>,
    /// Provider identifier of the observed pod, if one was observed.
    pub provider_id: Option<String>,
}

/// Kinds of difference.
#[derive(Debug, Clone, Copy, PartialEq, Eq, Structural)]
pub enum DiffType {
    /// To be created.
    Create,
    /// Changed by this tool's earlier runs; to be replaced.
    Update,
    /// To be deleted.
    Delete,
    /// Unchanged.
    NoChange,
    /// Changed outside this tool; to be replaced.
    Drift,
}

/// One field that differs.
#[derive(Debug, Clone)]
pub struct DiffDetail {
    /// Field name.
    pub field: String,
    /// Value before.
    pub old_value: Option<String>,
    /// Value wanted.
    pub new_value: Option<String>,
}

/// All differences of a document.
#[derive(Debug)]
pub struct DiffResult {
    /// One entry per desired pod, in declared order, then one per orphan.
    pub diffs: Vec<ResourceDiff>,
    /// Number of `Create` entries.
    pub creates: usize,
    /// Number of `Update` and `Drift` entries.
    pub updates: usize,
    /// Number of `Delete` entries.
    pub deletes: usize,
    /// Number of `NoChange` entries.
    pub unchanged: usize,
}

/// View of an optional string.
pub open spec fn opt_view(o: Option<String>) -> Option<Seq<char>> {
    match o {
        Some(s) => Some(s@),
        None => None,
    }
}

/// View of a detail: field, value before, value wanted.
pub type DetailView = (Seq<char>, Option<Seq<char>>, Option<Seq<char>>);

/// View of details.
pub open spec fn details_view(d: Seq<DiffDetail>) -> Seq<DetailView> {
    d.map_values(|x: DiffDetail| (x.field@, opt_view(x.old_value), opt_view(x.new_value)))
}

/// Whether an observed pod carries this project's and environment's tags.
pub open spec fn is_ours(o: ObservedPod, project: ProjectConfig) -> bool {
    &&& o.project matches Some(p) && p@ == project.name@
    &&& o.environment matches Some(e) && e@ == project.environment@
}

/// The last observed pod of this project and environment whose document
/// name is `name`.
pub open spec fn observed_for(obs: Seq<ObservedPod>, project: ProjectConfig, name: Seq<char>) -> Option<ObservedPod>
    decreases obs.len(),
{
    if obs.len() == 0 {
        None
    } else if is_ours(obs.last(), project) && (obs.last().pod_name matches Some(n) && n@ == name) {
        Some(obs.last())
    } else {
        observed_for(obs.drop_last(), project, name)
    }
}

/// The recorded pod named `name`, the last one if several are.
pub open spec fn recorded_for(pods: Seq<PodState>, name: Seq<char>) -> Option<PodState>
    decreases pods.len(),
{
    if pods.len() == 0 {
        None
    } else if pods.last().name@ == name {
        Some(pods.last())
    } else {
        recorded_for(pods.drop_last(), name)
    }
}

/// The recorded pods of an optional state: none when it is absent.
pub open spec fn recorded_pods(state: Option<&DeploymentState>) -> Seq<PodState> {
    match state {
        Some(s) => s.pods@,
        None => Seq::empty(),
    }
}

/// Whether the observed pod carries the digest `h`.
pub open spec fn hash_matches(o: ObservedPod, h: Seq<char>) -> bool {
    o.spec_hash matches Some(x) && x@ == h
}

/// Classification of a desired pod from what is observed and recorded.
pub open spec fn classify(obs: Option<ObservedPod>, rec: Option<PodState>, h: Seq<char>) -> DiffType {
    match obs {
        None => DiffType::Create,
        Some(o) => if hash_matches(o, h) {
            DiffType::NoChange
        } else if rec is Some {
            DiffType::Update
        } else {
            DiffType::Drift
        },
    }
}

/// Field-level differences between a desired pod and an observed one:
/// image, GPU type (when observed), GPU count.
pub open spec fn field_details(cfg: PodConfig, o: ObservedPod) -> Seq<DetailView> {
    (if cfg.runtime.image@ != o.image@ {
        seq![("image"@, Some(o.image@), Some(cfg.runtime.image@))]
    } else {
        Seq::empty()
    }) + (if o.gpu_type matches Some(g) && g@ != cfg.gpu.gpu_type@ {
        seq![("gpu_type"@, Some(o.gpu_type->0@), Some(cfg.gpu.gpu_type@))]
    } else {
        Seq::empty()
    }) + (if cfg.gpu.count != o.gpu_count {
        seq![("gpu_count"@, Some(decimal(o.gpu_count as nat)), Some(decimal(cfg.gpu.count as nat)))]
    } else {
        Seq::empty()
    })
}

/// Details of the difference of a desired pod.
pub open spec fn pod_details(cfg: PodConfig, obs: Option<ObservedPod>, rec: Option<PodState>, h: Seq<char>) -> Seq<DetailView> {
    match obs {
        Some(o) => if hash_matches(o, h) {
            Seq::empty()
        } else {
            field_details(cfg, o)
        },
        None => match rec {
            None => seq![("pod"@, None, Some(cfg.name@))],
            Some(s) => seq![
                ("pod"@, Some("missing (was "@ + s.runpod_id@ + ")"@), Some(cfg.name@)),
            ],
        },
    }
}

/// The digest before, for a desired pod.
pub open spec fn pod_old_hash(obs: Option<ObservedPod>, rec: Option<PodState>) -> Option<Seq<char>> {
    match obs {
        Some(o) => opt_view(o.spec_hash),
        None => match rec {
            Some(s) => Some(s.config_hash@),
            None => None,
        },
    }
}

/// Whether `d` is the difference of the desired pod `cfg`, given what is
/// observed and recorded of it and its digest `h`.
pub open spec fn is_pod_diff(d: ResourceDiff, cfg: PodConfig, obs: Option<ObservedPod>, rec: Option<PodState>, h: Seq<char>) -> bool {
    &&& d.name@ == cfg.name@
    &&& d.diff_type == classify(obs, rec, h)
    &&& details_view(d.details@) == pod_details(cfg, obs, rec, h)
    &&& opt_view(d.old_hash) == pod_old_hash(obs, rec)
    &&& opt_view(d.new_hash) == Some(h)
    &&& opt_view(d.provider_id) == match obs {
        Some(o) => Some(o.id@),
        None => None,
    }
}

/// Whether some desired pod is named `name`.
pub open spec fn desired_has(pods: Seq<PodConfig>, name: Seq<char>) -> bool {
    exists|i: int| 0 <= i < pods.len() && #[trigger] pods[i].name@ == name
}

/// Whether an observed pod of this project and environment has a document
/// name that the document no longer holds.
pub open spec fn is_orphan(o: ObservedPod, config: DeployConfig) -> bool {
    is_ours(o, config.project) && (o.pod_name matches Some(n) && !desired_has(config.pods@, n@))
}

/// The orphans among the observed pods, in observed order.
pub open spec fn orphans(obs: Seq<ObservedPod>, config: DeployConfig) -> Seq<ObservedPod> {
    obs.filter(|o: ObservedPod| is_orphan(o, config))
}

/// Whether `d` is the deletion of the orphan `o`.
pub open spec fn is_orphan_diff(d: ResourceDiff, o: ObservedPod) -> bool {
    &&& o.pod_name matches Some(n) && d.name@ == n@
    &&& d.diff_type == DiffType::Delete
    &&& details_view(d.details@) == seq![("pod"@, Some(o.id@), None::<Seq<char>>)]
    &&& opt_view(d.old_hash) == opt_view(o.spec_hash)
    &&& d.new_hash is None
    &&& opt_view(d.provider_id) == Some(o.id@)
}

/// Number of differences of a kind.
pub open spec fn count_kind(diffs: Seq<ResourceDiff>, t: DiffType) -> nat
    decreases diffs.len(),
{
    if diffs.len() == 0 {
        0
    } else {
        count_kind(diffs.drop_last(), t) + if diffs.last().diff_type == t { 1nat } else { 0nat }
    }
}

/// Whether a kind of difference asks for work.
pub open spec fn is_actionable(t: DiffType) -> bool {
    t != DiffType::NoChange
}

/// Whether `r` is the diff of `config` against `state` and `observed`.
pub open spec fn is_diff_of(r: DiffResult, config: DeployConfig, state: Option<&DeploymentState>, observed: Seq<ObservedPod>) -> bool {
    let pods = config.pods@;
    let orph = orphans(observed, config);
    &&& r.diffs@.len() == pods.len() + orph.len()
    &&& forall|i: int| 0 <= i < pods.len() ==> is_pod_diff(
        #[trigger] r.diffs@[i],
        pods[i],
        observed_for(observed, config.project, pods[i].name@),
        recorded_for(recorded_pods(state), pods[i].name@),
        pod_digest(pods[i]),
    )
    &&& forall|k: int| 0 <= k < orph.len() ==> is_orphan_diff(#[trigger] r.diffs@[pods.len() + k], orph[k])
    &&& r.creates == count_kind(r.diffs@, DiffType::Create)
    &&& r.updates == count_kind(r.diffs@, DiffType::Update) + count_kind(r.diffs@, DiffType::Drift)
    &&& r.deletes == count_kind(r.diffs@, DiffType::Delete)
    &&& r.unchanged == count_kind(r.diffs@, DiffType::NoChange)
}

proof fn lemma_count_kind_bound(diffs: Seq<ResourceDiff>, t: DiffType)
    ensures
        count_kind(diffs, t) <= diffs.len(),
    decreases diffs.len(),
{
    if diffs.len() > 0 {
        lemma_count_kind_bound(diffs.drop_last(), t);
    }
}

proof fn lemma_count_kinds_sum(diffs: Seq<ResourceDiff>)
    ensures
        count_kind(diffs, DiffType::Create) + count_kind(diffs, DiffType::Update) + count_kind(
            diffs,
            DiffType::Delete,
        ) + count_kind(diffs, DiffType::NoChange) + count_kind(diffs, DiffType::Drift) == diffs.len(),
    decreases diffs.len(),
{
    if diffs.len() > 0 {
        lemma_count_kinds_sum(diffs.drop_last());
    }
}

/// Whether an observed pod carries this project's and environment's tags.
fn observed_is_ours(o: &ObservedPod, project: &ProjectConfig) -> (r: bool)
    ensures
        r == is_ours(*o, *project),
{
    match (&o.project, &o.environment) {
        (Some(p), Some(e)) => str_eq(p.as_str(), project.name.as_str()) && str_eq(
            e.as_str(),
            project.environment.as_str(),
        ),
        _ => false,
    }
}

/// Index of the observed pod that `observed_for` picks.
fn find_observed(observed: &Vec<ObservedPod>, project: &ProjectConfig, name: &str) -> (r: Option<usize>)
    ensures
        match r {
            Some(i) => i < observed@.len() && observed_for(observed@, *project, name@) == Some(observed@[i as int]),
            None => observed_for(observed@, *project, name@) is None,
        },
{
    let mut j: usize = observed.len();
    assert(observed@.take(observed@.len() as int) =~= observed@);
    while j > 0
        invariant
            j <= observed@.len(),
            observed_for(observed@, *project, name@) == observed_for(observed@.take(j as int), *project, name@),
        decreases j,
    {
        let o = &observed[j - 1];
        proof {
            let t = observed@.take(j as int);
            assert(t.last() == observed@[j - 1]);
            assert(t.drop_last() =~= observed@.take(j - 1));
        }
        let named = match &o.pod_name {
            Some(n) => str_eq(n.as_str(), name),
            None => false,
        };
        if observed_is_ours(o, project) && named {
            return Some(j - 1);
        }
        j = j - 1;
    }
    None
}

/// Index of the recorded pod that `recorded_for` picks.
fn find_recorded(pods: &Vec<PodState>, name: &str) -> (r: Option<usize>)
    ensures
        match r {
            Some(i) => i < pods@.len() && recorded_for(pods@, name@) == Some(pods@[i as int]),
            None => recorded_for(pods@, name@) is None,
        },
{
    let mut j: usize = pods.len();
    assert(pods@.take(pods@.len() as int) =~= pods@);
    while j > 0
        invariant
            j <= pods@.len(),
            recorded_for(pods@, name@) == recorded_for(pods@.take(j as int), name@),
        decreases j,
    {
        proof {
            let t = pods@.take(j as int);
            assert(t.last() == pods@[j - 1]);
            assert(t.drop_last() =~= pods@.take(j - 1));
        }
        if str_eq(pods[j - 1].name.as_str(), name) {
            return Some(j - 1);
        }
        j = j - 1;
    }
    None
}

/// Whether the document holds a pod of that name.
fn desired_contains(pods: &Vec<PodConfig>, name: &str) -> (r: bool)
    ensures
        r == desired_has(pods@, name@),
{
    let mut i: usize = 0;
    while i < pods.len()
        invariant
            i <= pods@.len(),
            forall|j: int| 0 <= j < i ==> #[trigger] pods@[j].name@ != name@,
        decreases pods@.len() - i,
    {
        if str_eq(pods[i].name.as_str(), name) {
            return true;
        }
        i = i + 1;
    }
    false
}

/// Copies an optional string.
fn copy_opt(o: &Option<String>) -> (r: Option<String>)
    ensures
        opt_view(r) == opt_view(*o),
{
    match o {
        Some(s) => Some(s.clone()),
        None => None,
    }
}

/// A detail with its three parts.
fn detail(field: String, old_value: Option<String>, new_value: Option<String>) -> (r: DiffDetail)
    ensures
        r.field == field,
        r.old_value == old_value,
        r.new_value == new_value,
{
    DiffDetail { field, old_value, new_value }
}

/// Number of differences of a kind.
fn count_of(diffs: &Vec<ResourceDiff>, t: DiffType) -> (r: usize)
    ensures
        r == count_kind(diffs@, t),
{
    let mut n: usize = 0;
    let mut i: usize = 0;
    while i < diffs.len()
        invariant
            i <= diffs@.len(),
            n == count_kind(diffs@.take(i as int), t),
        decreases diffs@.len() - i,
    {
        proof {
            assert(diffs@.take(i as int + 1).drop_last() =~= diffs@.take(i as int));
            lemma_count_kind_bound(diffs@.take(i as int), t);
        }
        if diffs[i].diff_type == t {
            n = n + 1;
        }
        i = i + 1;
    }
    assert(diffs@.take(i as int) =~= diffs@);
    n
}

/// The deletion of an orphan.
fn orphan_diff(o: &ObservedPod, name: &String) -> (r: ResourceDiff)
    requires
        o.pod_name == Some(*name),
    ensures
        is_orphan_diff(r, *o),
{
    let mut details: Vec<DiffDetail> = Vec::new();
    details.push(detail(String::from_str("pod"), Some(o.id.clone()), None));
    let r = ResourceDiff {
        name: name.clone(),
        diff_type: DiffType::Delete,
        details,
        old_hash: copy_opt(&o.spec_hash),
        new_hash: None,
        provider_id: Some(o.id.clone()),
    };
    assert(details_view(r.details@) =~= seq![("pod"@, Some(o.id@), None::<Seq<char>>)]);
    r
}

impl DiffEngine {
    /// The differences between the document, the recorded state (absent
    /// when nothing was recorded) and the observed pods: one entry per
    /// desired pod in declared order, then one `Delete` per orphan in
    /// observed order. Observed pods without this project's and
    /// environment's tags are ignored.
    pub fn compute_diff(
        &self,
        config: &DeployConfig,
        state: Option<&DeploymentState>,
        observed: &Vec<ObservedPod>,
    ) -> (r: DiffResult)
        ensures
            is_diff_of(r, *config, state, observed@),
    {
        let pods = &config.pods;
        let ghost rec = recorded_pods(state);
        let mut diffs: Vec<ResourceDiff> = Vec::new();
        let mut i: usize = 0;
        while i < pods.len()
            invariant
                i <= pods@.len(),
                diffs@.len() == i,
                rec == recorded_pods(state),
                pods == &config.pods,
                forall|j: int| 0 <= j < i ==> is_pod_diff(
                    #[trigger] diffs@[j],
                    pods@[j],
                    observed_for(observed@, config.project, pods@[j].name@),
                    recorded_for(rec, pods@[j].name@),
                    pod_digest(pods@[j]),
                ),
            decreases pods@.len() - i,
        {
            let pod = &pods[i];
            let new_hash = self.hasher.hash_pod(pod);
            let obs: Option<&ObservedPod> = match find_observed(observed, &config.project, pod.name.as_str()) {
                Some(k) => Some(&observed[k]),
                None => None,
            };
            let st: Option<&PodState> = match state {
                Some(s) => match find_recorded(&s.pods, pod.name.as_str()) {
                    Some(k) => Some(&s.pods[k]),
                    None => None,
                },
                None => None,
            };
            proof {
                if state is None {
                    assert(recorded_for(rec, pod.name@) is None);
                }
            }
            let d = Self::compute_pod_diff(pod, obs, st, new_hash.as_str());
            diffs.push(d);
            i = i + 1;
        }
        let ghost n = pods@.len();
        let mut k: usize = 0;
        assert(orphans(observed@.take(0), *config) =~= Seq::<ObservedPod>::empty()) by {
            reveal(Seq::filter);
        }
        while k < observed.len()
            invariant
                k <= observed@.len(),
                n == pods@.len(),
                pods == &config.pods,
                diffs@.len() == n + orphans(observed@.take(k as int), *config).len(),
                forall|j: int| 0 <= j < n ==> is_pod_diff(
                    #[trigger] diffs@[j],
                    pods@[j],
                    observed_for(observed@, config.project, pods@[j].name@),
                    recorded_for(rec, pods@[j].name@),
                    pod_digest(pods@[j]),
                ),
                forall|m: int| 0 <= m < orphans(observed@.take(k as int), *config).len() ==> is_orphan_diff(
                    #[trigger] diffs@[n + m],
                    orphans(observed@.take(k as int), *config)[m],
                ),
            decreases observed@.len() - k,
        {
            let o = &observed[k];
            let ghost before = diffs@;
            let ghost prev = orphans(observed@.take(k as int), *config);
            proof {
                assert(observed@.take(k as int + 1).drop_last() =~= observed@.take(k as int));
                assert(observed@.take(k as int + 1).last() == observed@[k as int]);
                reveal(Seq::filter);
            }
            match &o.pod_name {
                Some(name) => {
                    if observed_is_ours(o, &config.project) && !desired_contains(pods, name.as_str()) {
                        diffs.push(orphan_diff(o, name));
                        proof {
                            assert(orphans(observed@.take(k as int + 1), *config) == prev.push(*o));
                            assert forall|m: int| 0 <= m < prev.len() + 1 implies is_orphan_diff(
                                #[trigger] diffs@[n + m],
                                prev.push(*o)[m],
                            ) by {
                                if m < prev.len() {
                                    assert(diffs@[n + m] == before[n + m]);
                                }
                            }
                            assert forall|j: int| 0 <= j < n implies diffs@[j] == before[j] by {}
                        }
                    } else {
                        assert(orphans(observed@.take(k as int + 1), *config) == prev);
                    }
                },
                None => {
                    assert(orphans(observed@.take(k as int + 1), *config) == prev);
                },
            }
            k = k + 1;
        }
        assert(observed@.take(k as int) =~= observed@);
        let creates = count_of(&diffs, DiffType::Create);
        let updates_only = count_of(&diffs, DiffType::Update);
        let drifts = count_of(&diffs, DiffType::Drift);
        let deletes = count_of(&diffs, DiffType::Delete);
        let unchanged = count_of(&diffs, DiffType::NoChange);
        let total = diffs.len();
        proof {
            lemma_count_kinds_sum(diffs@);
            assert(updates_only + drifts <= total);
        }
        DiffResult { diffs, creates, updates: updates_only + drifts, deletes, unchanged }
    }
    /// A diff engine.
    pub fn new() -> (r: Self) {
        DiffEngine { hasher: ConfigHasher::new() }
    }

    /// Field-level differences between a desired pod and an observed one.
    pub fn compute_detailed_diff(config: &PodConfig, observed: &ObservedPod) -> (r: Vec<DiffDetail>)
        ensures
            details_view(r@) == field_details(*config, *observed),
    {
        let mut details: Vec<DiffDetail> = Vec::new();
        if !str_eq(config.runtime.image.as_str(), observed.image.as_str()) {
            details.push(
                detail(
                    String::from_str("image"),
                    Some(observed.image.clone()),
                    Some(config.runtime.image.clone()),
                ),
            );
        }
        let ghost d1 = details_view(details@);
        match &observed.gpu_type {
            Some(g) => {
                if !str_eq(g.as_str(), config.gpu.gpu_type.as_str()) {
                    details.push(
                        detail(
                            String::from_str("gpu_type"),
                            Some(g.clone()),
                            Some(config.gpu.gpu_type.clone()),
                        ),
                    );
                }
            },
            None => {},
        }
        let ghost d2 = details_view(details@);
        if config.gpu.count != observed.gpu_count {
            details.push(
                detail(
                    String::from_str("gpu_count"),
                    Some(u64_text(observed.gpu_count as u64)),
                    Some(u64_text(config.gpu.count as u64)),
                ),
            );
        }
        assert(details_view(details@) =~= field_details(*config, *observed));
        details
    }

    /// The difference of one desired pod.
    pub fn compute_pod_diff(
        config: &PodConfig,
        observed: Option<&ObservedPod>,
        state: Option<&PodState>,
        new_hash: &str,
    ) -> (r: ResourceDiff)
        ensures
            is_pod_diff(
                r,
                *config,
                match observed {
                    Some(o) => Some(*o),
                    None => None,
                },
                match state {
                    Some(s) => Some(*s),
                    None => None,
                },
                new_hash@,
            ),
    {
        match observed {
            Some(obs) => {
                let matches = match &obs.spec_hash {
                    Some(h) => str_eq(h.as_str(), new_hash),
                    None => false,
                };
                if matches {
                    let r = ResourceDiff {
                        name: config.name.clone(),
                        diff_type: DiffType::NoChange,
                        details: Vec::new(),
                        old_hash: copy_opt(&obs.spec_hash),
                        new_hash: Some(String::from_str(new_hash)),
                        provider_id: Some(obs.id.clone()),
                    };
                    assert(details_view(r.details@) =~= Seq::<DetailView>::empty());
                    r
                } else {
                    let details = Self::compute_detailed_diff(config, obs);
                    let diff_type = if state.is_some() {
                        DiffType::Update
                    } else {
                        DiffType::Drift
                    };
                    ResourceDiff {
                        name: config.name.clone(),
                        diff_type,
                        details,
                        old_hash: copy_opt(&obs.spec_hash),
                        new_hash: Some(String::from_str(new_hash)),
                        provider_id: Some(obs.id.clone()),
                    }
                }
            },
            None => {
                match state {
                    None => {
                        let mut details: Vec<DiffDetail> = Vec::new();
                        details.push(detail(String::from_str("pod"), None, Some(config.name.clone())));
                        let r = ResourceDiff {
                            name: config.name.clone(),
                            diff_type: DiffType::Create,
                            details,
                            old_hash: None,
                            new_hash: Some(String::from_str(new_hash)),
                            provider_id: None,
                        };
                        assert(details_view(r.details@) =~= seq![("pod"@, None::<Seq<char>>, Some(config.name@))]);
                        r
                    },
                    Some(st) => {
                        let was = String::from_str("missing (was ").concat(st.runpod_id.as_str()).concat(
                            ")",
                        );
                        let mut details: Vec<DiffDetail> = Vec::new();
                        details.push(detail(String::from_str("pod"), Some(was), Some(config.name.clone())));
                        let r = ResourceDiff {
                            name: config.name.clone(),
                            diff_type: DiffType::Create,
                            details,
                            old_hash: Some(st.config_hash.clone()),
                            new_hash: Some(String::from_str(new_hash)),
                            provider_id: None,
                        };
                        assert(details_view(r.details@) =~= seq![
                            ("pod"@, Some("missing (was "@ + st.runpod_id@ + ")"@), Some(config.name@)),
                        ]);
                        r
                    },
                }
            },
        }
    }
}

impl DiffResult {
    /// Whether anything is to be created, replaced or deleted.
    pub fn has_changes(&self) -> (r: bool)
        ensures
            r == (self.creates > 0 || self.updates > 0 || self.deletes > 0),
    {
        self.creates > 0 || self.updates > 0 || self.deletes > 0
    }

    /// Number of resources to create, replace or delete (saturating at
    /// `usize::MAX`).
    pub fn total_changes(&self) -> (r: usize)
        ensures
            r == if self.creates + self.updates + self.deletes <= usize::MAX {
                (self.creates + self.updates + self.deletes) as nat
            } else {
                usize::MAX as nat
            },
    {
        self.creates.saturating_add(self.updates).saturating_add(self.deletes)
    }

    /// Indices of the differences that ask for work, in order.
    pub fn actionable_diffs(&self) -> (r: Vec<usize>)
        ensures
            forall|k: int| 0 <= k < r@.len() ==> (#[trigger] r@[k]) < self.diffs@.len(),
            forall|k: int| 0 <= k < r@.len() ==> is_actionable(self.diffs@[#[trigger] r@[k] as int].diff_type),
            forall|a: int, b: int| 0 <= a < b < r@.len() ==> #[trigger] r@[a] < #[trigger] r@[b],
            forall|i: int| 0 <= i < self.diffs@.len() && is_actionable(#[trigger] self.diffs@[i].diff_type) ==> r@.contains(i as usize),
    {
        let mut r: Vec<usize> = Vec::new();
        let mut i: usize = 0;
        while i < self.diffs.len()
            invariant
                i <= self.diffs@.len(),
                forall|k: int| 0 <= k < r@.len() ==> (#[trigger] r@[k]) < i,
                forall|k: int| 0 <= k < r@.len() ==> is_actionable(self.diffs@[#[trigger] r@[k] as int].diff_type),
                forall|a: int, b: int| 0 <= a < b < r@.len() ==> #[trigger] r@[a] < #[trigger] r@[b],
                forall|j: int| 0 <= j < i && is_actionable(#[trigger] self.diffs@[j].diff_type) ==> r@.contains(j as usize),
            decreases self.diffs@.len() - i,
        {
            if self.diffs[i].diff_type != DiffType::NoChange {
                let ghost before = r@;
                r.push(i);
                proof {
                    assert(r@[r@.len() - 1] == i);
                    assert forall|j: int| 0 <= j < i + 1 && is_actionable(#[trigger] self.diffs@[j].diff_type) implies r@.contains(j as usize) by {
                        if j < i {
                            let w = choose|w: int| 0 <= w < before.len() && before[w] == j as usize;
                            assert(r@[w] == j as usize);
                        }
                    }
                }
            }
            i = i + 1;
        }
        r
    }
}

} // verus!
