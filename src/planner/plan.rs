//! Turning differences into an ordered plan of actions, and the guardrails.

use vstd::prelude::*;
use vstd::string::*;

use crate::config::spec::{DeployConfig, PodConfig};
use crate::digest::{decimal, u64_text};
use crate::planner::diff::{opt_view, DiffResult, DiffType, ResourceDiff};
use crate::bytes::str_eq;

verus! {

/// An ordered plan of actions.
#[derive(Debug)]
pub struct DeploymentPlan {
    /// When the plan was made.
    pub created_at: i64,
    /// Digest of the document the plan brings about.
    pub config_hash: String,
    /// Actions in execution order.
    pub actions: Vec<PlannedAction>,
    /// Whether the plan passes the guardrails.
    pub passes_guardrails: bool,
    /// Guardrail violations.
    pub guardrail_violations: Vec<String>,
}

/// One action of a plan.
#[derive(Debug, Clone)]
pub struct PlannedAction {
    /// Kind of action.
    pub action_type: ActionType,
    /// Name of the resource.
    pub resource_name: String,
    /// Pod to create, for creations.
    pub pod_config: Option<PodConfig>,
    /// Provider identifier, for deletions.
    pub runpod_id: Option<String>,
    /// Why the action is there.
    pub reason: String,
    /// Digest of the pod to create.
    pub new_hash: Option<String>,
    /// Indices of the actions that must succeed first.
    pub dependencies: Vec<usize>,
}

/// Kinds of actions.
#[derive(Debug, Clone, Copy, PartialEq, Eq, Structural)]
pub enum ActionType {
    /// Create a pod.
    CreatePod,
    /// Update a pod.
    UpdatePod,
    /// Delete a pod.
    DeletePod,
    /// Stop a pod.
    StopPod,
    /// Resume a stopped pod.
    ResumePod,
    /// Nothing to do.
    Noop,
}

/// What is known of an action.
pub struct ActionView {
    /// Kind of action.
    pub kind: ActionType,
    /// Resource name.
    pub name: Seq<char>,
    /// Provider identifier, for deletions.
    pub runpod_id: Option<Seq<char>>,
    /// Digest of the pod to create.
    pub new_hash: Option<Seq<char>>,
    /// Indices of the actions that must succeed first.
    pub deps: Seq<usize>,
    /// Whether a pod configuration is attached.
    pub has_config: bool,
    /// Why the action is there.
    pub reason: Seq<char>,
}

/// View of an action.
pub open spec fn action_view(a: PlannedAction) -> ActionView {
    ActionView {
        kind: a.action_type,
        name: a.resource_name@,
        runpod_id: opt_view(a.runpod_id),
        new_hash: opt_view(a.new_hash),
        deps: a.dependencies@,
        has_config: a.pod_config is Some,
        reason: a.reason@,
    }
}

/// View of a list of actions.
pub open spec fn actions_view(s: Seq<PlannedAction>) -> Seq<ActionView> {
    s.map_values(|a: PlannedAction| action_view(a))
}

/// The first desired pod named `name`.
pub open spec fn first_named(pods: Seq<PodConfig>, name: Seq<char>) -> Option<PodConfig>
    decreases pods.len(),
{
    if pods.len() == 0 {
        None
    } else if pods[0].name@ == name {
        Some(pods[0])
    } else {
        first_named(pods.drop_first(), name)
    }
}

/// Word naming a kind of replacement in reasons.
pub open spec fn diff_word(t: DiffType) -> Seq<char> {
    match t {
        DiffType::Create => "create"@,
        DiffType::Update => "update"@,
        DiffType::Delete => "delete"@,
        DiffType::NoChange => "no change"@,
        DiffType::Drift => "drift"@,
    }
}

/// Whether the difference asks to replace a desired pod.
pub open spec fn is_replacement(d: ResourceDiff, pods: Seq<PodConfig>) -> bool {
    (d.diff_type == DiffType::Update || d.diff_type == DiffType::Drift) && first_named(pods, d.name@) is Some
}

/// Whether the difference asks to create a desired pod.
pub open spec fn is_creation(d: ResourceDiff, pods: Seq<PodConfig>) -> bool {
    d.diff_type == DiffType::Create && first_named(pods, d.name@) is Some
}

/// The deletion of an orphan.
pub open spec fn delete_view(d: ResourceDiff) -> ActionView {
    ActionView {
        kind: ActionType::DeletePod,
        name: d.name@,
        runpod_id: opt_view(d.provider_id),
        new_hash: None,
        deps: Seq::empty(),
        has_config: false,
        reason: "Pod removed from configuration"@,
    }
}

/// The creation of a new pod.
pub open spec fn create_view(d: ResourceDiff) -> ActionView {
    ActionView {
        kind: ActionType::CreatePod,
        name: d.name@,
        runpod_id: None,
        new_hash: opt_view(d.new_hash),
        deps: Seq::empty(),
        has_config: true,
        reason: "Pod defined in configuration"@,
    }
}

/// The deletion half of a replacement.
pub open spec fn replace_delete_view(d: ResourceDiff) -> ActionView {
    ActionView {
        kind: ActionType::DeletePod,
        name: d.name@,
        runpod_id: opt_view(d.provider_id),
        new_hash: None,
        deps: Seq::empty(),
        has_config: false,
        reason: "Recreating pod due to "@ + diff_word(d.diff_type),
    }
}

/// The creation half of a replacement, depending on the action at `dep`.
pub open spec fn replace_create_view(d: ResourceDiff, dep: usize) -> ActionView {
    ActionView {
        kind: ActionType::CreatePod,
        name: d.name@,
        runpod_id: None,
        new_hash: opt_view(d.new_hash),
        deps: seq![dep],
        has_config: true,
        reason: "Recreating pod due to "@ + diff_word(d.diff_type),
    }
}

/// The deletions of orphans, in diff order.
pub open spec fn delete_part(diffs: Seq<ResourceDiff>) -> Seq<ActionView>
    decreases diffs.len(),
{
    if diffs.len() == 0 {
        Seq::empty()
    } else if diffs.last().diff_type == DiffType::Delete {
        delete_part(diffs.drop_last()).push(delete_view(diffs.last()))
    } else {
        delete_part(diffs.drop_last())
    }
}

/// The creations of new pods, in diff order.
pub open spec fn create_part(diffs: Seq<ResourceDiff>, pods: Seq<PodConfig>) -> Seq<ActionView>
    decreases diffs.len(),
{
    if diffs.len() == 0 {
        Seq::empty()
    } else if is_creation(diffs.last(), pods) {
        create_part(diffs.drop_last(), pods).push(create_view(diffs.last()))
    } else {
        create_part(diffs.drop_last(), pods)
    }
}

/// The replacements, each a deletion followed by a creation that depends on
/// it, in diff order, the first at index `base` of the plan.
pub open spec fn replace_part(diffs: Seq<ResourceDiff>, pods: Seq<PodConfig>, base: nat) -> Seq<ActionView>
    decreases diffs.len(),
{
    if diffs.len() == 0 {
        Seq::empty()
    } else {
        let prev = replace_part(diffs.drop_last(), pods, base);
        if is_replacement(diffs.last(), pods) {
            prev.push(replace_delete_view(diffs.last())).push(
                replace_create_view(diffs.last(), (base + prev.len()) as usize),
            )
        } else {
            prev
        }
    }
}

/// The actions of the plan made from `diffs`: deletions, then creations,
/// then replacements.
pub open spec fn plan_actions(diffs: Seq<ResourceDiff>, pods: Seq<PodConfig>) -> Seq<ActionView> {
    let d = delete_part(diffs);
    let c = create_part(diffs, pods);
    d + c + replace_part(diffs, pods, d.len() + c.len())
}

/// GPUs asked for by the creations of new pods.
pub open spec fn creation_gpus(diffs: Seq<ResourceDiff>, pods: Seq<PodConfig>) -> nat
    decreases diffs.len(),
{
    if diffs.len() == 0 {
        0
    } else {
        creation_gpus(diffs.drop_last(), pods) + if is_creation(diffs.last(), pods) {
            first_named(pods, diffs.last().name@)->0.gpu.count as nat
        } else {
            0nat
        }
    }
}

/// GPUs asked for by the creations that replace pods.
pub open spec fn replacement_gpus(diffs: Seq<ResourceDiff>, pods: Seq<PodConfig>) -> nat
    decreases diffs.len(),
{
    if diffs.len() == 0 {
        0
    } else {
        replacement_gpus(diffs.drop_last(), pods) + if is_replacement(diffs.last(), pods) {
            first_named(pods, diffs.last().name@)->0.gpu.count as nat
        } else {
            0nat
        }
    }
}

/// GPUs asked for by all the creations of the plan made from `diffs`.
pub open spec fn plan_gpus(diffs: Seq<ResourceDiff>, pods: Seq<PodConfig>) -> nat {
    creation_gpus(diffs, pods) + replacement_gpus(diffs, pods)
}

/// A `nat` saturated to the range of `u64`.
pub open spec fn sat_u64(n: nat) -> nat {
    if n <= u64::MAX {
        n
    } else {
        u64::MAX as nat
    }
}

/// The text of a GPU-limit violation.
pub open spec fn gpu_violation_text(total: nat, max: nat) -> Seq<char> {
    "Plan requires "@ + decimal(total) + " GPUs but max_gpus is "@ + decimal(max)
}

/// The guardrail violations of a plan whose GPU total, as reported, is
/// `total`.
pub open spec fn violations_for(config: DeployConfig, total: nat) -> Seq<Seq<char>> {
    match config.guardrails {
        Some(g) => match g.max_gpus {
            Some(m) => if total > m as nat {
                seq![gpu_violation_text(total, m as nat)]
            } else {
                Seq::empty()
            },
            None => Seq::empty(),
        },
        None => Seq::empty(),
    }
}

/// Whether the plan's GPU total exceeds the GPU limit.
pub open spec fn exceeds_gpu_limit(config: DeployConfig, gpus: nat) -> bool {
    config.guardrails matches Some(g) && (g.max_gpus matches Some(m) && gpus > m as nat)
}

/// Number of actions of a kind.
pub open spec fn count_actions(s: Seq<PlannedAction>, t: ActionType) -> nat
    decreases s.len(),
{
    if s.len() == 0 {
        0
    } else {
        count_actions(s.drop_last(), t) + if s.last().action_type == t { 1nat } else { 0nat }
    }
}

proof fn lemma_count_actions_bound(s: Seq<PlannedAction>, t: ActionType)
    ensures
        count_actions(s, t) <= s.len(),
    decreases s.len(),
{
    if s.len() > 0 {
        lemma_count_actions_bound(s.drop_last(), t);
    }
}

/// Index of the first desired pod named `name`.
fn find_first_named(pods: &Vec<PodConfig>, name: &str) -> (r: Option<usize>)
    ensures
        match r {
            Some(i) => i < pods@.len() && first_named(pods@, name@) == Some(pods@[i as int]),
            None => first_named(pods@, name@) is None,
        },
{
    let mut i: usize = 0;
    assert(pods@.skip(0) =~= pods@);
    while i < pods.len()
        invariant
            i <= pods@.len(),
            first_named(pods@, name@) == first_named(pods@.skip(i as int), name@),
        decreases pods@.len() - i,
    {
        proof {
            let t = pods@.skip(i as int);
            assert(t[0] == pods@[i as int]);
            assert(t.drop_first() =~= pods@.skip(i as int + 1));
        }
        if str_eq(pods[i].name.as_str(), name) {
            return Some(i);
        }
        i = i + 1;
    }
    None
}

/// Copies an optional string.
fn copy_opt_str(o: &Option<String>) -> (r: Option<String>)
    ensures
        opt_view(r) == opt_view(*o),
{
    match o {
        Some(s) => Some(s.clone()),
        None => None,
    }
}

/// "Recreating pod due to update" or "... drift".
fn recreate_reason(t: DiffType) -> (r: String)
    ensures
        r@ == "Recreating pod due to "@ + diff_word(t),
{
    let word = match t {
        DiffType::Create => "create",
        DiffType::Update => "update",
        DiffType::Delete => "delete",
        DiffType::NoChange => "no change",
        DiffType::Drift => "drift",
    };
    String::from_str("Recreating pod due to ").concat(word)
}

impl DeploymentPlan {
    /// The plan that brings about the differences in `diff`: every
    /// deletion of an orphan first, in diff order, with no dependencies;
    /// then every creation of a new pod, with no dependencies; then, for
    /// every update or drift, a deletion immediately followed by a creation
    /// that depends on exactly that deletion. Unchanged resources contribute
    /// nothing. The plan fails the guardrails exactly when its creations ask
    /// for more GPUs than `max_gpus`.
    pub fn from_diff(diff: &DiffResult, config: &DeployConfig, config_hash: &str, now: i64) -> (r: Self)
        ensures
            actions_view(r.actions@) == plan_actions(diff.diffs@, config.pods@),
            r.config_hash@ == config_hash@,
            r.created_at == now,
            r.guardrail_violations@.map_values(|v: String| v@) == violations_for(
                *config,
                sat_u64(plan_gpus(diff.diffs@, config.pods@)),
            ),
            r.passes_guardrails == !exceeds_gpu_limit(*config, plan_gpus(diff.diffs@, config.pods@)),
    {
        let diffs = &diff.diffs;
        let pods = &config.pods;
        let mut actions: Vec<PlannedAction> = Vec::new();
        let mut gpus: u64 = 0;
        let mut i: usize = 0;
        while i < diffs.len()
            invariant
                i <= diffs@.len(),
                actions_view(actions@) == delete_part(diffs@.take(i as int)),
            decreases diffs@.len() - i,
        {
            proof {
                assert(diffs@.take(i as int + 1).drop_last() =~= diffs@.take(i as int));
            }
            let d = &diffs[i];
            if d.diff_type == DiffType::Delete {
                let ghost before = actions@;
                actions.push(
                    PlannedAction {
                        action_type: ActionType::DeletePod,
                        resource_name: d.name.clone(),
                        pod_config: None,
                        runpod_id: copy_opt_str(&d.provider_id),
                        reason: String::from_str("Pod removed from configuration"),
                        new_hash: None,
                        dependencies: Vec::new(),
                    },
                );
                proof {
                    assert(actions_view(actions@) =~= actions_view(before).push(delete_view(*d)));
                }
            }
            i = i + 1;
        }
        assert(diffs@.take(i as int) =~= diffs@);
        let ghost dpart = actions_view(actions@);
        i = 0;
        while i < diffs.len()
            invariant
                i <= diffs@.len(),
                pods == &config.pods,
                actions_view(actions@) == dpart + create_part(diffs@.take(i as int), pods@),
                gpus == sat_u64(creation_gpus(diffs@.take(i as int), pods@)),
            decreases diffs@.len() - i,
        {
            proof {
                assert(diffs@.take(i as int + 1).drop_last() =~= diffs@.take(i as int));
            }
            let d = &diffs[i];
            if d.diff_type == DiffType::Create {
                match find_first_named(pods, d.name.as_str()) {
                    Some(k) => {
                        let ghost before = actions@;
                        actions.push(
                            PlannedAction {
                                action_type: ActionType::CreatePod,
                                resource_name: d.name.clone(),
                                pod_config: Some(pods[k].clone()),
                                runpod_id: None,
                                reason: String::from_str("Pod defined in configuration"),
                                new_hash: copy_opt_str(&d.new_hash),
                                dependencies: Vec::new(),
                            },
                        );
                        gpus = gpus.saturating_add(pods[k].gpu.count as u64);
                        proof {
                            assert(actions_view(actions@) =~= actions_view(before).push(create_view(*d)));
                        }
                    },
                    None => {},
                }
            }
            i = i + 1;
        }
        assert(diffs@.take(i as int) =~= diffs@);
        let ghost base = actions@.len();
        let ghost cpart = actions_view(actions@);
        i = 0;
        while i < diffs.len()
            invariant
                i <= diffs@.len(),
                pods == &config.pods,
                base == delete_part(diffs@).len() + create_part(diffs@, pods@).len(),
                cpart == delete_part(diffs@) + create_part(diffs@, pods@),
                actions_view(actions@) == cpart + replace_part(diffs@.take(i as int), pods@, base),
                gpus == sat_u64(creation_gpus(diffs@, pods@) + replacement_gpus(diffs@.take(i as int), pods@)),
            decreases diffs@.len() - i,
        {
            proof {
                assert(diffs@.take(i as int + 1).drop_last() =~= diffs@.take(i as int));
            }
            let d = &diffs[i];
            if d.diff_type == DiffType::Update || d.diff_type == DiffType::Drift {
                match find_first_named(pods, d.name.as_str()) {
                    Some(k) => {
                        let ghost before = actions@;
                        let delete_idx = actions.len();
                        actions.push(
                            PlannedAction {
                                action_type: ActionType::DeletePod,
                                resource_name: d.name.clone(),
                                pod_config: None,
                                runpod_id: copy_opt_str(&d.provider_id),
                                reason: recreate_reason(d.diff_type),
                                new_hash: None,
                                dependencies: Vec::new(),
                            },
                        );
                        let mut deps: Vec<usize> = Vec::new();
                        deps.push(delete_idx);
                        actions.push(
                            PlannedAction {
                                action_type: ActionType::CreatePod,
                                resource_name: d.name.clone(),
                                pod_config: Some(pods[k].clone()),
                                runpod_id: None,
                                reason: recreate_reason(d.diff_type),
                                new_hash: copy_opt_str(&d.new_hash),
                                dependencies: deps,
                            },
                        );
                        gpus = gpus.saturating_add(pods[k].gpu.count as u64);
                        proof {
                            assert(deps@ =~= seq![delete_idx]);
                            assert(actions_view(actions@) =~= actions_view(before).push(
                                replace_delete_view(*d),
                            ).push(replace_create_view(*d, delete_idx)));
                        }
                    },
                    None => {},
                }
            }
            i = i + 1;
        }
        assert(diffs@.take(i as int) =~= diffs@);
        let (passes, violations) = Self::check_guardrails(config, gpus);
        proof {
            let total = plan_gpus(diffs@, pods@);
            assert(gpus as nat == sat_u64(total));
            if violations@.len() == 0 {
                assert(violations@.map_values(|v: String| v@).len() == 0);
            } else {
                assert(violations@.map_values(|v: String| v@).len() > 0);
            }
        }
        DeploymentPlan {
            created_at: now,
            config_hash: String::from_str(config_hash),
            actions,
            passes_guardrails: passes,
            guardrail_violations: violations,
        }
    }

    /// The guardrail verdict for a plan that asks for `gpus` GPUs (already
    /// saturated to `u64`): a violation when that exceeds `max_gpus`.
    fn check_guardrails(config: &DeployConfig, gpus: u64) -> (r: (bool, Vec<String>))
        ensures
            r.1@.map_values(|v: String| v@) == violations_for(*config, gpus as nat),
            r.0 == (r.1@.len() == 0),
    {
        let mut violations: Vec<String> = Vec::new();
        match &config.guardrails {
            Some(g) => match g.max_gpus {
                Some(m) => {
                    if gpus > m as u64 {
                        let text = String::from_str("Plan requires ").concat(u64_text(gpus).as_str()).concat(
                            " GPUs but max_gpus is ",
                        ).concat(u64_text(m as u64).as_str());
                        violations.push(text);
                        assert(violations@.map_values(|v: String| v@) =~= seq![gpu_violation_text(gpus as nat, m as nat)]);
                    }
                },
                None => {},
            },
            None => {},
        }
        assert(violations@.len() == 0 ==> violations@.map_values(|v: String| v@) =~= Seq::<Seq<char>>::empty());
        let passes = violations.len() == 0;
        (passes, violations)
    }

    /// A plan with no actions, which passes the guardrails.
    pub fn empty(config_hash: &str, now: i64) -> (r: Self)
        ensures
            r.actions@.len() == 0,
            r.config_hash@ == config_hash@,
            r.created_at == now,
            r.passes_guardrails,
            r.guardrail_violations@.len() == 0,
    {
        DeploymentPlan {
            created_at: now,
            config_hash: String::from_str(config_hash),
            actions: Vec::new(),
            passes_guardrails: true,
            guardrail_violations: Vec::new(),
        }
    }

    /// Whether the plan has no actions.
    pub fn is_empty(&self) -> (r: bool)
        ensures
            r == (self.actions@.len() == 0),
    {
        self.actions.len() == 0
    }

    /// Number of actions.
    pub fn action_count(&self) -> (r: usize)
        ensures
            r == self.actions@.len(),
    {
        self.actions.len()
    }

    fn count_of(&self, t: ActionType) -> (r: usize)
        ensures
            r == count_actions(self.actions@, t),
    {
        let mut n: usize = 0;
        let mut i: usize = 0;
        while i < self.actions.len()
            invariant
                i <= self.actions@.len(),
                n == count_actions(self.actions@.take(i as int), t),
            decreases self.actions@.len() - i,
        {
            proof {
                assert(self.actions@.take(i as int + 1).drop_last() =~= self.actions@.take(i as int));
                lemma_count_actions_bound(self.actions@.take(i as int), t);
            }
            if self.actions[i].action_type == t {
                n = n + 1;
            }
            i = i + 1;
        }
        assert(self.actions@.take(i as int) =~= self.actions@);
        n
    }

    /// Number of creations.
    pub fn create_count(&self) -> (r: usize)
        ensures
            r == count_actions(self.actions@, ActionType::CreatePod),
    {
        self.count_of(ActionType::CreatePod)
    }

    /// Number of deletions.
    pub fn delete_count(&self) -> (r: usize)
        ensures
            r == count_actions(self.actions@, ActionType::DeletePod),
    {
        self.count_of(ActionType::DeletePod)
    }

    /// Indices of the actions with no dependencies, in order.
    pub fn ready_actions(&self) -> (r: Vec<usize>)
        ensures
            r@ == Seq::new(self.actions@.len(), |i: int| i as usize).filter(
                |i: usize| i < self.actions@.len() && self.actions@[i as int].dependencies@.len() == 0,
            ),
    {
        let ghost all = Seq::new(self.actions@.len(), |i: int| i as usize);
        let ghost f = |i: usize| i < self.actions@.len() && self.actions@[i as int].dependencies@.len() == 0;
        let mut r: Vec<usize> = Vec::new();
        let mut i: usize = 0;
        while i < self.actions.len()
            invariant
                i <= self.actions@.len(),
                all == Seq::new(self.actions@.len(), |i: int| i as usize),
                f == (|i: usize| i < self.actions@.len() && self.actions@[i as int].dependencies@.len() == 0),
                r@ == all.take(i as int).filter(f),
            decreases self.actions@.len() - i,
        {
            proof {
                assert(all.take(i as int + 1).drop_last() =~= all.take(i as int));
                assert(all.take(i as int + 1).last() == i);
                reveal(Seq::filter);
            }
            if self.actions[i].dependencies.len() == 0 {
                r.push(i);
            }
            i = i + 1;
        }
        assert(all.take(i as int) =~= all);
        r
    }

    /// Indices of the actions that depend on the action at `action_idx`,
    /// in order.
    pub fn dependent_actions(&self, action_idx: usize) -> (r: Vec<usize>)
        ensures
            r@ == Seq::new(self.actions@.len(), |i: int| i as usize).filter(
                |i: usize| i < self.actions@.len() && self.actions@[i as int].dependencies@.contains(action_idx),
            ),
    {
        let ghost all = Seq::new(self.actions@.len(), |i: int| i as usize);
        let ghost f = |i: usize| i < self.actions@.len() && self.actions@[i as int].dependencies@.contains(action_idx);
        let mut r: Vec<usize> = Vec::new();
        let mut i: usize = 0;
        while i < self.actions.len()
            invariant
                i <= self.actions@.len(),
                all == Seq::new(self.actions@.len(), |i: int| i as usize),
                f == (|i: usize| i < self.actions@.len() && self.actions@[i as int].dependencies@.contains(action_idx)),
                r@ == all.take(i as int).filter(f),
            decreases self.actions@.len() - i,
        {
            proof {
                assert(all.take(i as int + 1).drop_last() =~= all.take(i as int));
                assert(all.take(i as int + 1).last() == i);
                reveal(Seq::filter);
            }
            let deps = &self.actions[i].dependencies;
            let mut found = false;
            let mut j: usize = 0;
            while j < deps.len()
                invariant
                    j <= deps@.len(),
                    found == exists|k: int| 0 <= k < j && deps@[k] == action_idx,
                decreases deps@.len() - j,
            {
                if deps[j] == action_idx {
                    found = true;
                }
                j = j + 1;
            }
            if found {
                r.push(i);
            }
            i = i + 1;
        }
        assert(all.take(i as int) =~= all);
        r
    }
}

impl PlannedAction {
    /// A sentence that describes the action.
    pub fn description(&self) -> (r: String)
        ensures
            r@ == match self.action_type {
                ActionType::CreatePod => "Create pod '"@ + self.resource_name@ + "'"@,
                ActionType::UpdatePod => "Update pod '"@ + self.resource_name@ + "'"@,
                ActionType::DeletePod => "Delete pod '"@ + self.resource_name@ + "'"@,
                ActionType::StopPod => "Stop pod '"@ + self.resource_name@ + "'"@,
                ActionType::ResumePod => "Resume pod '"@ + self.resource_name@ + "'"@,
                ActionType::Noop => "No change for '"@ + self.resource_name@ + "'"@,
            },
    {
        let head = match self.action_type {
            ActionType::CreatePod => "Create pod '",
            ActionType::UpdatePod => "Update pod '",
            ActionType::DeletePod => "Delete pod '",
            ActionType::StopPod => "Stop pod '",
            ActionType::ResumePod => "Resume pod '",
            ActionType::Noop => "No change for '",
        };
        String::from_str(head).concat(self.resource_name.as_str()).concat("'")
    }
}

} // verus!
