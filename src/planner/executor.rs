//! Execution of a plan, as a machine that decides each step and leaves the
//! provider calls to its driver.
//!
//! A driver calls `PlanExecutor::start`, then `ExecutionRun::step` until it
//! answers `Finished`. When a step answers `Call`, the driver performs the
//! call and hands the provider's answer to `ExecutionRun::record`. At the end
//! `ExecutionRun::finish` does the bookkeeping on the state.

use vstd::prelude::*;
use vstd::string::*;

use crate::digest::{decimal, u64_text};
use crate::error::ReconcileError;
use crate::planner::diff::opt_view;
use crate::planner::plan::{ActionType, DeploymentPlan, PlannedAction};
use crate::state::types::{
    has_pod_named, push_bounded, DeploymentHistoryEntry, DeploymentOperation, DeploymentState, DeploymentStatus,
    PodState, MAX_HISTORY,
};

verus! {

/// Error text of an action skipped because a dependency failed.
pub const SKIPPED: &'static str = "Skipped due to dependency failure";

/// Decides how a plan is executed.
#[derive(Debug, Clone, Copy)]
pub struct PlanExecutor {
    /// Whether to go on after a failed action.
    pub continue_on_error: bool,
}

/// Outcome of one action.
#[derive(Debug, Clone)]
pub struct ActionResult {
    /// Index of the action in the plan.
    pub index: usize,
    /// Kind of the action.
    pub action_type: ActionType,
    /// Whether it succeeded.
    pub success: bool,
    /// Whether it was skipped because a dependency failed.
    pub skipped: bool,
    /// Provider identifier of the pod, if known.
    pub pod_id: Option<String>,
    /// Error, if it failed.
    pub error: Option<String>,
}

/// Outcome of a whole plan.
#[derive(Debug)]
pub struct ExecutionResult {
    /// One outcome per action reached, in order.
    pub results: Vec<ActionResult>,
    /// Actions reached.
    pub total_executed: usize,
    /// Actions that succeeded.
    pub successful: usize,
    /// Actions that failed, skipped ones aside.
    pub failed: usize,
    /// Actions skipped because a dependency failed.
    pub skipped: usize,
    /// Whether no action failed.
    pub success: bool,
}

/// A provider call the executor needs made.
#[derive(Debug)]
pub enum ProvisionCall {
    /// Create the pod of the action at `index`, with its digest as tag.
    Create {
        /// Index of the action.
        index: usize,
    },
    /// Terminate a pod.
    Terminate {
        /// Index of the action.
        index: usize,
        /// Provider identifier.
        pod_id: String,
    },
    /// Stop a pod.
    Stop {
        /// Index of the action.
        index: usize,
        /// Provider identifier.
        pod_id: String,
    },
    /// Resume a pod.
    Resume {
        /// Index of the action.
        index: usize,
        /// Provider identifier.
        pod_id: String,
    },
}

/// The provider's answer to a call.
#[derive(Debug)]
pub enum ProvisionOutcome {
    /// A pod was created.
    Created {
        /// Its provider identifier.
        provider_id: String,
        /// GPU type allocated.
        gpu_type: String,
        /// Number of GPUs.
        gpu_count: u32,
        /// Image deployed.
        image: String,
    },
    /// The call succeeded.
    Done,
    /// The pod does not exist.
    NotFound,
    /// The call failed.
    Failed {
        /// What went wrong.
        message: String,
    },
}

/// What the driver is to do next.
#[derive(Debug)]
pub enum Step {
    /// An action was settled without the provider.
    Resolved,
    /// Make this call, then hand the answer to `record`.
    Call(ProvisionCall),
    /// Every action is settled, or the run stopped at a failure.
    Finished,
}

/// A run of a plan in progress.
#[derive(Debug)]
pub struct ExecutionRun {
    /// Index of the next action to settle.
    pub next: usize,
    /// For each action, whether it failed or was skipped.
    pub failed: Vec<bool>,
    /// Outcomes so far.
    pub results: Vec<ActionResult>,
    /// Whether the run stopped at a failure.
    pub halted: bool,
    /// Index of the action whose provider answer is awaited.
    pub pending: Option<usize>,
    /// Whether to go on after a failed action.
    pub continue_on_error: bool,
}

/// Whether some dependency of the action failed.
pub open spec fn dependency_failed(deps: Seq<usize>, failed: Seq<bool>) -> bool {
    exists|k: int| 0 <= k < deps.len() && deps[k] < failed.len() && #[trigger] failed[deps[k] as int]
}

/// The provider identifier to act on: the action's own, else the recorded
/// pod's.
pub open spec fn target_id(a: PlannedAction, s: DeploymentState) -> Option<Seq<char>> {
    match a.runpod_id {
        Some(id) => Some(id@),
        None => if has_pod_named(s.pods@, a.resource_name@) {
            Some(
                s.pods@[choose|i: int| 0 <= i < s.pods@.len() && #[trigger] s.pods@[i].name@ == a.resource_name@].runpod_id@,
            )
        } else {
            None
        },
    }
}

/// The pod record a successful creation leaves.
pub open spec fn created_record(p: PodState, a: PlannedAction, provider_id: Seq<char>, gpu_type: Seq<char>, gpu_count: u32, image: Seq<char>, now: i64) -> bool {
    &&& p.name@ == a.resource_name@
    &&& p.runpod_id@ == provider_id
    &&& p.config_hash@ == match a.new_hash {
        Some(h) => h@,
        None => Seq::empty(),
    }
    &&& p.status == DeploymentStatus::Creating
    &&& p.gpu_type@ == gpu_type
    &&& p.gpu_count == gpu_count
    &&& p.image@ == image
    &&& p.created_at == now
    &&& p.updated_at == now
}

/// Number of outcomes that are failures other than skips.
pub open spec fn failed_count(s: Seq<ActionResult>) -> nat
    decreases s.len(),
{
    if s.len() == 0 {
        0
    } else {
        failed_count(s.drop_last()) + if !s.last().success && !s.last().skipped { 1nat } else { 0nat }
    }
}

/// Number of successful outcomes.
pub open spec fn success_count(s: Seq<ActionResult>) -> nat
    decreases s.len(),
{
    if s.len() == 0 {
        0
    } else {
        success_count(s.drop_last()) + if s.last().success { 1nat } else { 0nat }
    }
}

/// Number of skipped outcomes.
pub open spec fn skipped_count(s: Seq<ActionResult>) -> nat
    decreases s.len(),
{
    if s.len() == 0 {
        0
    } else {
        skipped_count(s.drop_last()) + if s.last().skipped { 1nat } else { 0nat }
    }
}

proof fn lemma_counts_bound(s: Seq<ActionResult>)
    ensures
        failed_count(s) <= s.len(),
        success_count(s) <= s.len(),
        skipped_count(s) <= s.len(),
    decreases s.len(),
{
    if s.len() > 0 {
        lemma_counts_bound(s.drop_last());
    }
}

/// The resource names of a plan's actions.
pub open spec fn action_names(s: Seq<PlannedAction>) -> Seq<Seq<char>> {
    s.map_values(|a: PlannedAction| a.resource_name@)
}

impl PlanExecutor {
    /// An executor that stops at the first failure.
    pub fn new() -> (r: Self)
        ensures
            !r.continue_on_error,
    {
        PlanExecutor { continue_on_error: false }
    }

    /// Sets whether to go on after a failed action.
    pub fn with_continue_on_error(self, continue_on_error: bool) -> (r: Self)
        ensures
            r.continue_on_error == continue_on_error,
    {
        PlanExecutor { continue_on_error }
    }

    /// Starts a run. A plan with actions that fails the guardrails is
    /// refused with `Aborted`, and a failed history entry is recorded;
    /// nothing else of the state changes.
    pub fn start(&self, plan: &DeploymentPlan, state: &mut DeploymentState, now: i64) -> (r: Result<ExecutionRun, ReconcileError>)
        requires
            old(state).wf(),
        ensures
            final(state).wf(),
            plan.actions@.len() > 0 && !plan.passes_guardrails ==> {
                &&& r matches Err(ReconcileError::Aborted { .. })
                &&& final(state).pods == old(state).pods
                &&& final(state).config_hash == old(state).config_hash
                &&& final(state).history@.last().success == false
                &&& old(state).history@.len() >= MAX_HISTORY ==> final(state).history@.len() == MAX_HISTORY
                &&& old(state).history@.len() < MAX_HISTORY ==> final(state).history@.len() == old(state).history@.len() + 1
            },
            plan.actions@.len() == 0 || plan.passes_guardrails ==> {
                &&& r matches Ok(run) && run.wf(plan) && run.next == 0 && run.results@.len() == 0
                    && run.continue_on_error == self.continue_on_error
                &&& *final(state) == *old(state)
            },
    {
        if plan.actions.len() > 0 && !plan.passes_guardrails {
            let entry = DeploymentHistoryEntry::failed(
                DeploymentOperation::Create,
                plan.config_hash.as_str(),
                Self::resource_names(plan),
                "Plan violates guardrails",
                now,
            );
            state.add_history(entry);
            return Err(ReconcileError::Aborted { reason: String::from_str("Plan violates guardrails") });
        }
        let mut failed: Vec<bool> = Vec::new();
        let mut i: usize = 0;
        while i < plan.actions.len()
            invariant
                i <= plan.actions@.len(),
                failed@.len() == i,
                forall|j: int| 0 <= j < i ==> !#[trigger] failed@[j],
            decreases plan.actions@.len() - i,
        {
            failed.push(false);
            i = i + 1;
        }
        Ok(
            ExecutionRun {
                next: 0,
                failed,
                results: Vec::new(),
                halted: false,
                pending: None,
                continue_on_error: self.continue_on_error,
            },
        )
    }

    /// The resource names of the plan's actions, in order.
    pub fn resource_names(plan: &DeploymentPlan) -> (r: Vec<String>)
        ensures
            r@.map_values(|s: String| s@) == action_names(plan.actions@),
    {
        let mut r: Vec<String> = Vec::new();
        let mut i: usize = 0;
        while i < plan.actions.len()
            invariant
                i <= plan.actions@.len(),
                r@.map_values(|s: String| s@) == action_names(plan.actions@.take(i as int)),
            decreases plan.actions@.len() - i,
        {
            let ghost before = r@;
            r.push(plan.actions[i].resource_name.clone());
            proof {
                assert(r@.map_values(|s: String| s@) =~= before.map_values(|s: String| s@).push(plan.actions@[i as int].resource_name@));
                assert(action_names(plan.actions@.take(i as int + 1)) =~= action_names(plan.actions@.take(i as int)).push(plan.actions@[i as int].resource_name@));
            }
            i = i + 1;
        }
        assert(plan.actions@.take(i as int) =~= plan.actions@);
        r
    }
}

/// The provider identifier to act on for an action.
fn target_pod_id(a: &PlannedAction, state: &DeploymentState) -> (r: Option<String>)
    requires
        state.wf(),
    ensures
        opt_view(r) == target_id(*a, *state),
{
    match &a.runpod_id {
        Some(x) => Some(x.clone()),
        None => match state.find_pod(a.resource_name.as_str()) {
            Some(j) => {
                proof {
                    let c = choose|c: int| 0 <= c < state.pods@.len() && #[trigger] state.pods@[c].name@ == a.resource_name@;
                    assert(state.pods@[c].name@ == state.pods@[j as int].name@);
                    assert(c == j);
                }
                Some(state.pods[j].runpod_id.clone())
            },
            None => None,
        },
    }
}

/// Text "{n} actions failed".
pub open spec fn failed_text(n: nat) -> Seq<char> {
    decimal(n) + " actions failed"@
}

impl ExecutionRun {
    /// Well-formedness against the plan: one failure flag per action,
    /// settled actions before `next`, one outcome per settled action, and an
    /// awaited answer only for the action at `next`.
    pub open spec fn wf(&self, plan: &DeploymentPlan) -> bool {
        &&& self.failed@.len() == plan.actions@.len()
        &&& self.next <= plan.actions@.len()
        &&& self.results@.len() == self.next
        &&& forall|j: int| 0 <= j < self.results@.len() ==> (#[trigger] self.results@[j]).index == j
        &&& forall|j: int| 0 <= j < self.results@.len() ==> (#[trigger] self.results@[j]).success == !self.failed@[j]
        &&& forall|j: int| self.next <= j < self.failed@.len() ==> !#[trigger] self.failed@[j]
        &&& (self.pending matches Some(p) ==> p == self.next && p < plan.actions@.len())
        &&& (self.halted ==> self.pending is None)
    }

    /// Whether every action is settled or the run stopped at a failure.
    pub open spec fn is_finished(&self, plan: &DeploymentPlan) -> bool {
        self.pending is None && (self.halted || self.next >= plan.actions@.len())
    }

    /// Whether a provider answer is awaited.
    pub fn awaiting_outcome(&self) -> (r: bool)
        ensures
            r == (self.pending is Some),
    {
        self.pending.is_some()
    }

    /// Settles the outcome of the action at `next` and moves on.
    fn settle(&mut self, plan: &DeploymentPlan, success: bool, skipped: bool, pod_id: Option<String>, error: Option<String>)
        requires
            old(self).wf(plan),
            old(self).next < plan.actions@.len(),
            old(self).pending is None || old(self).pending == Some(old(self).next),
        ensures
            final(self).wf(plan),
            final(self).next == old(self).next + 1,
            final(self).failed@ == old(self).failed@.update(old(self).next as int, !success),
            final(self).results@ == old(self).results@.push(
                ActionResult {
                    index: old(self).next,
                    action_type: plan.actions@[old(self).next as int].action_type,
                    success,
                    skipped,
                    pod_id,
                    error,
                },
            ),
            final(self).pending is None,
            final(self).halted == (old(self).halted || (!success && !skipped && !old(self).continue_on_error)),
            final(self).continue_on_error == old(self).continue_on_error,
    {
        let i = self.next;
        let n = plan.actions.len();
        assert(i < n);
        self.results.push(
            ActionResult { index: i, action_type: plan.actions[i].action_type, success, skipped, pod_id, error },
        );
        self.failed.set(i, !success);
        self.next = i + 1;
        self.pending = None;
        if !success && !skipped && !self.continue_on_error {
            self.halted = true;
        }
    }

    /// Decides the next step: settles the action at `next` when no provider
    /// call is needed, or asks for the call.
    ///
    /// An action with a failed dependency is skipped; a no-op succeeds; a
    /// creation without a pod configuration fails; a deletion of a pod with
    /// no known identifier succeeds and drops its record; a stop or resume
    /// of such a pod fails.
    pub fn step(&mut self, plan: &DeploymentPlan, state: &mut DeploymentState, now: i64) -> (r: Step)
        requires
            old(self).wf(plan),
            old(state).wf(),
        ensures
            final(self).wf(plan),
            final(state).wf(),
            final(self).continue_on_error == old(self).continue_on_error,
            old(self).is_finished(plan) || old(self).pending is Some ==> r is Finished && *final(self) == *old(self) && *final(state) == *old(state),
            !old(self).is_finished(plan) && old(self).pending is None ==> {
                let i = old(self).next as int;
                let a = plan.actions@[i];
                &&& dependency_failed(a.dependencies@, old(self).failed@) ==> {
                    &&& r is Resolved
                    &&& final(self).results@.last().skipped
                    &&& !final(self).results@.last().success
                    &&& final(self).results@.last().error matches Some(e) && e@ == SKIPPED@
                    &&& *final(state) == *old(state)
                }
                &&& !dependency_failed(a.dependencies@, old(self).failed@) ==> match a.action_type {
                    ActionType::Noop => r is Resolved && final(self).results@.last().success && *final(state) == *old(state),
                    ActionType::CreatePod | ActionType::UpdatePod => if a.pod_config is Some {
                        r matches Step::Call(ProvisionCall::Create { index }) && index == i
                            && final(self).pending == Some(index) && *final(state) == *old(state)
                    } else {
                        r is Resolved && !final(self).results@.last().success && *final(state) == *old(state)
                    },
                    ActionType::DeletePod => match target_id(a, *old(state)) {
                        Some(id) => r matches Step::Call(ProvisionCall::Terminate { index, pod_id }) && index == i
                            && pod_id@ == id && final(self).pending == Some(index) && *final(state) == *old(state),
                        None => r is Resolved && final(self).results@.last().success
                            && !has_pod_named(final(state).pods@, a.resource_name@)
                            && final(state).history == old(state).history,
                    },
                    ActionType::StopPod => match target_id(a, *old(state)) {
                        Some(id) => r matches Step::Call(ProvisionCall::Stop { index, pod_id }) && index == i
                            && pod_id@ == id && final(self).pending == Some(index) && *final(state) == *old(state),
                        None => r is Resolved && !final(self).results@.last().success && *final(state) == *old(state),
                    },
                    ActionType::ResumePod => match target_id(a, *old(state)) {
                        Some(id) => r matches Step::Call(ProvisionCall::Resume { index, pod_id }) && index == i
                            && pod_id@ == id && final(self).pending == Some(index) && *final(state) == *old(state),
                        None => r is Resolved && !final(self).results@.last().success && *final(state) == *old(state),
                    },
                }
            },
    {
        if self.pending.is_some() || self.halted || self.next >= plan.actions.len() {
            return Step::Finished;
        }
        let i = self.next;
        let a = &plan.actions[i];
        let mut k: usize = 0;
        let mut dep_failed = false;
        while k < a.dependencies.len()
            invariant
                k <= a.dependencies@.len(),
                dep_failed == exists|m: int| 0 <= m < k && a.dependencies@[m] < self.failed@.len() && #[trigger] self.failed@[a.dependencies@[m] as int],
            decreases a.dependencies@.len() - k,
        {
            let d = a.dependencies[k];
            if d < self.failed.len() && self.failed[d] {
                dep_failed = true;
            }
            k = k + 1;
        }
        if dep_failed {
            self.settle(plan, false, true, None, Some(String::from_str(SKIPPED)));
            return Step::Resolved;
        }
        match a.action_type {
            ActionType::Noop => {
                self.settle(plan, true, false, None, None);
                Step::Resolved
            },
            ActionType::CreatePod | ActionType::UpdatePod => {
                if a.pod_config.is_some() {
                    self.pending = Some(i);
                    Step::Call(ProvisionCall::Create { index: i })
                } else {
                    self.settle(plan, false, false, None, Some(String::from_str("Missing pod configuration")));
                    Step::Resolved
                }
            },
            _ => {
                let id = target_pod_id(a, state);
                match id {
                    Some(pod_id) => {
                        self.pending = Some(i);
                        if a.action_type == ActionType::DeletePod {
                            Step::Call(ProvisionCall::Terminate { index: i, pod_id })
                        } else if a.action_type == ActionType::StopPod {
                            Step::Call(ProvisionCall::Stop { index: i, pod_id })
                        } else {
                            Step::Call(ProvisionCall::Resume { index: i, pod_id })
                        }
                    },
                    None => {
                        if a.action_type == ActionType::DeletePod {
                            let _ = state.remove_pod(a.resource_name.as_str(), now);
                            proof {
                                assert forall|j: int| 0 <= j < state.pods@.len() implies #[trigger] state.pods@[j].name@ != a.resource_name@ by {
                                    assert(state.pods@.contains(state.pods@[j]));
                                }
                            }
                            self.settle(plan, true, false, None, None);
                        } else {
                            self.settle(plan, false, false, None, Some(String::from_str("Pod not found")));
                        }
                        Step::Resolved
                    },
                }
            },
        }
    }

    /// Hands over the provider's answer to the awaited call and settles
    /// that action. Without an awaited call nothing changes.
    ///
    /// A creation succeeds on `Created` and records the pod in status
    /// `Creating`; a deletion succeeds on `Done` or `NotFound` and drops the
    /// record; a stop or resume succeeds on `Done` and sets the recorded
    /// status to `Stopped` or `Running`. Any other answer fails the action.
    pub fn record(&mut self, plan: &DeploymentPlan, state: &mut DeploymentState, outcome: ProvisionOutcome, now: i64)
        requires
            old(self).wf(plan),
            old(state).wf(),
        ensures
            final(self).wf(plan),
            final(state).wf(),
            final(self).continue_on_error == old(self).continue_on_error,
            final(state).history == old(state).history,
            final(state).config_hash == old(state).config_hash,
            old(self).pending is None ==> *final(self) == *old(self) && *final(state) == *old(state),
            old(self).pending matches Some(i) ==> {
                let a = plan.actions@[i as int];
                let ok = final(self).results@.last().success;
                &&& final(self).next == i + 1
                &&& final(self).pending is None
                &&& match a.action_type {
                    ActionType::CreatePod | ActionType::UpdatePod => match outcome {
                        ProvisionOutcome::Created { provider_id, gpu_type, gpu_count, image } => ok
                            && (exists|p: PodState| #[trigger] final(state).pods@.contains(p)
                                && created_record(p, a, provider_id@, gpu_type@, gpu_count, image@, now))
                            && forall|p: PodState| p.name@ != a.resource_name@ ==> (#[trigger] final(state).pods@.contains(p) <==> old(state).pods@.contains(p)),
                        _ => !ok && *final(state) == *old(state),
                    },
                    ActionType::DeletePod => match outcome {
                        ProvisionOutcome::Done | ProvisionOutcome::NotFound => ok
                            && forall|p: PodState| #[trigger] final(state).pods@.contains(p) <==> (old(state).pods@.contains(p) && p.name@ != a.resource_name@),
                        _ => !ok && *final(state) == *old(state),
                    },
                    ActionType::StopPod | ActionType::ResumePod => match outcome {
                        ProvisionOutcome::Done => ok && final(state).pods@.len() == old(state).pods@.len()
                            && forall|j: int| 0 <= j < old(state).pods@.len() ==> #[trigger] final(state).pods@[j] == if old(state).pods@[j].name@ == a.resource_name@ {
                                PodState {
                                    status: if a.action_type == ActionType::StopPod { DeploymentStatus::Stopped } else { DeploymentStatus::Running },
                                    updated_at: now,
                                    ..old(state).pods@[j]
                                }
                            } else {
                                old(state).pods@[j]
                            },
                        _ => !ok && *final(state) == *old(state),
                    },
                    ActionType::Noop => true,
                }
            },
    {
        let i = match self.pending {
            Some(i) => i,
            None => {
                return;
            },
        };
        let a = &plan.actions[i];
        let id = target_pod_id(a, state);
        match a.action_type {
            ActionType::CreatePod | ActionType::UpdatePod => match outcome {
                ProvisionOutcome::Created { provider_id, gpu_type, gpu_count, image } => {
                    let hash = match &a.new_hash {
                        Some(h) => h.clone(),
                        None => String::new(),
                    };
                    let mut pod = PodState::new(a.resource_name.as_str(), provider_id.as_str(), hash.as_str(), now);
                    pod.gpu_type = gpu_type;
                    pod.gpu_count = gpu_count;
                    pod.image = image;
                    let ghost p = pod;
                    state.set_pod(pod, now);
                    self.settle(plan, true, false, Some(provider_id), None);
                    assert(state.pods@.contains(p));
                },
                ProvisionOutcome::Failed { message } => {
                    self.settle(plan, false, false, None, Some(message));
                },
                _ => {
                    self.settle(plan, false, false, None, Some(String::from_str("Unexpected provider answer")));
                },
            },
            ActionType::DeletePod => match outcome {
                ProvisionOutcome::Done | ProvisionOutcome::NotFound => {
                    let _ = state.remove_pod(a.resource_name.as_str(), now);
                    self.settle(plan, true, false, id, None);
                },
                ProvisionOutcome::Failed { message } => {
                    self.settle(plan, false, false, id, Some(message));
                },
                _ => {
                    self.settle(plan, false, false, id, Some(String::from_str("Unexpected provider answer")));
                },
            },
            ActionType::StopPod | ActionType::ResumePod => match outcome {
                ProvisionOutcome::Done => {
                    let status = if a.action_type == ActionType::StopPod {
                        DeploymentStatus::Stopped
                    } else {
                        DeploymentStatus::Running
                    };
                    state.set_pod_status(a.resource_name.as_str(), status, now);
                    self.settle(plan, true, false, id, None);
                },
                ProvisionOutcome::Failed { message } => {
                    self.settle(plan, false, false, id, Some(message));
                },
                _ => {
                    self.settle(plan, false, false, id, Some(String::from_str("Unexpected provider answer")));
                },
            },
            ActionType::Noop => {
                self.settle(plan, true, false, None, None);
            },
        }
    }

    /// Ends the run: counts the outcomes and, for a plan with actions,
    /// appends a history entry (successful exactly when no action failed)
    /// and sets the state's digest to the plan's.
    pub fn finish(&self, plan: &DeploymentPlan, state: &mut DeploymentState, now: i64) -> (r: ExecutionResult)
        requires
            self.wf(plan),
            old(state).wf(),
        ensures
            final(state).wf(),
            r.results@ == self.results@,
            r.total_executed == self.results@.len(),
            r.successful == success_count(self.results@),
            r.failed == failed_count(self.results@),
            r.skipped == skipped_count(self.results@),
            r.success == (r.failed == 0),
            final(state).pods == old(state).pods,
            plan.actions@.len() == 0 ==> *final(state) == *old(state),
            plan.actions@.len() > 0 ==> {
                &&& final(state).history@ == push_bounded(old(state).history@, final(state).history@.last())
                &&& final(state).history@.last().success == r.success
                &&& final(state).history@.last().config_hash@ == plan.config_hash@
                &&& final(state).history@.last().operation == DeploymentOperation::Create
                &&& final(state).history@.last().timestamp == now
                &&& final(state).config_hash@ == plan.config_hash@
            },
    {
        let mut successful: usize = 0;
        let mut failed: usize = 0;
        let mut skipped: usize = 0;
        let mut results: Vec<ActionResult> = Vec::new();
        let mut i: usize = 0;
        while i < self.results.len()
            invariant
                i <= self.results@.len(),
                results@ == self.results@.take(i as int),
                successful == success_count(self.results@.take(i as int)),
                failed == failed_count(self.results@.take(i as int)),
                skipped == skipped_count(self.results@.take(i as int)),
            decreases self.results@.len() - i,
        {
            proof {
                assert(self.results@.take(i as int + 1).drop_last() =~= self.results@.take(i as int));
                lemma_counts_bound(self.results@.take(i as int));
            }
            let x = &self.results[i];
            if x.success {
                successful = successful + 1;
            }
            if !x.success && !x.skipped {
                failed = failed + 1;
            }
            if x.skipped {
                skipped = skipped + 1;
            }
            results.push(copy_result(x));
            assert(results@ =~= self.results@.take(i as int + 1));
            i = i + 1;
        }
        assert(self.results@.take(i as int) =~= self.results@);
        let success = failed == 0;
        if plan.actions.len() > 0 {
            let names = PlanExecutor::resource_names(plan);
            let entry = if success {
                DeploymentHistoryEntry::new(DeploymentOperation::Create, plan.config_hash.as_str(), names, now)
            } else {
                let msg = u64_text(failed as u64).concat(" actions failed");
                DeploymentHistoryEntry::failed(
                    DeploymentOperation::Create,
                    plan.config_hash.as_str(),
                    names,
                    msg.as_str(),
                    now,
                )
            };
            state.add_history(entry);
            state.config_hash = plan.config_hash.clone();
        }
        ExecutionResult {
            total_executed: results.len(),
            results,
            successful,
            failed,
            skipped,
            success,
        }
    }
}

/// Copies an outcome.
fn copy_result(x: &ActionResult) -> (r: ActionResult)
    ensures
        r == *x,
{
    ActionResult {
        index: x.index,
        action_type: x.action_type,
        success: x.success,
        skipped: x.skipped,
        pod_id: match &x.pod_id {
            Some(s) => Some(s.clone()),
            None => None,
        },
        error: match &x.error {
            Some(s) => Some(s.clone()),
            None => None,
        },
    }
}

impl ExecutionResult {
    /// Whether every action succeeded.
    pub fn all_successful(&self) -> (r: bool)
        ensures
            r == (self.success && self.failed == 0 && self.skipped == 0),
    {
        self.success && self.failed == 0 && self.skipped == 0
    }
}

} // verus!
