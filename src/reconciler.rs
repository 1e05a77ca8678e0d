//! The reconciliation cycle's decisions: whether the document is converged,
//! what to execute, how an attempt is summed up, and whether to try again.
//!
//! The cycle itself (loading state, observing the provider, executing,
//! sleeping between attempts, saving state) is driven from outside.

use vstd::prelude::*;
use vstd::string::*;

use crate::config::spec::DeployConfig;
use crate::digest::{decimal, u64_text};
use crate::error::ReconcileError;
use crate::planner::diff::{count_kind, is_diff_of, DiffEngine, DiffResult, DiffType, ResourceDiff};
use crate::planner::executor::{failed_count, ActionResult, ExecutionResult};
use crate::planner::plan::{actions_view, exceeds_gpu_limit, plan_actions, plan_gpus, DeploymentPlan};
use crate::runpod::observer::ObservedPod;
use crate::state::types::DeploymentState;

verus! {

/// Settings of the reconciliation cycle.
#[derive(Debug, Clone, Copy)]
pub struct Reconciler {
    /// Attempts before giving up.
    pub max_attempts: u32,
}

/// Outcome of a reconciliation.
#[derive(Debug)]
pub struct ReconciliationResult {
    /// Whether the document was brought about.
    pub success: bool,
    /// Pods created.
    pub created: usize,
    /// Pods replaced.
    pub updated: usize,
    /// Pods deleted.
    pub deleted: usize,
    /// Pods unchanged.
    pub unchanged: usize,
    /// Errors met.
    pub errors: Vec<String>,
    /// The state at the end.
    pub final_state: Option<DeploymentState>,
}

/// Outcome of a drift check.
#[derive(Debug)]
pub struct DriftReport {
    /// Whether anything is to be created, replaced or deleted.
    pub has_drift: bool,
    /// Names of the resources that differ, in diff order.
    pub drifted_resources: Vec<String>,
    /// Pods in the document.
    pub total_resources: usize,
    /// Pods observed.
    pub observed_count: usize,
}

/// What an attempt is to do.
#[derive(Debug)]
pub enum Attempt {
    /// Nothing differs: the attempt succeeds at once.
    Converged(ReconciliationResult),
    /// Execute the plan; the counts come from the diff.
    Execute {
        /// The plan.
        plan: DeploymentPlan,
        /// Pods to create.
        created: usize,
        /// Pods to replace.
        updated: usize,
        /// Pods to delete.
        deleted: usize,
        /// Pods unchanged.
        unchanged: usize,
    },
}

/// Whether a difference asks for work.
pub open spec fn differs(t: DiffType) -> bool {
    t == DiffType::Drift || t == DiffType::Update || t == DiffType::Create || t == DiffType::Delete
}

/// Names of the differences that ask for work, in order.
pub open spec fn drifted_names(diffs: Seq<ResourceDiff>) -> Seq<Seq<char>>
    decreases diffs.len(),
{
    if diffs.len() == 0 {
        Seq::empty()
    } else if differs(diffs.last().diff_type) {
        drifted_names(diffs.drop_last()).push(diffs.last().name@)
    } else {
        drifted_names(diffs.drop_last())
    }
}

/// The errors of the failed outcomes, in order.
pub open spec fn failure_messages(results: Seq<ActionResult>) -> Seq<Seq<char>>
    decreases results.len(),
{
    if results.len() == 0 {
        Seq::empty()
    } else {
        let prev = failure_messages(results.drop_last());
        let x = results.last();
        if !x.success && x.error is Some {
            prev.push(x.error->0@)
        } else {
            prev
        }
    }
}

impl DriftReport {
    /// Whether nothing differs.
    pub fn is_converged(&self) -> (r: bool)
        ensures
            r == !self.has_drift,
    {
        !self.has_drift
    }
}

impl Reconciler {
    /// A cycle of at most three attempts.
    pub fn new() -> (r: Self)
        ensures
            r.max_attempts == 3,
    {
        Reconciler { max_attempts: 3 }
    }

    /// Sets the number of attempts.
    pub fn with_max_attempts(self, max_attempts: u32) -> (r: Self)
        ensures
            r.max_attempts == max_attempts,
    {
        Reconciler { max_attempts }
    }

    /// The read-only drift check: diffs the document against the recorded
    /// state and the observed pods and reports what differs.
    pub fn check_drift(config: &DeployConfig, state: Option<&DeploymentState>, observed: &Vec<ObservedPod>) -> (r: DriftReport)
        ensures
            exists|d: DiffResult| #[trigger] is_diff_of(d, *config, state, observed@) && r.has_drift == (d.creates > 0 || d.updates > 0 || d.deletes > 0)
                && r.drifted_resources@.map_values(|s: String| s@) == drifted_names(d.diffs@),
            r.total_resources == config.pods@.len(),
            r.observed_count == observed@.len(),
    {
        let engine = DiffEngine::new();
        let diff = engine.compute_diff(config, state, observed);
        let names = Self::drifted(&diff.diffs);
        let r = DriftReport {
            has_drift: diff.has_changes(),
            drifted_resources: names,
            total_resources: config.pods.len(),
            observed_count: observed.len(),
        };
        assert(is_diff_of(diff, *config, state, observed@));
        r
    }

    /// Names of the differences that ask for work.
    fn drifted(diffs: &Vec<ResourceDiff>) -> (r: Vec<String>)
        ensures
            r@.map_values(|s: String| s@) == drifted_names(diffs@),
    {
        let mut r: Vec<String> = Vec::new();
        let mut i: usize = 0;
        while i < diffs.len()
            invariant
                i <= diffs@.len(),
                r@.map_values(|s: String| s@) == drifted_names(diffs@.take(i as int)),
            decreases diffs@.len() - i,
        {
            proof {
                assert(diffs@.take(i as int + 1).drop_last() =~= diffs@.take(i as int));
                assert(diffs@.take(i as int + 1).last() == diffs@[i as int]);
            }
            let t = diffs[i].diff_type;
            if t == DiffType::Drift || t == DiffType::Update || t == DiffType::Create || t == DiffType::Delete {
                let ghost before = r@;
                r.push(diffs[i].name.clone());
                assert(r@.map_values(|s: String| s@) =~= before.map_values(|s: String| s@).push(diffs@[i as int].name@));
            }
            i = i + 1;
        }
        assert(diffs@.take(i as int) =~= diffs@);
        r
    }

    /// Decides one attempt from the recorded state and the observed pods:
    /// converged when nothing differs; refused with `Aborted` when the plan
    /// fails the guardrails; otherwise the plan to execute.
    pub fn prepare_attempt(
        config: &DeployConfig,
        state: &DeploymentState,
        observed: &Vec<ObservedPod>,
        config_hash: &str,
        now: i64,
    ) -> (r: Result<Attempt, ReconcileError>)
        ensures
            exists|d: DiffResult| #[trigger] is_diff_of(d, *config, Some(state), observed@) && {
                let changes = d.creates > 0 || d.updates > 0 || d.deletes > 0;
                let gpus = plan_gpus(d.diffs@, config.pods@);
                &&& !changes ==> (r matches Ok(Attempt::Converged(res)) && res.success && res.unchanged == d.unchanged
                    && res.created == 0 && res.updated == 0 && res.deleted == 0)
                &&& changes && exceeds_gpu_limit(*config, gpus) ==> (r matches Err(ReconcileError::Aborted { .. }))
                &&& changes && !exceeds_gpu_limit(*config, gpus) ==> (r matches Ok(Attempt::Execute { plan, created, updated, deleted, unchanged })
                    && plan.passes_guardrails && plan.config_hash@ == config_hash@
                    && actions_view(plan.actions@) == plan_actions(d.diffs@, config.pods@)
                    && created == d.creates && updated == d.updates && deleted == d.deletes && unchanged == d.unchanged)
            },
    {
        let engine = DiffEngine::new();
        let diff = engine.compute_diff(config, Some(state), observed);
        assert(is_diff_of(diff, *config, Some(state), observed@));
        if !diff.has_changes() {
            return Ok(
                Attempt::Converged(
                    ReconciliationResult {
                        success: true,
                        created: 0,
                        updated: 0,
                        deleted: 0,
                        unchanged: diff.unchanged,
                        errors: Vec::new(),
                        final_state: None,
                    },
                ),
            );
        }
        let plan = DeploymentPlan::from_diff(&diff, config, config_hash, now);
        if !plan.passes_guardrails {
            let mut reason = String::from_str("Plan violates guardrails: ");
            let mut i: usize = 0;
            while i < plan.guardrail_violations.len()
                invariant
                    i <= plan.guardrail_violations@.len(),
                decreases plan.guardrail_violations@.len() - i,
            {
                if i > 0 {
                    reason = reason.concat(", ");
                }
                reason = reason.concat(plan.guardrail_violations[i].as_str());
                i = i + 1;
            }
            return Err(ReconcileError::Aborted { reason });
        }
        Ok(
            Attempt::Execute {
                plan,
                created: diff.creates,
                updated: diff.updates,
                deleted: diff.deletes,
                unchanged: diff.unchanged,
            },
        )
    }

    /// Sums up an executed attempt: successful when no action failed; the
    /// errors are the failed actions' errors, after a line that counts them
    /// when any failed.
    pub fn summarize(created: usize, updated: usize, deleted: usize, unchanged: usize, exec: &ExecutionResult) -> (r: ReconciliationResult)
        requires
            exec.failed == failed_count(exec.results@),
            exec.total_executed == exec.results@.len(),
            exec.success == (exec.failed == 0),
        ensures
            r.success == exec.success,
            r.created == created,
            r.updated == updated,
            r.deleted == deleted,
            r.unchanged == unchanged,
            r.final_state is None,
            exec.success ==> r.errors@.map_values(|s: String| s@) == failure_messages(exec.results@),
            !exec.success ==> r.errors@.map_values(|s: String| s@) == seq![
                decimal(exec.failed as nat) + " of "@ + decimal(exec.total_executed as nat) + " actions failed"@,
            ] + failure_messages(exec.results@),
    {
        let mut errors: Vec<String> = Vec::new();
        if !exec.success {
            let line = u64_text(exec.failed as u64).concat(" of ").concat(
                u64_text(exec.total_executed as u64).as_str(),
            ).concat(" actions failed");
            errors.push(line);
        }
        let ghost head = errors@.map_values(|s: String| s@);
        let mut i: usize = 0;
        while i < exec.results.len()
            invariant
                i <= exec.results@.len(),
                errors@.map_values(|s: String| s@) == head + failure_messages(exec.results@.take(i as int)),
            decreases exec.results@.len() - i,
        {
            proof {
                assert(exec.results@.take(i as int + 1).drop_last() =~= exec.results@.take(i as int));
                assert(exec.results@.take(i as int + 1).last() == exec.results@[i as int]);
            }
            let x = &exec.results[i];
            if !x.success {
                match &x.error {
                    Some(e) => {
                        let ghost before = errors@;
                        errors.push(e.clone());
                        assert(errors@.map_values(|s: String| s@) =~= before.map_values(|s: String| s@).push(e@));
                        assert(errors@.map_values(|s: String| s@) =~= head + failure_messages(exec.results@.take(i as int + 1)));
                    },
                    None => {},
                }
            }
            i = i + 1;
        }
        assert(exec.results@.take(i as int) =~= exec.results@);
        ReconciliationResult {
            success: exec.success,
            created,
            updated,
            deleted,
            unchanged,
            errors,
            final_state: None,
        }
    }

    /// Whether to run another attempt after attempt number `attempt`
    /// (counted from 1) ended as `success` says: only after a failure, and
    /// only while attempts remain.
    pub fn should_retry(&self, attempt: u32, success: bool) -> (r: bool)
        ensures
            r == (!success && attempt < self.max_attempts),
    {
        !success && attempt < self.max_attempts
    }
}

} // verus!
