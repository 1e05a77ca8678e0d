//! Properties of diffing and planning that span several functions.

use vstd::prelude::*;

use crate::config::spec::{DeployConfig, PodConfig};
use crate::config::hash::pod_digest;
use crate::planner::diff::{
    count_kind, is_diff_of, is_orphan, is_orphan_diff, is_pod_diff, observed_for, opt_view,
    orphans, recorded_for, recorded_pods, DiffResult, DiffType, ResourceDiff,
};
use crate::planner::plan::{
    create_part, create_view, creation_gpus, delete_part, delete_view, exceeds_gpu_limit,
    first_named, is_creation, is_replacement, plan_actions, plan_gpus, replace_create_view,
    replace_part, replacement_gpus, ActionType, ActionView,
};
use crate::runpod::observer::ObservedPod;
use crate::state::types::DeploymentState;

verus! {

/// Whether every difference is `NoChange`.
pub open spec fn all_unchanged(diffs: Seq<ResourceDiff>) -> bool {
    forall|i: int| 0 <= i < diffs.len() ==> (#[trigger] diffs[i]).diff_type == DiffType::NoChange
}

proof fn lemma_unchanged_plan_parts(diffs: Seq<ResourceDiff>, pods: Seq<PodConfig>, base: nat)
    requires
        all_unchanged(diffs),
    ensures
        delete_part(diffs).len() == 0,
        create_part(diffs, pods).len() == 0,
        replace_part(diffs, pods, base).len() == 0,
    decreases diffs.len(),
{
    if diffs.len() > 0 {
        let t = diffs.drop_last();
        assert forall|i: int| 0 <= i < t.len() implies (#[trigger] t[i]).diff_type == DiffType::NoChange by {
            assert(t[i] == diffs[i]);
        }
        assert(diffs.last() == diffs[diffs.len() - 1]);
        lemma_unchanged_plan_parts(t, pods, base);
    }
}

/// Diffing is idempotent: when a diff of the document against some state
/// and observation finds nothing to do, another diff of the same inputs
/// finds nothing to do either, and the plan made from it has no actions.
pub proof fn lemma_diff_idempotent(
    r1: DiffResult,
    r2: DiffResult,
    config: DeployConfig,
    state: Option<&DeploymentState>,
    observed: Seq<ObservedPod>,
)
    requires
        is_diff_of(r1, config, state, observed),
        is_diff_of(r2, config, state, observed),
        all_unchanged(r1.diffs@),
    ensures
        r2.diffs@.len() == r1.diffs@.len(),
        all_unchanged(r2.diffs@),
        plan_actions(r1.diffs@, config.pods@).len() == 0,
        plan_actions(r2.diffs@, config.pods@).len() == 0,
{
    let n = config.pods@.len();
    let orph = orphans(observed, config);
    if orph.len() > 0 {
        let k0: int = 0;
        assert(is_orphan_diff(r1.diffs@[config.pods@.len() + k0], orph[k0]));
        assert(r1.diffs@[n + k0].diff_type == DiffType::Delete);
    }
    assert forall|i: int| 0 <= i < r2.diffs@.len() implies (#[trigger] r2.diffs@[i]).diff_type == DiffType::NoChange by {
        assert(r1.diffs@[i].diff_type == DiffType::NoChange);
    }
    lemma_unchanged_plan_parts(r1.diffs@, config.pods@, 0);
    lemma_unchanged_plan_parts(r2.diffs@, config.pods@, 0);
    let d1 = delete_part(r1.diffs@).len() + create_part(r1.diffs@, config.pods@).len();
    let d2 = delete_part(r2.diffs@).len() + create_part(r2.diffs@, config.pods@).len();
    lemma_unchanged_plan_parts(r1.diffs@, config.pods@, d1);
    lemma_unchanged_plan_parts(r2.diffs@, config.pods@, d2);
}

proof fn lemma_gpus_need_creation(diffs: Seq<ResourceDiff>, pods: Seq<PodConfig>, base: nat)
    ensures
        creation_gpus(diffs, pods) > 0 ==> create_part(diffs, pods).len() > 0,
        replacement_gpus(diffs, pods) > 0 ==> replace_part(diffs, pods, base).len() > 0,
    decreases diffs.len(),
{
    if diffs.len() > 0 {
        lemma_gpus_need_creation(diffs.drop_last(), pods, base);
    }
}

/// A plan whose creations ask for more GPUs than the limit has actions,
/// so the plan made from the diff, which then fails the guardrails, is
/// refused by the executor rather than run.
pub proof fn lemma_guardrail_blocks(diffs: Seq<ResourceDiff>, config: DeployConfig)
    requires
        exceeds_gpu_limit(config, plan_gpus(diffs, config.pods@)),
    ensures
        plan_actions(diffs, config.pods@).len() > 0,
{
    let d = delete_part(diffs);
    let c = create_part(diffs, config.pods@);
    lemma_gpus_need_creation(diffs, config.pods@, d.len() + c.len());
}

/// Whether no two observed pods share a provider identifier.
pub open spec fn ids_unique(obs: Seq<ObservedPod>) -> bool {
    forall|a: int, b: int| 0 <= a < obs.len() && 0 <= b < obs.len() && a != b ==> #[trigger] obs[a].id@ != #[trigger] obs[b].id@
}

#[verifier::spinoff_prover]
proof fn lemma_filter_ids_unique(obs: Seq<ObservedPod>, config: DeployConfig)
    requires
        ids_unique(obs),
    ensures
        ids_unique(orphans(obs, config)),
    decreases obs.len(),
{
    if obs.len() > 0 {
        let t = obs.drop_last();
        let x = obs.last();
        assert forall|a: int, b: int| 0 <= a < t.len() && 0 <= b < t.len() && a != b implies #[trigger] t[a].id@ != #[trigger] t[b].id@ by {
            assert(t[a] == obs[a] && t[b] == obs[b]);
        }
        lemma_filter_ids_unique(t, config);
        let ft = orphans(t, config);
        let f = orphans(obs, config);
        assert(obs =~= t.push(x));
        assert(f == if is_orphan(x, config) { ft.push(x) } else { ft }) by {
            reveal(Seq::filter);
        }
        if is_orphan(x, config) {
            assert forall|c: int| 0 <= c < ft.len() implies #[trigger] ft[c].id@ != x.id@ by {
                t.lemma_filter_contains_rev(|o: ObservedPod| is_orphan(o, config), ft[c]);
                let w = choose|w: int| 0 <= w < t.len() && t[w] == ft[c];
                assert(obs[w] == ft[c]);
                assert(obs[obs.len() - 1] == x);
            }
            assert forall|a: int, b: int| 0 <= a < f.len() && 0 <= b < f.len() && a != b implies #[trigger] f[a].id@ != #[trigger] f[b].id@ by {
                if a < ft.len() && b < ft.len() {
                    assert(f[a] == ft[a] && f[b] == ft[b]);
                } else if a < ft.len() {
                    assert(f[a] == ft[a] && f[b] == x);
                    assert(ft[a].id@ != x.id@);
                } else {
                    assert(b < ft.len());
                    assert(f[b] == ft[b] && f[a] == x);
                    assert(ft[b].id@ != x.id@);
                }
            }
        }
    }
}

/// Every orphan (an observed pod of this project and environment whose name
/// the document no longer holds) is deleted by exactly one `Delete`
/// difference, when observed pods have distinct identifiers.
#[verifier::spinoff_prover]
#[verifier::rlimit(40)]
pub proof fn lemma_orphan_deleted_once(
    r: DiffResult,
    config: DeployConfig,
    state: Option<&DeploymentState>,
    observed: Seq<ObservedPod>,
    k: int,
)
    requires
        is_diff_of(r, config, state, observed),
        ids_unique(observed),
        0 <= k < observed.len(),
        is_orphan(observed[k], config),
    ensures
        exists|m: int| 0 <= m < r.diffs@.len() && (#[trigger] r.diffs@[m]).diff_type == DiffType::Delete
            && opt_view(r.diffs@[m].provider_id) == Some(observed[k].id@),
        forall|m1: int, m2: int|
            0 <= m1 < r.diffs@.len() && 0 <= m2 < r.diffs@.len()
            && (#[trigger] r.diffs@[m1]).diff_type == DiffType::Delete && opt_view(r.diffs@[m1].provider_id) == Some(observed[k].id@)
            && (#[trigger] r.diffs@[m2]).diff_type == DiffType::Delete && opt_view(r.diffs@[m2].provider_id) == Some(observed[k].id@)
            ==> m1 == m2,
{
    let n = config.pods@.len() as int;
    let orph = orphans(observed, config);
    let o = observed[k];
    observed.lemma_filter_contains(|x: ObservedPod| is_orphan(x, config), k);
    let j = choose|j: int| 0 <= j < orph.len() && orph[j] == o;
    assert(r.diffs@[n + j].diff_type == DiffType::Delete);
    lemma_filter_ids_unique(observed, config);
    assert forall|m1: int, m2: int|
        0 <= m1 < r.diffs@.len() && 0 <= m2 < r.diffs@.len()
        && (#[trigger] r.diffs@[m1]).diff_type == DiffType::Delete && opt_view(r.diffs@[m1].provider_id) == Some(o.id@)
        && (#[trigger] r.diffs@[m2]).diff_type == DiffType::Delete && opt_view(r.diffs@[m2].provider_id) == Some(o.id@)
        implies m1 == m2 by {
        if m1 < n {
            assert(r.diffs@[m1].diff_type != DiffType::Delete);
        }
        if m2 < n {
            assert(r.diffs@[m2].diff_type != DiffType::Delete);
        }
        let a = m1 - n;
        let b = m2 - n;
        assert(r.diffs@[n + a] == r.diffs@[m1]);
        assert(r.diffs@[n + b] == r.diffs@[m2]);
        assert(orph[a].id@ == orph[b].id@);
    }
}

proof fn lemma_delete_part_has(diffs: Seq<ResourceDiff>, i: int)
    requires
        0 <= i < diffs.len(),
        diffs[i].diff_type == DiffType::Delete,
    ensures
        delete_part(diffs).contains(delete_view(diffs[i])),
    decreases diffs.len(),
{
    let t = diffs.drop_last();
    if i == diffs.len() - 1 {
        let r = delete_part(diffs);
        assert(r[r.len() - 1] == delete_view(diffs[i]));
    } else {
        lemma_delete_part_has(t, i);
        assert(t[i] == diffs[i]);
        let w = choose|w: int| 0 <= w < delete_part(t).len() && delete_part(t)[w] == delete_view(diffs[i]);
        if diffs.last().diff_type == DiffType::Delete {
            assert(delete_part(diffs)[w] == delete_view(diffs[i]));
        }
    }
}

proof fn lemma_create_part_has(diffs: Seq<ResourceDiff>, pods: Seq<PodConfig>, i: int)
    requires
        0 <= i < diffs.len(),
        is_creation(diffs[i], pods),
    ensures
        create_part(diffs, pods).contains(create_view(diffs[i])),
    decreases diffs.len(),
{
    let t = diffs.drop_last();
    if i == diffs.len() - 1 {
        let r = create_part(diffs, pods);
        assert(r[r.len() - 1] == create_view(diffs[i]));
    } else {
        lemma_create_part_has(t, pods, i);
        assert(t[i] == diffs[i]);
        let w = choose|w: int| 0 <= w < create_part(t, pods).len() && create_part(t, pods)[w] == create_view(diffs[i]);
        if is_creation(diffs.last(), pods) {
            assert(create_part(diffs, pods)[w] == create_view(diffs[i]));
        }
    }
}

proof fn lemma_replace_part_has(diffs: Seq<ResourceDiff>, pods: Seq<PodConfig>, base: nat, i: int)
    requires
        0 <= i < diffs.len(),
        is_replacement(diffs[i], pods),
    ensures
        exists|x: usize| replace_part(diffs, pods, base).contains(#[trigger] replace_create_view(diffs[i], x)),
    decreases diffs.len(),
{
    let t = diffs.drop_last();
    let r = replace_part(diffs, pods, base);
    if i == diffs.len() - 1 {
        let prev = replace_part(t, pods, base);
        let x = (base + prev.len()) as usize;
        assert(r[r.len() - 1] == replace_create_view(diffs[i], x));
        assert(r.contains(replace_create_view(diffs[i], x)));
    } else {
        lemma_replace_part_has(t, pods, base, i);
        assert(t[i] == diffs[i]);
        let x = choose|x: usize| replace_part(t, pods, base).contains(#[trigger] replace_create_view(diffs[i], x));
        let prev = replace_part(t, pods, base);
        let w = choose|w: int| 0 <= w < prev.len() && prev[w] == replace_create_view(diffs[i], x);
        if is_replacement(diffs.last(), pods) {
            assert(r[w] == prev[w]);
        }
        assert(r.contains(replace_create_view(diffs[i], x)));
    }
}

proof fn lemma_first_named_found(pods: Seq<PodConfig>, i: int)
    requires
        0 <= i < pods.len(),
    ensures
        first_named(pods, pods[i].name@) is Some,
    decreases pods.len(),
{
    if pods[0].name@ != pods[i].name@ {
        assert(pods.drop_first()[i - 1] == pods[i]);
        lemma_first_named_found(pods.drop_first(), i - 1);
    }
}

proof fn lemma_no_kind(diffs: Seq<ResourceDiff>, t: DiffType)
    requires
        forall|i: int| 0 <= i < diffs.len() ==> (#[trigger] diffs[i]).diff_type != t,
    ensures
        count_kind(diffs, t) == 0,
    decreases diffs.len(),
{
    if diffs.len() > 0 {
        let d = diffs.drop_last();
        assert forall|i: int| 0 <= i < d.len() implies (#[trigger] d[i]).diff_type != t by {
            assert(d[i] == diffs[i]);
        }
        assert(diffs[diffs.len() - 1] == diffs.last());
        lemma_no_kind(d, t);
    }
}

/// Whether the observation shows the pod that a creation asked for: the
/// pod seen under the action's name carries the action's digest.
pub open spec fn creation_seen(obs: Seq<ObservedPod>, config: DeployConfig, a: ActionView) -> bool {
    observed_for(obs, config.project, a.name) matches Some(o) && opt_view(o.spec_hash) == a.new_hash
}

/// Whether `after` is what the provider shows once every action of the
/// plan made from `d` was carried out: each created pod is seen under its
/// name with its digest; pods left alone are seen as before; no pod with a
/// deleted identifier remains; and no pod of this project appears under a
/// name the document does not hold unless it was there before.
pub open spec fn plan_carried_out(
    d: DiffResult,
    config: DeployConfig,
    before: Seq<ObservedPod>,
    after: Seq<ObservedPod>,
) -> bool {
    let acts = plan_actions(d.diffs@, config.pods@);
    &&& forall|k: int| 0 <= k < acts.len() && (#[trigger] acts[k]).kind == ActionType::CreatePod ==> creation_seen(after, config, acts[k])
    &&& forall|i: int| 0 <= i < config.pods@.len() && (#[trigger] d.diffs@[i]).diff_type == DiffType::NoChange
        ==> observed_for(after, config.project, config.pods@[i].name@) == observed_for(before, config.project, config.pods@[i].name@)
    &&& forall|k: int, j: int| 0 <= k < acts.len() && (#[trigger] acts[k]).kind == ActionType::DeletePod && 0 <= j < after.len()
        ==> acts[k].runpod_id != Some(#[trigger] after[j].id@)
    &&& forall|j: int| 0 <= j < after.len() && is_orphan(#[trigger] after[j], config) ==> before.contains(after[j])
}

/// Reconciliation converges: once the provider has carried out every
/// action of the plan made from a diff, a new diff against what it then
/// shows (and any recorded state) finds nothing to create, replace or
/// delete.
#[verifier::spinoff_prover]
#[verifier::rlimit(40)]
pub proof fn lemma_reconcile_converges(
    d: DiffResult,
    config: DeployConfig,
    state: Option<&DeploymentState>,
    before: Seq<ObservedPod>,
    state2: Option<&DeploymentState>,
    after: Seq<ObservedPod>,
    r: DiffResult,
)
    requires
        is_diff_of(d, config, state, before),
        plan_carried_out(d, config, before, after),
        is_diff_of(r, config, state2, after),
    ensures
        r.creates == 0,
        r.updates == 0,
        r.deletes == 0,
        all_unchanged(r.diffs@),
{
    let pods = config.pods@;
    let n = pods.len() as int;
    let acts = plan_actions(d.diffs@, pods);
    let dp = delete_part(d.diffs@);
    let cp = create_part(d.diffs@, pods);
    let rp = replace_part(d.diffs@, pods, dp.len() + cp.len());
    assert(acts == dp + cp + rp);
    // No orphan is left.
    let orph2 = orphans(after, config);
    if orph2.len() > 0 {
        let o = orph2[0];
        after.lemma_filter_pred(|x: ObservedPod| is_orphan(x, config), 0);
        after.lemma_filter_contains_rev(|x: ObservedPod| is_orphan(x, config), o);
        let ja = choose|j: int| 0 <= j < after.len() && after[j] == o;
        assert(before.contains(o));
        let jb = choose|j: int| 0 <= j < before.len() && before[j] == o;
        before.lemma_filter_contains(|x: ObservedPod| is_orphan(x, config), jb);
        let orph1 = orphans(before, config);
        let m = choose|m: int| 0 <= m < orph1.len() && orph1[m] == o;
        assert(is_orphan_diff(d.diffs@[n + m], orph1[m]));
        lemma_delete_part_has(d.diffs@, n + m);
        let w = choose|w: int| 0 <= w < dp.len() && dp[w] == delete_view(d.diffs@[n + m]);
        assert(acts[w] == dp[w]);
        assert(acts[w].runpod_id == Some(after[ja].id@));
        assert(false);
    }
    // Every desired pod is unchanged.
    assert forall|i: int| 0 <= i < r.diffs@.len() implies (#[trigger] r.diffs@[i]).diff_type == DiffType::NoChange by {
        assert(i < n);
        let p = pods[i];
        let di = d.diffs@[i];
        let h = pod_digest(p);
        let o1 = observed_for(before, config.project, p.name@);
        assert(is_pod_diff(di, p, o1, recorded_for(recorded_pods(state), p.name@), h));
        if di.diff_type == DiffType::NoChange {
        } else {
            lemma_first_named_found(pods, i);
            if di.diff_type == DiffType::Create {
                assert(is_creation(di, pods));
                lemma_create_part_has(d.diffs@, pods, i);
                let w = choose|w: int| 0 <= w < cp.len() && cp[w] == create_view(di);
                assert(acts[dp.len() + w] == cp[w]);
                assert(creation_seen(after, config, acts[dp.len() + w]));
            } else {
                assert(is_replacement(di, pods));
                lemma_replace_part_has(d.diffs@, pods, dp.len() + cp.len(), i);
                let x = choose|x: usize| rp.contains(#[trigger] replace_create_view(di, x));
                let w = choose|w: int| 0 <= w < rp.len() && rp[w] == replace_create_view(di, x);
                assert(acts[dp.len() + cp.len() + w] == rp[w]);
                assert(creation_seen(after, config, acts[dp.len() + cp.len() + w]));
            }
        }
    }
    lemma_no_kind(r.diffs@, DiffType::Create);
    lemma_no_kind(r.diffs@, DiffType::Update);
    lemma_no_kind(r.diffs@, DiffType::Drift);
    lemma_no_kind(r.diffs@, DiffType::Delete);
}

} // verus!
