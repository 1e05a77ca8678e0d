use halldyll_deploy_pods::config::{
    CloudType, ComputeType, ConfigHasher, DeployConfig, GpuConfig, GuardrailsConfig, PodConfig,
    ProjectConfig, RuntimeConfig, StateBackend, StateConfig,
};
use halldyll_deploy_pods::error::ReconcileError;
use halldyll_deploy_pods::planner::{
    ActionType, DeploymentPlan, DiffEngine, DiffType, ExecutionResult, PlanExecutor, ProvisionCall,
    ProvisionOutcome, Step,
};
use halldyll_deploy_pods::reconciler::{Attempt, Reconciler};
use halldyll_deploy_pods::runpod::{ObservedPod, PodStatus};
use halldyll_deploy_pods::state::{DeploymentState, DeploymentStatus};

const NOW: i64 = 1_700_000_000;

fn pod(name: &str, image: &str, gpus: u32) -> PodConfig {
    PodConfig {
        name: name.to_string(),
        gpu: GpuConfig { gpu_type: "A40".into(), count: gpus, min_vram_gb: None, fallback: vec![] },
        ports: vec![],
        volumes: vec![],
        runtime: RuntimeConfig { image: image.into(), env: vec![], command: None, args: None },
        models: vec![],
        health_check: None,
        tags: vec![],
    }
}

fn config(pods: Vec<PodConfig>, max_gpus: Option<u32>) -> DeployConfig {
    DeployConfig {
        project: ProjectConfig {
            name: "demo".into(),
            environment: "dev".into(),
            region: None,
            cloud_type: CloudType::Secure,
            compute_type: ComputeType::Gpu,
        },
        state: StateConfig { backend: StateBackend::Local, bucket: None, prefix: None, region: None, path: None },
        pods,
        guardrails: max_gpus.map(|m| GuardrailsConfig {
            max_hourly_cost_bits: None,
            max_gpus: Some(m),
            ttl_hours: None,
            allow_gpu_fallback: false,
        }),
    }
}

fn observed(id: &str, name: &str, hash: Option<&str>, image: &str) -> ObservedPod {
    ObservedPod {
        id: id.into(),
        name: format!("demo-dev-{name}"),
        project: Some("demo".into()),
        environment: Some("dev".into()),
        pod_name: Some(name.into()),
        spec_hash: hash.map(String::from),
        status: PodStatus::Running,
        gpu_type: Some("A40".into()),
        gpu_count: 1,
        image: image.into(),
        endpoints: vec![],
        tags: vec![],
    }
}

/// Runs a plan against a mock provider: every creation yields `p-<n>`.
fn run(plan: &DeploymentPlan, state: &mut DeploymentState) -> Result<ExecutionResult, ReconcileError> {
    let executor = PlanExecutor::new().with_continue_on_error(true);
    let mut run = executor.start(plan, state, NOW)?;
    let mut created = 0;
    loop {
        match run.step(plan, state, NOW) {
            Step::Finished => break,
            Step::Resolved => {}
            Step::Call(ProvisionCall::Create { index }) => {
                created += 1;
                let image = plan.actions[index].pod_config.as_ref().unwrap().runtime.image.clone();
                let outcome = ProvisionOutcome::Created {
                    provider_id: format!("p-{created}"),
                    gpu_type: "A40".into(),
                    gpu_count: 1,
                    image,
                };
                run.record(plan, state, outcome, NOW);
            }
            Step::Call(_) => run.record(plan, state, ProvisionOutcome::Done, NOW),
        }
    }
    Ok(run.finish(plan, state, NOW))
}

#[test]
fn s1_first_apply() {
    let cfg = config(vec![pod("web", "svc:1.0", 1)], None);
    let h = ConfigHasher::new().hash_pod(&cfg.pods[0]);
    let diff = DiffEngine::new().compute_diff(&cfg, None, &vec![]);
    assert_eq!(diff.diffs.len(), 1);
    assert_eq!(diff.diffs[0].diff_type, DiffType::Create);
    let plan = DeploymentPlan::from_diff(&diff, &cfg, "doc", NOW);
    assert_eq!(plan.actions.len(), 1);
    assert_eq!(plan.actions[0].action_type, ActionType::CreatePod);
    assert!(plan.actions[0].dependencies.is_empty());
    let mut state = DeploymentState::new("demo", "dev", NOW);
    let result = run(&plan, &mut state).unwrap();
    assert!(result.success);
    let rec = state.get_pod("web").unwrap();
    assert_eq!(rec.runpod_id, "p-1");
    assert_eq!(rec.config_hash, h);
    assert_eq!(rec.status, DeploymentStatus::Creating);
    assert_eq!(state.history.len(), 1);
    assert!(state.history[0].success);
}

#[test]
fn s2_no_op() {
    let cfg = config(vec![pod("web", "svc:1.0", 1)], None);
    let h = ConfigHasher::new().hash_pod(&cfg.pods[0]);
    let mut state = DeploymentState::new("demo", "dev", NOW);
    let plan1 = DeploymentPlan::from_diff(&DiffEngine::new().compute_diff(&cfg, None, &vec![]), &cfg, "doc", NOW);
    run(&plan1, &mut state).unwrap();
    let obs = vec![observed("p-1", "web", Some(&h), "svc:1.0")];
    let diff = DiffEngine::new().compute_diff(&cfg, Some(&state), &obs);
    assert_eq!(diff.diffs.len(), 1);
    assert_eq!(diff.diffs[0].diff_type, DiffType::NoChange);
    let plan = DeploymentPlan::from_diff(&diff, &cfg, "doc", NOW);
    assert!(plan.is_empty());
    let before = state.config_hash.clone();
    let result = run(&plan, &mut state).unwrap();
    assert_eq!(result.total_executed, 0);
    assert!(result.success);
    assert_eq!(state.config_hash, before);
}

#[test]
fn s3_image_change() {
    let old_cfg = config(vec![pod("web", "svc:1.0", 1)], None);
    let h_old = ConfigHasher::new().hash_pod(&old_cfg.pods[0]);
    let mut state = DeploymentState::new("demo", "dev", NOW);
    let plan1 = DeploymentPlan::from_diff(&DiffEngine::new().compute_diff(&old_cfg, None, &vec![]), &old_cfg, "doc", NOW);
    run(&plan1, &mut state).unwrap();

    let cfg = config(vec![pod("web", "svc:1.1", 1)], None);
    let h_new = ConfigHasher::new().hash_pod(&cfg.pods[0]);
    let obs = vec![observed("p-1", "web", Some(&h_old), "svc:1.0")];
    let diff = DiffEngine::new().compute_diff(&cfg, Some(&state), &obs);
    assert_eq!(diff.diffs[0].diff_type, DiffType::Update);
    let d = &diff.diffs[0].details[0];
    assert_eq!(d.field, "image");
    assert_eq!(d.old_value.as_deref(), Some("svc:1.0"));
    assert_eq!(d.new_value.as_deref(), Some("svc:1.1"));
    let plan = DeploymentPlan::from_diff(&diff, &cfg, "doc2", NOW);
    assert_eq!(plan.actions.len(), 2);
    assert_eq!(plan.actions[0].action_type, ActionType::DeletePod);
    assert_eq!(plan.actions[0].runpod_id.as_deref(), Some("p-1"));
    assert!(plan.actions[0].dependencies.is_empty());
    assert_eq!(plan.actions[1].action_type, ActionType::CreatePod);
    assert_eq!(plan.actions[1].dependencies, vec![0]);
    let result = run(&plan, &mut state).unwrap();
    assert!(result.success);
    let rec = state.get_pod("web").unwrap();
    assert_eq!(rec.config_hash, h_new);
    assert_eq!(rec.image, "svc:1.1");
}

#[test]
fn s4_orphan_deletion() {
    let cfg = config(vec![pod("web", "svc:1.0", 1)], None);
    let h = ConfigHasher::new().hash_pod(&cfg.pods[0]);
    let mut state = DeploymentState::new("demo", "dev", NOW);
    let obs = vec![observed("p-1", "web", Some(&h), "svc:1.0"), observed("p-9", "old", Some("zzz"), "svc:0.9")];
    let diff = DiffEngine::new().compute_diff(&cfg, Some(&state), &obs);
    assert_eq!(diff.diffs.len(), 2);
    assert_eq!(diff.diffs[0].diff_type, DiffType::NoChange);
    assert_eq!(diff.diffs[1].diff_type, DiffType::Delete);
    assert_eq!(diff.diffs[1].name, "old");
    assert_eq!(diff.deletes, 1);
    let plan = DeploymentPlan::from_diff(&diff, &cfg, "doc", NOW);
    assert_eq!(plan.actions.len(), 1);
    assert_eq!(plan.actions[0].action_type, ActionType::DeletePod);
    assert_eq!(plan.actions[0].resource_name, "old");
    assert_eq!(plan.actions[0].runpod_id.as_deref(), Some("p-9"));
    run(&plan, &mut state).unwrap();
    assert!(state.get_pod("old").is_none());
}

#[test]
fn untagged_pods_are_never_deleted() {
    let cfg = config(vec![], None);
    let mut foreign = observed("p-7", "other", None, "x");
    foreign.project = Some("someone-else".into());
    let mut untagged = observed("p-8", "stray", None, "x");
    untagged.project = None;
    untagged.environment = None;
    let diff = DiffEngine::new().compute_diff(&cfg, None, &vec![foreign, untagged]);
    assert!(diff.diffs.is_empty());
    assert!(!diff.has_changes());
}

#[test]
fn s5_drift() {
    let cfg = config(vec![pod("web", "svc:1.0", 1)], None);
    let obs = vec![observed("p-1", "web", Some("stale"), "svc:1.0")];
    let diff = DiffEngine::new().compute_diff(&cfg, None, &obs);
    assert_eq!(diff.diffs[0].diff_type, DiffType::Drift);
    let plan = DeploymentPlan::from_diff(&diff, &cfg, "doc", NOW);
    let kinds: Vec<ActionType> = plan.actions.iter().map(|a| a.action_type).collect();
    assert_eq!(kinds, vec![ActionType::DeletePod, ActionType::CreatePod]);
    let report = Reconciler::check_drift(&cfg, None, &obs);
    assert!(report.has_drift);
    assert!(!report.is_converged());
    assert_eq!(report.drifted_resources, vec!["web".to_string()]);
    assert_eq!(report.total_resources, 1);
    assert_eq!(report.observed_count, 1);
}

#[test]
fn s6_guardrail_block() {
    let cfg = config(vec![pod("a", "svc:1.0", 2), pod("b", "svc:1.0", 2)], Some(3));
    let diff = DiffEngine::new().compute_diff(&cfg, None, &vec![]);
    let plan = DeploymentPlan::from_diff(&diff, &cfg, "doc", NOW);
    assert!(!plan.passes_guardrails);
    assert_eq!(plan.guardrail_violations.len(), 1);
    assert!(plan.guardrail_violations[0].contains('4'));
    assert!(plan.guardrail_violations[0].contains('3'));
    assert_eq!(plan.guardrail_violations[0], "Plan requires 4 GPUs but max_gpus is 3");
    let mut state = DeploymentState::new("demo", "dev", NOW);
    let refused = PlanExecutor::new().start(&plan, &mut state, NOW);
    assert!(matches!(refused, Err(ReconcileError::Aborted { .. })));
    assert!(state.pods.is_empty());
    assert_eq!(state.history.len(), 1);
    assert!(!state.history[0].success);
    let attempt = Reconciler::prepare_attempt(&cfg, &state, &vec![], "doc", NOW);
    assert!(matches!(attempt, Err(ReconcileError::Aborted { .. })));
}

#[test]
fn converged_after_successful_apply() {
    let cfg = config(vec![pod("web", "svc:1.0", 1), pod("api", "svc:2.0", 1)], None);
    let hasher = ConfigHasher::new();
    let mut state = DeploymentState::new("demo", "dev", NOW);
    let obs = vec![observed("p-5", "gone", Some("x"), "x")];
    match Reconciler::prepare_attempt(&cfg, &state, &obs, "doc", NOW).unwrap() {
        Attempt::Execute { plan, created, deleted, .. } => {
            assert_eq!(created, 2);
            assert_eq!(deleted, 1);
            let exec = run(&plan, &mut state).unwrap();
            let summary = Reconciler::summarize(2, 0, 1, 0, &exec);
            assert!(summary.success);
            assert!(summary.errors.is_empty());
        }
        Attempt::Converged(_) => panic!("expected work"),
    }
    let now_observed: Vec<ObservedPod> = cfg
        .pods
        .iter()
        .map(|p| observed("p", &p.name, Some(&hasher.hash_pod(p)), &p.runtime.image))
        .collect();
    let report = Reconciler::check_drift(&cfg, Some(&state), &now_observed);
    assert!(!report.has_drift);
    assert!(matches!(
        Reconciler::prepare_attempt(&cfg, &state, &now_observed, "doc", NOW).unwrap(),
        Attempt::Converged(_)
    ));
}

#[test]
fn failed_dependency_skips_dependent() {
    let cfg = config(vec![pod("web", "svc:1.1", 1)], None);
    let obs = vec![observed("p-1", "web", Some("old"), "svc:1.0")];
    let diff = DiffEngine::new().compute_diff(&cfg, None, &obs);
    let plan = DeploymentPlan::from_diff(&diff, &cfg, "doc", NOW);
    let mut state = DeploymentState::new("demo", "dev", NOW);
    let executor = PlanExecutor::new().with_continue_on_error(true);
    let mut r = executor.start(&plan, &mut state, NOW).unwrap();
    match r.step(&plan, &mut state, NOW) {
        Step::Call(ProvisionCall::Terminate { index, pod_id }) => {
            assert_eq!(index, 0);
            assert_eq!(pod_id, "p-1");
        }
        _ => panic!("expected a terminate call"),
    }
    r.record(&plan, &mut state, ProvisionOutcome::Failed { message: "boom".into() }, NOW);
    assert!(matches!(r.step(&plan, &mut state, NOW), Step::Resolved));
    assert!(matches!(r.step(&plan, &mut state, NOW), Step::Finished));
    let result = r.finish(&plan, &mut state, NOW);
    assert_eq!(result.failed, 1);
    assert_eq!(result.skipped, 1);
    assert!(!result.success);
    assert!(!result.all_successful());
    assert_eq!(result.results[1].error.as_deref(), Some("Skipped due to dependency failure"));
    assert_eq!(state.history.last().unwrap().error.as_deref(), Some("1 actions failed"));
    let summary = Reconciler::summarize(0, 1, 0, 0, &result);
    assert_eq!(summary.errors[0], "1 of 2 actions failed");
    assert_eq!(summary.errors[1], "boom");
}

#[test]
fn stop_on_first_failure_without_continue() {
    let cfg = config(vec![pod("a", "x", 1), pod("b", "x", 1)], None);
    let diff = DiffEngine::new().compute_diff(&cfg, None, &vec![]);
    let plan = DeploymentPlan::from_diff(&diff, &cfg, "doc", NOW);
    let mut state = DeploymentState::new("demo", "dev", NOW);
    let mut r = PlanExecutor::new().start(&plan, &mut state, NOW).unwrap();
    assert!(matches!(r.step(&plan, &mut state, NOW), Step::Call(ProvisionCall::Create { index: 0 })));
    r.record(&plan, &mut state, ProvisionOutcome::Failed { message: "no capacity".into() }, NOW);
    assert!(matches!(r.step(&plan, &mut state, NOW), Step::Finished));
    let result = r.finish(&plan, &mut state, NOW);
    assert_eq!(result.total_executed, 1);
    assert_eq!(result.failed, 1);
}

#[test]
fn delete_not_found_counts_as_success() {
    let cfg = config(vec![], None);
    let obs = vec![observed("p-3", "old", None, "x")];
    let diff = DiffEngine::new().compute_diff(&cfg, None, &obs);
    let plan = DeploymentPlan::from_diff(&diff, &cfg, "doc", NOW);
    let mut state = DeploymentState::new("demo", "dev", NOW);
    let mut r = PlanExecutor::new().start(&plan, &mut state, NOW).unwrap();
    assert!(matches!(r.step(&plan, &mut state, NOW), Step::Call(ProvisionCall::Terminate { .. })));
    r.record(&plan, &mut state, ProvisionOutcome::NotFound, NOW);
    let result = r.finish(&plan, &mut state, NOW);
    assert!(result.success);
    assert_eq!(state.config_hash, "doc");
}

#[test]
fn retry_decision() {
    let rec = Reconciler::new();
    assert_eq!(rec.max_attempts, 3);
    assert!(rec.should_retry(1, false));
    assert!(!rec.should_retry(3, false));
    assert!(!rec.should_retry(1, true));
    assert_eq!(Reconciler::new().with_max_attempts(5).max_attempts, 5);
}

#[test]
fn plan_queries() {
    let cfg = config(vec![pod("web", "svc:1.1", 1), pod("new", "x", 1)], None);
    let obs = vec![observed("p-1", "web", Some("old"), "svc:1.0"), observed("p-2", "gone", None, "y")];
    let diff = DiffEngine::new().compute_diff(&cfg, None, &obs);
    assert_eq!(diff.creates, 1);
    assert_eq!(diff.updates, 1);
    assert_eq!(diff.deletes, 1);
    assert_eq!(diff.total_changes(), 3);
    assert_eq!(diff.actionable_diffs(), vec![0, 1, 2]);
    let plan = DeploymentPlan::from_diff(&diff, &cfg, "doc", NOW);
    let kinds: Vec<ActionType> = plan.actions.iter().map(|a| a.action_type).collect();
    assert_eq!(kinds, vec![ActionType::DeletePod, ActionType::CreatePod, ActionType::DeletePod, ActionType::CreatePod]);
    assert_eq!(plan.action_count(), 4);
    assert_eq!(plan.create_count(), 2);
    assert_eq!(plan.delete_count(), 2);
    assert_eq!(plan.ready_actions(), vec![0, 1, 2]);
    assert_eq!(plan.dependent_actions(2), vec![3]);
    assert_eq!(plan.actions[2].reason, "Recreating pod due to drift");
    assert_eq!(plan.actions[0].description(), "Delete pod 'gone'");
    let empty = DeploymentPlan::empty("h", NOW);
    assert!(empty.is_empty() && empty.passes_guardrails);
}
