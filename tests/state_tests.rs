use halldyll_deploy_pods::error::StateError;
use halldyll_deploy_pods::state::{
    DeploymentHistoryEntry, DeploymentOperation, DeploymentState, DeploymentStatus, LockInfo,
    LockSlot, PodState, StateLock, VolumeState, LOCK_EXPIRY_SECS, MAX_HISTORY,
};

const NOW: i64 = 1_700_000_000;

#[test]
fn test_lock_creation() {
    let lock = StateLock::new("test-holder", NOW);
    assert_eq!(lock.holder(), "test-holder");
    assert!(!lock.is_expired(NOW));
    assert!(lock.info().remaining_secs(NOW) > 0);
}

#[test]
fn test_lock_refresh() {
    let mut lock = StateLock::new("test-holder", NOW);
    let first_expiry = lock.info().expires_at;
    lock.refresh(NOW + 10);
    assert!(lock.info().expires_at >= first_expiry);
}

#[test]
fn lock_times() {
    let info = LockInfo::new("h", NOW);
    assert_eq!(info.expires_at, NOW + LOCK_EXPIRY_SECS);
    assert_eq!(info.remaining_secs(NOW + 100), 200);
    assert_eq!(info.remaining_secs(NOW + 400), 0);
    assert!(!info.is_expired(NOW + 300));
    assert!(info.is_expired(NOW + 301));
    assert_ne!(LockInfo::new("h", NOW).lock_id, info.lock_id);
    assert_eq!(info.lock_id.len(), 36);
}

#[test]
fn lock_exclusive_within_expiry() {
    let mut slot = LockSlot::empty();
    let first = slot.acquire("holder-1", NOW).unwrap();
    match slot.acquire("holder-2", NOW + 10) {
        Err(StateError::LockedByOther { holder, since }) => {
            assert_eq!(holder, "holder-1");
            assert_eq!(since, NOW);
        }
        other => panic!("expected a refusal, got {other:?}"),
    }
    assert!(slot.is_locked(NOW + 10));
    let seized = slot.acquire("holder-2", NOW + LOCK_EXPIRY_SECS + 1).unwrap();
    assert_eq!(seized.holder, "holder-2");
    assert_ne!(seized.lock_id, first.lock_id);
}

#[test]
fn lock_release_only_by_owner() {
    let mut slot = LockSlot::empty();
    let info = slot.acquire("holder-1", NOW).unwrap();
    slot.release("not-the-id");
    assert!(slot.is_locked(NOW));
    assert_eq!(slot.get_lock_info().unwrap().lock_id, info.lock_id);
    slot.release(&info.lock_id);
    assert!(!slot.is_locked(NOW));
    assert!(slot.get_lock_info().is_none());
    slot.acquire("holder-3", NOW).unwrap();
    slot.force_unlock();
    assert!(slot.current.is_none());
}

#[test]
fn history_keeps_newest_hundred() {
    let mut state = DeploymentState::new("demo", "dev", NOW);
    for i in 0..150 {
        state.add_history(DeploymentHistoryEntry::new(DeploymentOperation::Reconcile, &format!("h{i}"), vec![], NOW + i));
        assert!(state.history.len() <= MAX_HISTORY);
    }
    assert_eq!(state.history.len(), 100);
    assert_eq!(state.history.last().unwrap().config_hash, "h149");
    assert_eq!(state.history[0].config_hash, "h50");
}

#[test]
fn pod_records() {
    let mut state = DeploymentState::new("demo", "dev", NOW);
    assert_eq!(state.version, "1.0");
    state.set_pod(PodState::new("web", "p-1", "h1", NOW), NOW + 1);
    state.set_pod(PodState::new("api", "p-2", "h2", NOW), NOW + 2);
    state.set_pod(PodState::new("web", "p-3", "h3", NOW), NOW + 3);
    assert_eq!(state.pods.len(), 2);
    assert_eq!(state.get_pod("web").unwrap().runpod_id, "p-3");
    assert_eq!(state.last_updated, NOW + 3);
    state.set_pod_status("api", DeploymentStatus::Running, NOW + 4);
    assert!(state.get_pod("api").unwrap().is_healthy());
    assert_eq!(state.running_pods(), vec!["api".to_string()]);
    let mut names = state.pod_names();
    names.sort();
    assert_eq!(names, vec!["api".to_string(), "web".to_string()]);
    assert!(state.remove_pod("web", NOW + 5).is_some());
    assert!(state.remove_pod("web", NOW + 6).is_none());
    assert_eq!(state.last_updated, NOW + 5);
    assert!(state.get_volume("data").is_none());
    let failed = DeploymentHistoryEntry::failed(DeploymentOperation::Destroy, "h", vec!["a".into()], "bad", NOW);
    assert!(!failed.success);
    assert_eq!(failed.error.as_deref(), Some("bad"));
}

#[test]
fn volumes_and_endpoints() {
    let mut state = DeploymentState::new("demo", "dev", NOW);
    let vol = |id: &str| VolumeState { name: "data".into(), runpod_id: id.into(), mount_path: "/data".into(), size_gb: 10, created_at: NOW };
    state.set_volume(vol("v-1"), NOW + 1);
    state.set_volume(vol("v-2"), NOW + 2);
    assert_eq!(state.volumes.len(), 1);
    assert_eq!(state.get_volume("data").unwrap().runpod_id, "v-2");
    let mut pod = PodState::new("web", "p-1", "h", NOW);
    pod.add_endpoint(8000, "https://a".into(), NOW + 1);
    pod.add_endpoint(22, "ssh://b".into(), NOW + 2);
    pod.add_endpoint(8000, "https://c".into(), NOW + 3);
    assert_eq!(pod.endpoints, vec![(8000, "https://c".to_string()), (22, "ssh://b".to_string())]);
    assert_eq!(pod.updated_at, NOW + 3);
}
