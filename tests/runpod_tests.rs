use halldyll_deploy_pods::config::{
    CloudType, ComputeType, GpuConfig, PodConfig, PortConfig, PortProtocol, ProjectConfig,
    RuntimeConfig, VolumeConfig,
};
use halldyll_deploy_pods::error::{HalldyllError, RunPodError, StateError};
use halldyll_deploy_pods::runpod::{
    build_create_request, build_ports_string, build_tags, select_gpu_type, CreatePodRequest,
    EndpointCheck, EngineStartResult, GpuType, HealthStatus, ModelSetupResult, ObservedPod,
    PodStatus, PostProvisionResult, ProjectStatus,
};

fn check(healthy: bool, ms: Option<u64>) -> EndpointCheck {
    EndpointCheck { port: 8000, url: "u".into(), healthy, status_code: None, response_time_ms: ms, error: None }
}

fn pod() -> PodConfig {
    PodConfig {
        name: "web".into(),
        gpu: GpuConfig { gpu_type: "NVIDIA A40".into(), count: 2, min_vram_gb: None, fallback: vec![] },
        ports: vec![PortConfig::new(8000, PortProtocol::Https), PortConfig::new(22, PortProtocol::Tcp)],
        volumes: vec![
            VolumeConfig { name: "a".into(), mount: "/a".into(), persistent: true, size_gb: Some(10) },
            VolumeConfig { name: "b".into(), mount: "/b".into(), persistent: true, size_gb: Some(80) },
        ],
        runtime: RuntimeConfig { image: "svc:1".into(), env: vec![("K".into(), "V".into())], command: None, args: None },
        models: vec![],
        health_check: None,
        tags: vec![("team".into(), "ml".into()), ("halldyll_pod".into(), "spoofed".into())],
    }
}

fn project() -> ProjectConfig {
    ProjectConfig {
        name: "demo".into(),
        environment: "dev".into(),
        region: None,
        cloud_type: CloudType::Community,
        compute_type: ComputeType::Gpu,
    }
}

#[test]
fn health_summaries() {
    let s = HealthStatus {
        pod_id: "p".into(),
        pod_name: "web".into(),
        healthy: true,
        checks: vec![check(true, Some(10)), check(false, None), check(true, Some(21))],
        error: None,
    };
    assert!(!s.all_endpoints_healthy());
    assert_eq!(s.healthy_endpoint_count(), 2);
    assert_eq!(s.average_response_time_ms(), Some(15));
    let empty = HealthStatus { pod_id: "p".into(), pod_name: "w".into(), healthy: true, checks: vec![], error: None };
    assert!(empty.all_endpoints_healthy());
    assert_eq!(empty.average_response_time_ms(), None);
}

#[test]
fn setup_summary() {
    let r = PostProvisionResult {
        pod_id: "p-1".into(),
        success: false,
        model_results: vec![
            ModelSetupResult { model_id: "m".into(), success: true, model_path: None, error: None },
            ModelSetupResult { model_id: "n".into(), success: false, model_path: None, error: None },
        ],
        engine_results: vec![EngineStartResult { engine: "vllm".into(), success: true, endpoint: None, error: None }],
    };
    assert_eq!(r.summary(), "Pod p-1: Models 1/2 OK, Engines 1/1 OK");
}

#[test]
fn observed_pod_helpers() {
    let o = ObservedPod {
        id: "p".into(),
        name: "raw".into(),
        project: Some("demo".into()),
        environment: Some("dev".into()),
        pod_name: Some("web".into()),
        spec_hash: None,
        status: PodStatus::Running,
        gpu_type: None,
        gpu_count: 1,
        image: "i".into(),
        endpoints: vec![],
        tags: vec![],
    };
    assert!(o.is_running());
    assert!(o.is_managed());
    assert_eq!(o.full_name(), "demo-dev-web");
    let mut bare = o.clone();
    bare.pod_name = None;
    assert_eq!(bare.full_name(), "raw");
    let st = ProjectStatus {
        project: "demo".into(),
        environment: "dev".into(),
        total_pods: 1,
        running: 1,
        stopped: 0,
        error: 0,
        other: 0,
        pods: vec![o],
    };
    assert!(st.is_healthy());
    assert!(!st.has_errors());
}

#[test]
fn creation_request() {
    assert_eq!(build_ports_string(&vec![]), "8000/http");
    assert_eq!(build_ports_string(&pod().ports), "8000/http,22/tcp");
    let tags = build_tags(&pod(), &project(), "H");
    assert!(tags.contains(&("halldyll_pod".to_string(), "web".to_string())));
    assert!(tags.contains(&("halldyll_project".to_string(), "demo".to_string())));
    assert!(tags.contains(&("halldyll_env".to_string(), "dev".to_string())));
    assert!(tags.contains(&("halldyll_spec_hash".to_string(), "H".to_string())));
    assert!(tags.contains(&("team".to_string(), "ml".to_string())));
    assert_eq!(tags.len(), 5);
    let req = build_create_request(&pod(), &project(), "gpu-id", "H", Some("tok"));
    assert_eq!(req.name, "demo-dev-web");
    assert_eq!(req.cloud_type, "COMMUNITY");
    assert_eq!(req.gpu_count, 2);
    assert_eq!(req.volume_in_gb, 80);
    assert_eq!(req.container_disk_in_gb, 20);
    assert_eq!(req.volume_mount_path.as_deref(), Some("/a"));
    assert_eq!(req.env.len(), 2);
    assert_eq!(req.env[1].key, "HF_TOKEN");
    let mut bare = pod();
    bare.volumes.clear();
    let req = build_create_request(&bare, &project(), "gpu-id", "H", None);
    assert_eq!(req.volume_in_gb, 50);
    assert!(req.volume_mount_path.is_none());
    assert_eq!(req.env.len(), 1);
}

#[test]
fn request_builders() {
    let r = CreatePodRequest::new("n", "g", "i")
        .with_env("A", "1")
        .with_tag("k", "v")
        .with_tag("k", "w")
        .with_ports("22/tcp");
    assert_eq!(r.cloud_type, "SECURE");
    assert_eq!(r.ports, "22/tcp");
    assert_eq!(r.env.len(), 1);
    assert_eq!(r.custom_tags.unwrap(), vec![("k".to_string(), "w".to_string())]);
}

#[test]
fn error_policies() {
    assert!(HalldyllError::RunPod(RunPodError::RateLimited { retry_after_secs: 60 }).is_retryable());
    assert_eq!(HalldyllError::RunPod(RunPodError::RateLimited { retry_after_secs: 60 }).retry_delay_secs(), Some(60));
    assert_eq!(HalldyllError::RunPod(RunPodError::network("x".into())).retry_delay_secs(), Some(5));
    assert_eq!(HalldyllError::State(StateError::LockFailed { message: "m".into() }).retry_delay_secs(), Some(2));
    assert!(!HalldyllError::internal("x".into()).is_retryable());
    assert_eq!(HalldyllError::internal("x".into()).retry_delay_secs(), None);
}

fn offer(id: &str, name: &str, secure: bool, community: bool) -> GpuType {
    GpuType { id: id.into(), display_name: name.into(), memory_in_gb: 48, secure_cloud: secure, community_cloud: community }
}

#[test]
fn gpu_type_selection() {
    let offers = vec![
        offer("a40", "NVIDIA A40", false, true),
        offer("l40", "NVIDIA L40", true, true),
        offer("4090", "NVIDIA GeForce RTX 4090", true, false),
    ];
    let mut gpu = GpuConfig { gpu_type: "NVIDIA A40".into(), count: 1, min_vram_gb: None, fallback: vec!["unknown".into(), "NVIDIA L40".into()] };
    assert_eq!(select_gpu_type(&gpu, true, CloudType::Community, &offers).as_deref(), Some("a40"));
    assert_eq!(select_gpu_type(&gpu, true, CloudType::Secure, &offers).as_deref(), Some("l40"));
    assert_eq!(select_gpu_type(&gpu, false, CloudType::Secure, &offers), None);
    gpu.gpu_type = "4090".into();
    assert_eq!(select_gpu_type(&gpu, false, CloudType::Secure, &offers).as_deref(), Some("4090"));
    assert_eq!(select_gpu_type(&gpu, true, CloudType::Community, &offers).as_deref(), Some("l40"));
}

#[test]
fn observed_from_tags_and_project_summary() {
    let tags = vec![
        ("halldyll_project".to_string(), "demo".to_string()),
        ("halldyll_env".to_string(), "dev".to_string()),
        ("halldyll_pod".to_string(), "web".to_string()),
        ("halldyll_spec_hash".to_string(), "abc".to_string()),
        ("team".to_string(), "ml".to_string()),
    ];
    let o = ObservedPod::from_provider("p-1".into(), "demo-dev-web".into(), PodStatus::Running, None, 1, "img".into(), vec![], tags);
    assert_eq!(o.project.as_deref(), Some("demo"));
    assert_eq!(o.environment.as_deref(), Some("dev"));
    assert_eq!(o.pod_name.as_deref(), Some("web"));
    assert_eq!(o.spec_hash.as_deref(), Some("abc"));
    assert!(o.belongs_to("demo", "dev"));
    assert!(!o.belongs_to("demo", "prod"));
    let bare = ObservedPod::from_provider("p-2".into(), "x".into(), PodStatus::Exited, None, 1, "img".into(), vec![], vec![]);
    assert!(bare.project.is_none() && !bare.is_managed());
    let mut starting = bare.clone();
    starting.status = PodStatus::Starting;
    let mut unknown = bare.clone();
    unknown.status = PodStatus::Unknown;
    let s = ProjectStatus::from_pods("demo", "dev", vec![o, bare, starting, unknown]);
    assert_eq!((s.total_pods, s.running, s.stopped, s.error, s.other), (4, 1, 1, 1, 1));
    assert!(!s.is_healthy());
    assert!(s.has_errors());
}
