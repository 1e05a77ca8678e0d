use halldyll_deploy_pods::config::{
    is_valid_name, CloudType, ComputeType, ConfigHasher, ConfigValidator, DeployConfig, GpuConfig,
    GuardrailsConfig, PodConfig, PortConfig, PortProtocol, ProjectConfig, RuntimeConfig,
    StateBackend, StateConfig, VolumeConfig,
};
use halldyll_deploy_pods::config::spec::protocol_from_lowercase;
use halldyll_deploy_pods::error::ConfigError;

fn create_test_pod(name: &str) -> PodConfig {
    PodConfig {
        name: name.to_string(),
        gpu: GpuConfig {
            gpu_type: String::from("NVIDIA A40"),
            count: 1,
            min_vram_gb: None,
            fallback: vec![],
        },
        ports: vec![],
        volumes: vec![],
        runtime: RuntimeConfig {
            image: String::from("test:latest"),
            env: vec![],
            command: None,
            args: None,
        },
        models: vec![],
        health_check: None,
        tags: vec![],
    }
}

fn project(name: &str) -> ProjectConfig {
    ProjectConfig {
        name: name.to_string(),
        environment: String::from("dev"),
        region: None,
        cloud_type: CloudType::Secure,
        compute_type: ComputeType::Gpu,
    }
}

fn config_with(pods: Vec<PodConfig>, guardrails: Option<GuardrailsConfig>) -> DeployConfig {
    DeployConfig {
        project: project("demo"),
        state: StateConfig { backend: StateBackend::Local, bucket: None, prefix: None, region: None, path: None },
        pods,
        guardrails,
    }
}

#[test]
fn test_pod_hash_deterministic() {
    let hasher = ConfigHasher::new();
    let pod = create_test_pod("test-pod");
    let hash1 = hasher.hash_pod(&pod);
    let hash2 = hasher.hash_pod(&pod);
    assert_eq!(hash1, hash2);
}

#[test]
fn test_different_pods_different_hash() {
    let hasher = ConfigHasher::new();
    let pod1 = create_test_pod("pod-1");
    let pod2 = create_test_pod("pod-2");
    assert_ne!(hasher.hash_pod(&pod1), hasher.hash_pod(&pod2));
}

#[test]
fn test_short_hash() {
    let hasher = ConfigHasher::new();
    let full_hash = "abcdef1234567890abcdef1234567890";
    let short = hasher.short_hash(full_hash);
    assert_eq!(short, "abcdef12");
    assert_eq!(short.len(), 8);
}

#[test]
fn test_hashes_match() {
    assert!(ConfigHasher::hashes_match("abc123", "abc123"));
    assert!(!ConfigHasher::hashes_match("abc123", "abc124"));
    assert!(!ConfigHasher::hashes_match("abc123", "abc12"));
}

#[test]
fn test_port_config_parse() {
    let port = PortConfig::parse("8000/http");
    assert!(port.is_ok());
    let port = port.unwrap();
    assert_eq!(port.port, 8000);
    assert_eq!(port.protocol, PortProtocol::Http);
}

#[test]
fn test_port_config_parse_tcp() {
    let port = PortConfig::parse("22/tcp");
    assert!(port.is_ok());
    let port = port.unwrap();
    assert_eq!(port.port, 22);
    assert_eq!(port.protocol, PortProtocol::Tcp);
}

#[test]
fn test_port_config_invalid() {
    let port = PortConfig::parse("invalid");
    assert!(port.is_err());
}

#[test]
fn port_parse_edge_cases() {
    assert_eq!(PortConfig::parse("443/HTTPS").unwrap().protocol, PortProtocol::Https);
    assert_eq!(PortConfig::parse("+53/udp").unwrap().port, 53);
    assert_eq!(PortConfig::parse("65535/tcp").unwrap().port, 65535);
    assert!(PortConfig::parse("65536/tcp").is_err());
    assert!(PortConfig::parse("/tcp").is_err());
    assert!(PortConfig::parse("80/ftp").is_err());
    assert!(PortConfig::parse("80/tcp/x").is_err());
    assert!(PortConfig::parse("8a/tcp").is_err());
    assert_eq!(protocol_from_lowercase("https"), Some(PortProtocol::Https));
    assert_eq!(protocol_from_lowercase("HTTPS"), None);
}

#[test]
fn port_to_string() {
    assert_eq!(PortConfig::new(8000, PortProtocol::Http).to_port_string(), "8000/http");
    assert_eq!(PortConfig::new(22, PortProtocol::Tcp).to_port_string(), "22/tcp");
}

#[test]
fn test_valid_name() {
    assert!(is_valid_name("pod-text"));
    assert!(is_valid_name("my-pod-123"));
    assert!(is_valid_name("a"));
    assert!(is_valid_name("test"));
}

#[test]
fn test_invalid_name() {
    assert!(!is_valid_name(""));
    assert!(!is_valid_name("Pod-Text"));
    assert!(!is_valid_name("123-pod"));
    assert!(!is_valid_name("pod_text"));
    assert!(!is_valid_name("pod-"));
    assert!(!is_valid_name("pod--text"));
}

#[test]
fn naming_rule_examples() {
    for bad in ["", "Pod", "1pod", "pod_", "pod-", "pod--x"] {
        assert!(!is_valid_name(bad), "{bad}");
    }
    for good in ["pod", "pod-1", "a1-b2-c3"] {
        assert!(is_valid_name(good), "{good}");
    }
}

#[test]
fn env_and_tag_order_does_not_change_pod_hash() {
    let hasher = ConfigHasher::new();
    let mut a = create_test_pod("web");
    a.runtime.env = vec![("A".into(), "1".into()), ("B".into(), "2".into())];
    a.tags = vec![("x".into(), "1".into()), ("y".into(), "2".into())];
    a.volumes = vec![
        VolumeConfig { name: "data".into(), mount: "/data".into(), persistent: true, size_gb: Some(10) },
        VolumeConfig { name: "cache".into(), mount: "/cache".into(), persistent: false, size_gb: None },
    ];
    a.ports = vec![PortConfig::new(8000, PortProtocol::Http), PortConfig::new(22, PortProtocol::Tcp)];
    let mut b = a.clone();
    b.runtime.env.reverse();
    b.tags.reverse();
    b.volumes.reverse();
    b.ports.reverse();
    assert_eq!(hasher.hash_pod(&a), hasher.hash_pod(&b));
}

#[test]
fn pod_order_changes_document_hash() {
    let hasher = ConfigHasher::new();
    let c1 = config_with(vec![create_test_pod("a"), create_test_pod("b")], None);
    let c2 = config_with(vec![create_test_pod("b"), create_test_pod("a")], None);
    assert_ne!(hasher.hash_config(&c1), hasher.hash_config(&c2));
    assert_eq!(hasher.hash_config(&c1), hasher.hash_config(&c1.clone()));
}

#[test]
fn hashed_fields_change_pod_hash() {
    let hasher = ConfigHasher::new();
    let base = create_test_pod("web");
    let h = hasher.hash_pod(&base);
    let mut p = base.clone();
    p.gpu.count = 2;
    assert_ne!(hasher.hash_pod(&p), h);
    let mut p = base.clone();
    p.runtime.image = "svc:1.1".into();
    assert_ne!(hasher.hash_pod(&p), h);
    let mut p = base.clone();
    p.gpu.gpu_type = "NVIDIA L4".into();
    assert_ne!(hasher.hash_pod(&p), h);
    let mut p = base.clone();
    p.ports.push(PortConfig::new(8000, PortProtocol::Http));
    assert_ne!(hasher.hash_pod(&p), h);
    let mut p = base.clone();
    p.tags.push(("team".into(), "ml".into()));
    assert_ne!(hasher.hash_pod(&p), h);
}

#[test]
fn pod_hash_is_lowercase_hex_digest() {
    let h = ConfigHasher::new().hash_pod(&create_test_pod("web"));
    assert_eq!(h.len(), 64);
    assert!(h.chars().all(|c| c.is_ascii_digit() || ('a'..='f').contains(&c)));
    let bytes = ConfigHasher::pod_hash_bytes(&create_test_pod("web"));
    assert!(bytes.starts_with(b"webNVIDIA A40\x00\x00\x00\x01"));
}

#[test]
fn validator_accepts_and_rejects() {
    let v = ConfigValidator::new();
    let ok = config_with(vec![create_test_pod("web")], None);
    let r = v.validate(&ok).unwrap();
    assert!(r.is_valid());
    assert!(r.warning_count() >= 1);

    let dup = config_with(vec![create_test_pod("web"), create_test_pod("web")], None);
    assert!(v.validate(&dup).is_err());

    let mut bad_mount = create_test_pod("web");
    bad_mount.volumes.push(VolumeConfig { name: "d".into(), mount: "data".into(), persistent: true, size_gb: None });
    assert!(v.validate(&config_with(vec![bad_mount], None)).is_err());

    let g = GuardrailsConfig { max_hourly_cost_bits: None, max_gpus: Some(0), ttl_hours: None, allow_gpu_fallback: false };
    assert!(v.validate(&config_with(vec![create_test_pod("web")], Some(g))).is_err());

    let g = GuardrailsConfig { max_hourly_cost_bits: Some(0.0f64.to_bits()), max_gpus: None, ttl_hours: None, allow_gpu_fallback: false };
    assert!(v.validate(&config_with(vec![create_test_pod("web")], Some(g))).is_err());
    let g = GuardrailsConfig { max_hourly_cost_bits: Some(2.5f64.to_bits()), max_gpus: None, ttl_hours: Some(0), allow_gpu_fallback: false };
    assert!(v.validate(&config_with(vec![create_test_pod("web")], Some(g))).is_err());
    let g = GuardrailsConfig { max_hourly_cost_bits: Some(2.5f64.to_bits()), max_gpus: Some(1), ttl_hours: Some(1), allow_gpu_fallback: true };
    assert!(v.validate(&config_with(vec![create_test_pod("web")], Some(g))).is_ok());
}

#[test]
fn document_helpers() {
    let c = config_with(vec![create_test_pod("a"), create_test_pod("b")], None);
    assert_eq!(c.qualified_name(), "demo-dev");
    assert_eq!(c.total_gpus(), 2);
    assert_eq!(c.pod_names(), vec!["a".to_string(), "b".to_string()]);
    assert_eq!(c.pods[0].full_name(&c.project), "demo-dev-a");
    let mut p = create_test_pod("a");
    p.ports = vec![
        PortConfig::new(8000, PortProtocol::Http),
        PortConfig::new(22, PortProtocol::Tcp),
        PortConfig::new(443, PortProtocol::Https),
    ];
    assert_eq!(p.http_ports(), vec![8000, 443]);
}

fn plain_pod(gpus: u32) -> PodConfig {
    let mut p = create_test_pod("web");
    p.gpu.gpu_type = "A40".into();
    p.gpu.count = gpus;
    p.runtime.image = "svc:1.0".into();
    p
}

#[test]
fn pod_digest_known_answer() {
    let hasher = ConfigHasher::new();
    assert_eq!(
        hasher.hash_pod(&plain_pod(1)),
        "7b2f25cdee91345c7fbc2989f8b02b52ef6bd21f7e5472aeb39bceb6449f62f2"
    );
    let mut p = plain_pod(2);
    p.runtime.env = vec![("B".into(), "2".into()), ("A".into(), "1".into())];
    p.ports = vec![PortConfig::new(8000, PortProtocol::Http), PortConfig::new(22, PortProtocol::Tcp)];
    p.volumes = vec![VolumeConfig { name: "data".into(), mount: "/data".into(), persistent: true, size_gb: Some(10) }];
    assert_eq!(hasher.hash_pod(&p), "52dbc07f2d4b0608bc1d86adb8dc6658c7ffbf22aa69227e3de597d6cc30ca96");
}

#[test]
fn document_digest_known_answer() {
    let g = GuardrailsConfig { max_hourly_cost_bits: None, max_gpus: Some(3), ttl_hours: None, allow_gpu_fallback: false };
    let c = config_with(vec![plain_pod(1)], Some(g));
    assert_eq!(
        ConfigHasher::new().hash_config(&c),
        "83a8f9aa70b9bad6cbbfd859062e60d6dd5f83854f589cb941f112cd1d6b9e1d"
    );
}

#[test]
fn validation_error_names_the_field() {
    let mut p = create_test_pod("web");
    p.ports = vec![PortConfig::new(8000, PortProtocol::Http), PortConfig::new(8000, PortProtocol::Tcp)];
    match ConfigValidator::new().validate(&config_with(vec![p], None)) {
        Err(ConfigError::ValidationError { field, message }) => {
            assert_eq!(field.as_deref(), Some("pods[0].ports[1]"));
            assert_eq!(message, "Duplicate port 8000 in pod");
        }
        other => panic!("expected a validation error, got {other:?}"),
    }
}
