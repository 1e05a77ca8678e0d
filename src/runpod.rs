//! What the library knows of the GPU-pod provider: request and response
//! shapes, observed pods, health and setup outcomes.

pub mod executor;
pub mod health;
pub mod observer;
pub mod provisioner;
pub mod types;

pub use executor::{CommandResult, EngineStartResult, ModelSetupResult, PostProvisionResult};
pub use health::{EndpointCheck, HealthStatus};
pub use provisioner::{
    build_create_request, build_env_vars, build_ports_string, build_tags, select_gpu_type,
};
pub use observer::{ObservedPod, ProjectStatus, TAG_ENV, TAG_POD, TAG_PROJECT, TAG_SPEC_HASH};
pub use types::{
    CreatePodRequest, GpuType, PodEndpoint, PodEnvVar, PodMachine, PodPort, PodStatus,
    UpdatePodRequest,
};
