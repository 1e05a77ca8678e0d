//! The deployment document: its model, content hasher and validator.

pub mod hash;
pub mod spec;
pub mod validator;

pub use hash::ConfigHasher;
pub use spec::{
    CloudType, ComputeType, DeployConfig, GpuConfig, GuardrailsConfig, HealthCheckConfig,
    LoadConfig, ModelConfig, ModelProvider, PodConfig, PortConfig, PortProtocol, ProjectConfig,
    RuntimeConfig, StateBackend, StateConfig, VolumeConfig,
};
pub use validator::{is_valid_name, ConfigValidator, ValidationError, ValidationResult};
