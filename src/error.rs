//! The closed set of error kinds.

use vstd::prelude::*;

verus! {

/// Any error of the deployment system.
#[derive(Debug)]
pub enum HalldyllError {
    /// A configuration error.
    Config(ConfigError),
    /// A state store error.
    State(StateError),
    /// A provider error.
    RunPod(RunPodError),
    /// A planning error.
    Plan(PlanError),
    /// A reconciliation error.
    Reconcile(ReconcileError),
    /// An I/O error.
    Io {
        /// What went wrong.
        message: String,
    },
    /// An internal error.
    Internal(String),
}

/// Configuration errors.
#[derive(Debug)]
pub enum ConfigError {
    /// The file was not found.
    FileNotFound {
        /// Path of the file.
        path: String,
    },
    /// The file could not be parsed.
    ParseError {
        /// What went wrong.
        message: String,
        /// Where, if known.
        location: Option<String>,
    },
    /// A rule of the document was broken.
    ValidationError {
        /// What is wrong.
        message: String,
        /// Path of the field at fault.
        field: Option<String>,
    },
    /// An environment variable is missing.
    MissingEnvVar {
        /// Its name.
        name: String,
    },
    /// A name is used twice.
    DuplicateName {
        /// Kind of resource.
        resource_type: String,
        /// The name.
        name: String,
    },
    /// A GPU type is not valid.
    InvalidGpuType {
        /// The type.
        gpu_type: String,
    },
    /// A port is not valid.
    InvalidPort {
        /// The port text.
        spec: String,
    },
    /// Resources depend on each other in a cycle.
    CircularDependency {
        /// The cycle.
        cycle: String,
    },
}

/// State store errors.
#[derive(Debug)]
pub enum StateError {
    /// No state was found.
    NotFound {
        /// Where it was looked for.
        path: String,
    },
    /// The state or lock could not be parsed.
    Corrupted {
        /// What went wrong.
        message: String,
    },
    /// The lock could not be taken or written.
    LockFailed {
        /// What went wrong.
        message: String,
    },
    /// Another holder has the lock.
    LockedByOther {
        /// Who holds it.
        holder: String,
        /// Since when, in seconds since the Unix epoch.
        since: i64,
    },
    /// The object store failed.
    S3Error {
        /// What went wrong.
        message: String,
    },
    /// The state could not be serialized.
    SerializationError {
        /// What went wrong.
        message: String,
    },
    /// The state has another format version.
    VersionMismatch {
        /// Version expected.
        expected: String,
        /// Version found.
        found: String,
    },
}

/// Provider errors.
#[derive(Debug)]
pub enum RunPodError {
    /// The credentials were refused.
    AuthenticationFailed {
        /// What went wrong.
        message: String,
    },
    /// A request failed.
    ApiRequestFailed {
        /// HTTP status.
        status: u16,
        /// Message from the provider.
        message: String,
    },
    /// Too many requests.
    RateLimited {
        /// Seconds to wait.
        retry_after_secs: u64,
    },
    /// No such pod.
    PodNotFound {
        /// Its identifier.
        pod_id: String,
    },
    /// The GPU type is not available.
    GpuNotAvailable {
        /// The type.
        gpu_type: String,
        /// Where.
        region: String,
    },
    /// Quota exhausted.
    InsufficientQuota {
        /// What went wrong.
        message: String,
    },
    /// The network failed.
    NetworkError {
        /// What went wrong.
        message: String,
    },
    /// The provider's answer could not be read.
    InvalidResponse {
        /// What went wrong.
        message: String,
    },
    /// A pod did not reach a state in time.
    Timeout {
        /// The pod.
        pod_id: String,
        /// The state awaited.
        expected_state: String,
    },
}

/// Planning errors.
#[derive(Debug)]
pub enum PlanError {
    /// Nothing to do.
    EmptyPlan,
    /// The plan would cost too much; amounts in cents per hour.
    BudgetExceeded {
        /// Estimated cost.
        estimated_cents: u64,
        /// Limit.
        limit_cents: u64,
    },
    /// The plan would use too many GPUs.
    GpuQuotaExceeded {
        /// GPUs needed.
        needed: u32,
        /// GPUs allowed.
        available: u32,
    },
    /// Operations of the plan conflict.
    ConflictingOperations {
        /// What conflicts.
        message: String,
    },
    /// Dependencies could not be ordered.
    DependencyResolutionFailed {
        /// What went wrong.
        message: String,
    },
}

/// Reconciliation errors.
#[derive(Debug)]
pub enum ReconcileError {
    /// One resource could not be reconciled.
    ResourceReconcileFailed {
        /// Kind of resource.
        resource_type: String,
        /// Its name.
        name: String,
        /// Why.
        reason: String,
    },
    /// All attempts failed.
    MaxRetriesExceeded {
        /// Attempts made.
        attempts: u32,
        /// The resource.
        resource: String,
    },
    /// Drift was found and is not to be repaired.
    DriftDetected {
        /// The resource.
        resource: String,
        /// What drifted.
        drift_description: String,
    },
    /// The run was stopped.
    Aborted {
        /// Why.
        reason: String,
    },
}

impl HalldyllError {
    /// An internal error.
    pub fn internal(message: String) -> (r: Self)
        ensures
            r == HalldyllError::Internal(message),
    {
        HalldyllError::Internal(message)
    }

    /// Whether trying again may help: rate limits, network errors and lock
    /// failures.
    pub fn is_retryable(&self) -> (r: bool)
        ensures
            r == (self matches HalldyllError::RunPod(RunPodError::RateLimited { .. })
                || self matches HalldyllError::RunPod(RunPodError::NetworkError { .. })
                || self matches HalldyllError::State(StateError::LockFailed { .. })),
    {
        match self {
            HalldyllError::RunPod(RunPodError::RateLimited { .. }) => true,
            HalldyllError::RunPod(RunPodError::NetworkError { .. }) => true,
            HalldyllError::State(StateError::LockFailed { .. }) => true,
            _ => false,
        }
    }

    /// Seconds to wait before trying again: what a rate limit asks, 5 after
    /// a network error, 2 after a lock failure, none otherwise.
    pub fn retry_delay_secs(&self) -> (r: Option<u64>)
        ensures
            r == match self {
                HalldyllError::RunPod(RunPodError::RateLimited { retry_after_secs }) => Some(*retry_after_secs),
                HalldyllError::RunPod(RunPodError::NetworkError { .. }) => Some(5u64),
                HalldyllError::State(StateError::LockFailed { .. }) => Some(2u64),
                _ => None,
            },
    {
        match self {
            HalldyllError::RunPod(RunPodError::RateLimited { retry_after_secs }) => Some(*retry_after_secs),
            HalldyllError::RunPod(RunPodError::NetworkError { .. }) => Some(5),
            HalldyllError::State(StateError::LockFailed { .. }) => Some(2),
            _ => None,
        }
    }
}

impl ConfigError {
    /// A validation error about a field.
    pub fn validation(message: String, field: String) -> (r: Self)
        ensures
            r == (ConfigError::ValidationError { message, field: Some(field) }),
    {
        ConfigError::ValidationError { message, field: Some(field) }
    }

    /// A validation error about no field in particular.
    pub fn validation_general(message: String) -> (r: Self)
        ensures
            r == (ConfigError::ValidationError { message, field: None }),
    {
        ConfigError::ValidationError { message, field: None }
    }
}

impl StateError {
    /// An object-store error.
    pub fn s3(message: String) -> (r: Self)
        ensures
            r == (StateError::S3Error { message }),
    {
        StateError::S3Error { message }
    }

    /// A serialization error.
    pub fn serialization(message: String) -> (r: Self)
        ensures
            r == (StateError::SerializationError { message }),
    {
        StateError::SerializationError { message }
    }
}

impl RunPodError {
    /// A failed request.
    pub fn api_error(status: u16, message: String) -> (r: Self)
        ensures
            r == (RunPodError::ApiRequestFailed { status, message }),
    {
        RunPodError::ApiRequestFailed { status, message }
    }

    /// A network error.
    pub fn network(message: String) -> (r: Self)
        ensures
            r == (RunPodError::NetworkError { message }),
    {
        RunPodError::NetworkError { message }
    }
}

} // verus!
