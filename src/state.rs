//! The deployment state record and its lock discipline.

pub mod lock;
pub mod types;

pub use lock::{LockInfo, LockSlot, StateLock, LOCK_EXPIRY_SECS};
pub use types::{
    DeploymentHistoryEntry, DeploymentOperation, DeploymentState, DeploymentStatus, PodState,
    VolumeState, MAX_HISTORY, STATE_VERSION,
};
