//! Declarative deployment manager for GPU pods.
//!
//! The library holds the reconciliation engine: the configuration model and
//! its content hasher, the validator, the diff engine, the planner with its
//! guardrails, the plan executor's decision machine, the deployment state
//! record and the state lock discipline.

pub mod bytes;
pub mod config;
pub mod digest;
pub mod error;
pub mod planner;
pub mod reconciler;
pub mod runpod;
pub mod state;
