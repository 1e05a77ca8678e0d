//! Diffing the document against what is observed, and planning the actions
//! that close the gap.

pub mod diff;
pub mod executor;
pub mod laws;
pub mod plan;

pub use diff::{DiffDetail, DiffEngine, DiffResult, DiffType, ResourceDiff};
pub use executor::{
    ActionResult, ExecutionResult, ExecutionRun, PlanExecutor, ProvisionCall, ProvisionOutcome, Step,
};
pub use plan::{ActionType, DeploymentPlan, PlannedAction};
