//! A minimal workload orchestrator core: label and secret resolution,
//! ownership-label discovery, per-deployment reconciliation decisions and a
//! scheduler cycle that keeps deployments isolated from each other's failures.
pub mod api;
pub mod deployment;
pub mod ingest;
pub mod labels;
pub mod secrets;
pub mod runtime;
pub mod reconciler;
pub mod scheduler;
