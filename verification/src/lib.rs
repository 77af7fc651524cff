//! Decisions and data of a warm-pool orchestration sidecar.
pub mod clock;
pub mod config;
pub mod controller_flow;
pub mod docker;
pub mod json;
pub mod log_store;
pub mod mqtt;
pub mod orchestrator;
pub mod placement;
pub mod r2;
pub mod request_flow;
pub mod slot_store;
pub mod stop_flow;
pub mod text;
pub mod types;
