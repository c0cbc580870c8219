//! Scheduling, scaling and resuming of one download.

pub mod borrow_laws;
pub mod builders;
pub mod challenge;
pub mod coordinator;
pub mod coordinator_laws;
pub mod count_laws;
pub mod decision_laws;
pub mod h3_worker;
pub mod helpers;
pub mod index_state;
pub mod median;
pub mod memory_laws;
pub mod metrics;
pub mod origin_memory;
pub mod persistence;
pub mod plan_laws;
pub mod ranges;
pub mod response_laws;
pub mod runtime;
pub mod runtime_laws;
pub mod scaler;
pub mod scaler_laws;
pub mod scaling;
pub mod share_laws;
pub mod task;
pub mod transfer_laws;
pub mod transport;
pub mod types;
pub mod worker;
pub mod worker_laws;
