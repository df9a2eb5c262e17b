//! Bulk URL health checking: URL normalization and validation, probe-outcome
//! construction, and the shared aggregate statistics that a batch of probes
//! updates as each probe completes.

pub mod app_state;
pub mod csv_processor;
pub mod limiter;
