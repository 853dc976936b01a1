//! Beacon telemetry pipeline: scan batches, calibration records received
//! over a message channel, and the join of the two into log rows.

pub mod ingest;
pub mod laws;
pub mod model;
pub mod scan;
pub mod store;
