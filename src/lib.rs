//! A durable print-job queue: jobs move between the states `new`, `printing`
//! and `done`, can be requeued one at a time or by batch, and are fed both by
//! in-process callers and by a small HTTP ingestion endpoint.

pub mod text;
pub mod job;
pub mod queue;
pub mod clock;
pub mod service;
pub mod ingest;
pub mod location;
pub mod records;
pub mod barcode;
