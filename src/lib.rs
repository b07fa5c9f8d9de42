//! Ingestion core of a local image archive: calendar model, timestamp
//! resolution, the batching actor and the record store.
pub mod channel;
pub mod conf;
pub mod datetime;
pub mod hash;
pub mod img;
pub mod sched;
pub mod store;
pub mod text;
pub mod walker;
