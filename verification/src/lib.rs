//! Core of a two-source market-data ingestion service: polling schedulers,
//! a broadcast hub with bounded per-subscriber queues, fixed-precision price
//! handling, wire-frame serialization, and the joined historical view.
pub mod decimal;
pub mod fetch;
pub mod frame;
pub mod hub;
pub mod observation;
pub mod query;
pub mod scheduler;
