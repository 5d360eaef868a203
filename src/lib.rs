//! Ranked "top" lists fed by a stream of domain events and rebuilt by a
//! periodic batch job: event envelopes, realtime reactions, batch
//! recomputation, and the paginated read path, each with its contract.

pub mod batch;
pub mod board;
pub mod config;
pub mod consumer;
pub mod decimal;
pub mod events;
pub mod json;
pub mod ranking;
pub mod reactions;
mod stamp;
pub mod tally;
