//! Extraction and commit pipeline for DID-claim events read out of an ordered
//! stream of blockchain checkpoints.
//!
//! The pipeline scans each checkpoint's transactions for events carrying a
//! configured type signature, decodes their fixed-layout binary payload into a
//! typed record annotated with provenance, lands each batch idempotently in a
//! store keyed by `(transaction_digest, event_index)`, and serializes each
//! record for a best-effort broadcast whose transport — like the checkpoint
//! source and the database — is I/O owned by the surrounding process.

pub mod checkpoint;
pub mod codec;
pub mod config;
pub mod event_handlers;
pub mod events;
pub mod handlers;
pub mod hex;
pub mod models;
pub mod notify;
pub mod store;
