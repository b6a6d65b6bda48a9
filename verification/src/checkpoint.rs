//! The slice of a checkpoint that the pipeline reads.
//!
//! Checkpoints arrive from an external delivery mechanism in strictly
//! increasing sequence order. The pipeline only reads the fields modelled
//! here: the sequence number, the checkpoint timestamp, and for each
//! transaction its digest and its optional ordered event list, where an event
//! carries a fully-qualified type tag and an opaque binary payload. The
//! surrounding program converts whatever form its checkpoint source delivers
//! into these plain values.

use vstd::prelude::*;

verus! {

/// A raw event emitted by a transaction.
pub struct Event {
    /// Fully-qualified type identifier: package, module and event name.
    pub type_tag: String,
    /// Opaque binary payload, decoded only when the type tag matches.
    pub contents: Vec<u8>,
}

/// One transaction of a checkpoint.
pub struct Transaction {
    /// Stable opaque identifier of the transaction.
    pub digest: String,
    /// The ordered events the transaction emitted, if any.
    pub events: Option<Vec<Event>>,
}

/// One ordered unit of input to the pipeline.
pub struct Checkpoint {
    pub sequence_number: u64,
    pub timestamp_ms: u64,
    pub transactions: Vec<Transaction>,
}

} // verus!
