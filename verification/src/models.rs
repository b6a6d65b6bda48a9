//! Persisted row shapes.
//!
//! A [`StoredDIDClaimedEvent`] is the durable form of a decoded event,
//! augmented with the provenance that anchors it to its origin: checkpoint
//! sequence number, transaction digest, position in the transaction's event
//! list, and the checkpoint timestamp. The pair
//! `(transaction_digest, event_index)` is the natural uniqueness key.

use vstd::prelude::*;

verus! {

/// Durable form of a decoded DID-claim event, with provenance.
pub struct StoredDIDClaimedEvent {
    pub registry_id: String,
    pub user_address: String,
    pub did_type: u8,
    pub user_did_id: String,
    pub nft_id: String,
    pub checkpoint_sequence_number: u64,
    pub transaction_digest: String,
    pub timestamp_ms: u64,
    pub event_index: u64,
}

/// The mathematical shape of a stored event row.
#[verifier::ext_equal]
pub ghost struct StoredDIDClaimedEventView {
    pub registry_id: Seq<char>,
    pub user_address: Seq<char>,
    pub did_type: u8,
    pub user_did_id: Seq<char>,
    pub nft_id: Seq<char>,
    pub checkpoint_sequence_number: u64,
    pub transaction_digest: Seq<char>,
    pub timestamp_ms: u64,
    pub event_index: u64,
}

impl View for StoredDIDClaimedEvent {
    type V = StoredDIDClaimedEventView;

    open spec fn view(&self) -> StoredDIDClaimedEventView {
        StoredDIDClaimedEventView {
            registry_id: self.registry_id@,
            user_address: self.user_address@,
            did_type: self.did_type,
            user_did_id: self.user_did_id@,
            nft_id: self.nft_id@,
            checkpoint_sequence_number: self.checkpoint_sequence_number,
            transaction_digest: self.transaction_digest@,
            timestamp_ms: self.timestamp_ms,
            event_index: self.event_index,
        }
    }
}

impl DeepView for StoredDIDClaimedEvent {
    type V = StoredDIDClaimedEventView;

    open spec fn deep_view(&self) -> StoredDIDClaimedEventView {
        self@
    }
}

impl Clone for StoredDIDClaimedEvent {
    fn clone(&self) -> (r: Self)
        ensures
            r == *self,
    {
        StoredDIDClaimedEvent {
            registry_id: self.registry_id.clone(),
            user_address: self.user_address.clone(),
            did_type: self.did_type,
            user_did_id: self.user_did_id.clone(),
            nft_id: self.nft_id.clone(),
            checkpoint_sequence_number: self.checkpoint_sequence_number,
            transaction_digest: self.transaction_digest.clone(),
            timestamp_ms: self.timestamp_ms,
            event_index: self.event_index,
        }
    }
}

/// Minimal per-transaction provenance kept in a second table.
pub struct StoredTransactionDigest {
    pub tx_digest: String,
    pub checkpoint_sequence_number: u64,
}

/// The mathematical shape of a stored transaction-digest row.
#[verifier::ext_equal]
pub ghost struct StoredTransactionDigestView {
    pub tx_digest: Seq<char>,
    pub checkpoint_sequence_number: u64,
}

impl View for StoredTransactionDigest {
    type V = StoredTransactionDigestView;

    open spec fn view(&self) -> StoredTransactionDigestView {
        StoredTransactionDigestView {
            tx_digest: self.tx_digest@,
            checkpoint_sequence_number: self.checkpoint_sequence_number,
        }
    }
}

impl DeepView for StoredTransactionDigest {
    type V = StoredTransactionDigestView;

    open spec fn deep_view(&self) -> StoredTransactionDigestView {
        self@
    }
}

impl Clone for StoredTransactionDigest {
    fn clone(&self) -> (r: Self)
        ensures
            r == *self,
    {
        StoredTransactionDigest {
            tx_digest: self.tx_digest.clone(),
            checkpoint_sequence_number: self.checkpoint_sequence_number,
        }
    }
}

} // verus!
