//! Per-transaction provenance handler.
//!
//! Records, for every transaction of a checkpoint, its digest and the
//! checkpoint sequence number. The rows land idempotently in a table keyed
//! by the digest alone.

use vstd::prelude::*;

use crate::checkpoint::Checkpoint;
use crate::checkpoint::Transaction;
use crate::models::StoredTransactionDigest;
use crate::models::StoredTransactionDigestView;
use crate::store::digest_commit_spec;
use crate::store::digest_inserted_count;
use crate::store::DigestStore;

verus! {

/// The provenance row one transaction contributes.
pub open spec fn digest_record_of(seq_no: u64, tx: Transaction) -> StoredTransactionDigestView {
    StoredTransactionDigestView { tx_digest: tx.digest@, checkpoint_sequence_number: seq_no }
}

/// One row per transaction, in transaction order.
pub open spec fn digests_spec(cp: Checkpoint) -> Seq<StoredTransactionDigestView> {
    cp.transactions@.map_values(|tx: Transaction| digest_record_of(cp.sequence_number, tx))
}

/// Sequential pipeline handler that indexes transaction digests.
pub struct TransactionDigestHandler;

impl TransactionDigestHandler {
    /// One row per transaction of the checkpoint, in order, each carrying
    /// the transaction's digest and the checkpoint's sequence number.
    pub fn process(&self, checkpoint: &Checkpoint) -> (r: Vec<StoredTransactionDigest>)
        ensures
            r.deep_view() == digests_spec(*checkpoint),
    {
        let mut r: Vec<StoredTransactionDigest> = Vec::new();
        let mut t: usize = 0;
        while t < checkpoint.transactions.len()
            invariant
                t <= checkpoint.transactions@.len(),
                r@.len() == t,
                forall|j: int|
                    0 <= j < t ==> #[trigger] r.deep_view()[j] == digest_record_of(
                        checkpoint.sequence_number,
                        checkpoint.transactions@[j],
                    ),
            decreases checkpoint.transactions@.len() - t,
        {
            let ghost prev = r.deep_view();
            let row = StoredTransactionDigest {
                tx_digest: checkpoint.transactions[t].digest.clone(),
                checkpoint_sequence_number: checkpoint.sequence_number,
            };
            proof {
                assert(row@ == digest_record_of(
                    checkpoint.sequence_number,
                    checkpoint.transactions@[t as int],
                ));
            }
            r.push(row);
            proof {
                assert(r.deep_view() =~= prev.push(row@));
            }
            t = t + 1;
        }
        proof {
            assert(r.deep_view() =~= digests_spec(*checkpoint));
        }
        r
    }

    /// Appends freshly extracted values to the pending batch, keeping order.
    pub fn batch(
        &self,
        batch: &mut Vec<StoredTransactionDigest>,
        values: Vec<StoredTransactionDigest>,
    )
        ensures
            final(batch)@ == old(batch)@ + values@,
    {
        let mut i: usize = 0;
        proof {
            assert(batch@ =~= old(batch)@ + values@.take(0));
        }
        while i < values.len()
            invariant
                i <= values@.len(),
                batch@ == old(batch)@ + values@.take(i as int),
            decreases values@.len() - i,
        {
            batch.push(values[i].clone());
            proof {
                assert(old(batch)@ + values@.take(i + 1) =~= (old(batch)@ + values@.take(
                    i as int,
                )).push(values@[i as int]));
            }
            i = i + 1;
        }
        proof {
            assert(values@.take(values@.len() as int) =~= values@);
        }
    }

    /// Lands a batch in the digest table, skipping rows whose digest is
    /// already present, and returns the count of genuinely new rows.
    pub fn commit(
        &self,
        batch: &Vec<StoredTransactionDigest>,
        store: &mut DigestStore,
    ) -> (n: usize)
        requires
            old(store).inv(),
        ensures
            final(store).inv(),
            final(store)@ == digest_commit_spec(old(store)@, batch.deep_view()),
            n == digest_inserted_count(old(store)@, batch.deep_view()),
    {
        store.commit(batch)
    }
}

} // verus!
