use suiverify_indexer::checkpoint::Checkpoint;
use suiverify_indexer::checkpoint::Transaction;
use suiverify_indexer::handlers::TransactionDigestHandler;
use suiverify_indexer::models::StoredTransactionDigest;
use suiverify_indexer::store::DigestStore;

fn checkpoint() -> Checkpoint {
    Checkpoint {
        sequence_number: 77,
        timestamp_ms: 5,
        transactions: vec![
            Transaction { digest: String::from("d1"), events: None },
            Transaction { digest: String::from("d2"), events: None },
        ],
    }
}

#[test]
fn process_yields_one_row_per_transaction_in_order() {
    let rows = TransactionDigestHandler.process(&checkpoint());
    assert_eq!(rows.len(), 2);
    assert_eq!(rows[0].tx_digest, "d1");
    assert_eq!(rows[1].tx_digest, "d2");
    assert_eq!(rows[0].checkpoint_sequence_number, 77);
    assert_eq!(rows[1].checkpoint_sequence_number, 77);
}

#[test]
fn digest_commit_is_idempotent() {
    let h = TransactionDigestHandler;
    let rows = h.process(&checkpoint());
    let mut store = DigestStore::new();
    assert_eq!(h.commit(&rows, &mut store), 2);
    assert_eq!(h.commit(&rows, &mut store), 0);
    assert_eq!(store.records().len(), 2);
}

#[test]
fn digest_commit_keys_on_digest_alone() {
    let h = TransactionDigestHandler;
    let mut store = DigestStore::new();
    let batch = vec![
        StoredTransactionDigest { tx_digest: String::from("d1"), checkpoint_sequence_number: 1 },
        StoredTransactionDigest { tx_digest: String::from("d1"), checkpoint_sequence_number: 2 },
    ];
    // Same digest from a later checkpoint is skipped, not overwritten.
    assert_eq!(h.commit(&batch, &mut store), 1);
    assert_eq!(store.records().len(), 1);
    assert_eq!(store.records()[0].checkpoint_sequence_number, 1);
}

#[test]
fn digest_batch_appends_in_order() {
    let h = TransactionDigestHandler;
    let mut pending = Vec::new();
    h.batch(&mut pending, h.process(&checkpoint()));
    h.batch(&mut pending, h.process(&checkpoint()));
    assert_eq!(pending.len(), 4);
    assert_eq!(pending[2].tx_digest, "d1");
}
