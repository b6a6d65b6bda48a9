use suiverify_indexer::checkpoint::Checkpoint;
use suiverify_indexer::checkpoint::Event;
use suiverify_indexer::checkpoint::Transaction;
use suiverify_indexer::config::LogConfig;
use suiverify_indexer::event_handlers::DIDClaimedEventHandler;
use suiverify_indexer::models::StoredDIDClaimedEvent;
use suiverify_indexer::store::EventStore;

const SIG: &str = "0xabc::did_registry::DIDClaimed";

fn handler() -> DIDClaimedEventHandler {
    let cfg = LogConfig {
        enable_detailed_logs: false,
        log_level: String::from("info"),
        log_events: false,
    };
    DIDClaimedEventHandler::new_with_event_type(cfg, String::from(SIG))
}

fn record(digest: &str, event_index: u64) -> StoredDIDClaimedEvent {
    StoredDIDClaimedEvent {
        registry_id: String::from("0x01"),
        user_address: String::from("0x02"),
        did_type: 1,
        user_did_id: String::from("0x03"),
        nft_id: String::from("0x04"),
        checkpoint_sequence_number: 10,
        transaction_digest: String::from(digest),
        timestamp_ms: 1000,
        event_index,
    }
}

fn payload() -> Vec<u8> {
    let mut p = Vec::new();
    p.extend(std::iter::repeat(0x11u8).take(32));
    p.extend(std::iter::repeat(0xaau8).take(32));
    p.push(1u8);
    p.extend(std::iter::repeat(0x22u8).take(32));
    p.extend(std::iter::repeat(0x33u8).take(32));
    p
}

#[test]
fn commit_twice_inserts_then_skips() {
    let h = handler();
    let mut store = EventStore::new();
    let batch = vec![record("t1", 0), record("t1", 1), record("t2", 0)];
    let first = h.commit(&batch, &mut store);
    assert_eq!(first, 3);
    assert_eq!(store.records().len(), 3);
    let second = h.commit(&batch, &mut store);
    assert_eq!(second, 0);
    assert_eq!(store.records().len(), 3);
    for (i, row) in store.records().iter().enumerate() {
        assert_eq!(row.transaction_digest, batch[i].transaction_digest);
        assert_eq!(row.event_index, batch[i].event_index);
    }
}

#[test]
fn commit_empty_batch_is_a_noop() {
    let h = handler();
    let mut store = EventStore::new();
    assert_eq!(h.commit(&Vec::new(), &mut store), 0);
    assert_eq!(store.records().len(), 0);
    assert_eq!(h.commit(&vec![record("t1", 0)], &mut store), 1);
    assert_eq!(h.commit(&Vec::new(), &mut store), 0);
    assert_eq!(store.records().len(), 1);
}

#[test]
fn commit_skips_duplicate_keys_within_one_batch() {
    let h = handler();
    let mut store = EventStore::new();
    let batch = vec![record("t1", 0), record("t1", 0), record("t1", 1)];
    assert_eq!(h.commit(&batch, &mut store), 2);
    assert_eq!(store.records().len(), 2);
}

#[test]
fn commit_counts_only_rows_new_to_the_store() {
    let h = handler();
    let mut store = EventStore::new();
    assert_eq!(h.commit(&vec![record("t1", 0), record("t1", 1)], &mut store), 2);
    // An overlapping redelivery: one old row, one new row.
    assert_eq!(h.commit(&vec![record("t1", 1), record("t2", 0)], &mut store), 1);
    assert_eq!(store.records().len(), 3);
}

#[test]
fn same_index_in_different_transactions_is_not_a_duplicate() {
    let h = handler();
    let mut store = EventStore::new();
    let batch = vec![record("t1", 0), record("t2", 0)];
    assert_eq!(h.commit(&batch, &mut store), 2);
}

#[test]
fn commit_does_not_depend_on_any_notification_transport() {
    // The commit path takes only the batch and the store: no broadcast
    // transport is configured anywhere, yet the count and the stored rows
    // are exactly right.
    let h = handler();
    let mut store = EventStore::new();
    let batch = vec![record("t1", 0), record("t1", 1)];
    assert_eq!(h.commit(&batch, &mut store), 2);
    assert_eq!(store.records().len(), 2);
    assert_eq!(h.commit(&batch, &mut store), 0);
    assert_eq!(store.records().len(), 2);
}

#[test]
fn extract_then_commit_scenario() {
    let h = handler();
    let cp = Checkpoint {
        sequence_number: 42,
        timestamp_ms: 1234,
        transactions: vec![Transaction {
            digest: String::from("abc123digesttttttttttttttttttttttttttttttttt"),
            events: Some(vec![Event { type_tag: String::from(SIG), contents: payload() }]),
        }],
    };
    let records = h.process(&cp);
    assert_eq!(records.len(), 1);
    assert_eq!(records[0].checkpoint_sequence_number, 42);
    assert_eq!(records[0].event_index, 0);
    let mut store = EventStore::new();
    assert_eq!(h.commit(&records, &mut store), 1);
    // Redelivery of the same checkpoint: extraction is pure, commit is
    // idempotent, so nothing lands twice.
    let replay = h.process(&cp);
    assert_eq!(h.commit(&replay, &mut store), 0);
    assert_eq!(store.records().len(), 1);
}
