use suiverify_indexer::checkpoint::Checkpoint;
use suiverify_indexer::checkpoint::Event;
use suiverify_indexer::checkpoint::Transaction;
use suiverify_indexer::config::LogConfig;
use suiverify_indexer::event_handlers::DIDClaimedEventHandler;

const SIG: &str = "0xabc::did_registry::DIDClaimed";

fn quiet_config() -> LogConfig {
    LogConfig {
        enable_detailed_logs: false,
        log_level: String::from("info"),
        log_events: false,
    }
}

fn handler() -> DIDClaimedEventHandler {
    DIDClaimedEventHandler::new_with_event_type(quiet_config(), String::from(SIG))
}

fn payload(registry: u8, addr: u8, did_type: u8, did: u8, nft: u8) -> Vec<u8> {
    let mut p = Vec::new();
    p.extend(std::iter::repeat(registry).take(32));
    p.extend(std::iter::repeat(addr).take(32));
    p.push(did_type);
    p.extend(std::iter::repeat(did).take(32));
    p.extend(std::iter::repeat(nft).take(32));
    p
}

fn matching_event(registry: u8) -> Event {
    Event {
        type_tag: String::from(SIG),
        contents: payload(registry, 0xaa, 1, 0x22, 0x33),
    }
}

fn hex_id(byte: u8) -> String {
    let mut s = String::from("0x");
    for _ in 0..32 {
        s.push_str(&format!("{:02x}", byte));
    }
    s
}

#[test]
fn empty_checkpoint_yields_nothing() {
    let cp = Checkpoint { sequence_number: 7, timestamp_ms: 1, transactions: Vec::new() };
    assert!(handler().process(&cp).is_empty());
}

#[test]
fn transaction_without_event_list_yields_nothing() {
    let cp = Checkpoint {
        sequence_number: 7,
        timestamp_ms: 1,
        transactions: vec![Transaction { digest: String::from("d1"), events: None }],
    };
    assert!(handler().process(&cp).is_empty());
}

#[test]
fn empty_event_list_yields_nothing() {
    let cp = Checkpoint {
        sequence_number: 7,
        timestamp_ms: 1,
        transactions: vec![Transaction { digest: String::from("d1"), events: Some(Vec::new()) }],
    };
    assert!(handler().process(&cp).is_empty());
}

#[test]
fn signature_match_is_exact_not_prefix() {
    let near_misses = vec![
        String::from("0xabc::did_registry::DIDClaime"),
        String::from("0xabc::did_registry::DIDClaimedX"),
        String::from("0xabc::did_registry::DIDClaimed2"),
        String::from("did_registry::DIDClaimed"),
        String::from("0xABC::did_registry::DIDClaimed"),
        String::from(""),
    ];
    let events: Vec<Event> = near_misses
        .into_iter()
        .map(|tag| Event { type_tag: tag, contents: payload(0x11, 0xaa, 1, 0x22, 0x33) })
        .collect();
    let cp = Checkpoint {
        sequence_number: 7,
        timestamp_ms: 1,
        transactions: vec![Transaction { digest: String::from("d1"), events: Some(events) }],
    };
    assert!(handler().process(&cp).is_empty());
}

#[test]
fn matching_event_carries_provenance_and_decoded_fields() {
    let cp = Checkpoint {
        sequence_number: 42,
        timestamp_ms: 1700000000000,
        transactions: vec![Transaction {
            digest: String::from("abc123digest"),
            events: Some(vec![matching_event(0x11)]),
        }],
    };
    let records = handler().process(&cp);
    assert_eq!(records.len(), 1);
    let r = &records[0];
    assert_eq!(r.registry_id, hex_id(0x11));
    assert_eq!(r.user_address, hex_id(0xaa));
    assert_eq!(r.did_type, 1);
    assert_eq!(r.user_did_id, hex_id(0x22));
    assert_eq!(r.nft_id, hex_id(0x33));
    assert_eq!(r.checkpoint_sequence_number, 42);
    assert_eq!(r.transaction_digest, "abc123digest");
    assert_eq!(r.timestamp_ms, 1700000000000);
    assert_eq!(r.event_index, 0);
}

#[test]
fn output_preserves_transaction_then_event_order() {
    let cp = Checkpoint {
        sequence_number: 9,
        timestamp_ms: 5,
        transactions: vec![
            Transaction {
                digest: String::from("t1"),
                events: Some(vec![matching_event(0x01), matching_event(0x02)]),
            },
            Transaction {
                digest: String::from("t2"),
                events: Some(vec![matching_event(0x03), matching_event(0x04)]),
            },
        ],
    };
    let records = handler().process(&cp);
    assert_eq!(records.len(), 4);
    let digests: Vec<&str> =
        records.iter().map(|r| r.transaction_digest.as_str()).collect();
    assert_eq!(digests, vec!["t1", "t1", "t2", "t2"]);
    let indexes: Vec<u64> = records.iter().map(|r| r.event_index).collect();
    assert_eq!(indexes, vec![0, 1, 0, 1]);
    let registries: Vec<String> = records.iter().map(|r| r.registry_id.clone()).collect();
    assert_eq!(registries, vec![hex_id(0x01), hex_id(0x02), hex_id(0x03), hex_id(0x04)]);
}

#[test]
fn undecodable_payload_is_skipped_without_aborting() {
    let bad = Event { type_tag: String::from(SIG), contents: vec![1, 2, 3] };
    let cp = Checkpoint {
        sequence_number: 9,
        timestamp_ms: 5,
        transactions: vec![Transaction {
            digest: String::from("t1"),
            events: Some(vec![bad, matching_event(0x44)]),
        }],
    };
    let records = handler().process(&cp);
    assert_eq!(records.len(), 1);
    assert_eq!(records[0].registry_id, hex_id(0x44));
    // The surviving record keeps its true position in the event list.
    assert_eq!(records[0].event_index, 1);
}

#[test]
fn event_index_counts_all_events_not_just_matches() {
    let other = Event { type_tag: String::from("0xabc::other::Other"), contents: Vec::new() };
    let cp = Checkpoint {
        sequence_number: 9,
        timestamp_ms: 5,
        transactions: vec![Transaction {
            digest: String::from("t1"),
            events: Some(vec![other, matching_event(0x55)]),
        }],
    };
    let records = handler().process(&cp);
    assert_eq!(records.len(), 1);
    assert_eq!(records[0].event_index, 1);
}

#[test]
fn default_handler_uses_deployed_package_signature() {
    let h = DIDClaimedEventHandler::new(quiet_config());
    assert_eq!(
        h.expected_type,
        "0xd9f5cd6845d838653bac950697ab33009db0a7f886b201dbda9ba132c3dd495::did_registry::DIDClaimed"
    );
}

#[test]
fn batch_appends_in_order() {
    let h = handler();
    let cp = Checkpoint {
        sequence_number: 3,
        timestamp_ms: 4,
        transactions: vec![Transaction {
            digest: String::from("t1"),
            events: Some(vec![matching_event(0x01), matching_event(0x02)]),
        }],
    };
    let values = h.process(&cp);
    let mut pending = Vec::new();
    h.batch(&mut pending, values);
    assert_eq!(pending.len(), 2);
    assert_eq!(pending[0].registry_id, hex_id(0x01));
    assert_eq!(pending[1].registry_id, hex_id(0x02));
    let more = h.process(&cp);
    h.batch(&mut pending, more);
    assert_eq!(pending.len(), 4);
}
