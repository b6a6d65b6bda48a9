use suiverify_indexer::models::StoredDIDClaimedEvent;
use suiverify_indexer::notify::is_json_plain;
use suiverify_indexer::notify::notification_payload;
use suiverify_indexer::notify::NOTIFICATION_CHANNEL;

fn record() -> StoredDIDClaimedEvent {
    StoredDIDClaimedEvent {
        registry_id: String::from("0x11"),
        user_address: String::from("0xaa"),
        did_type: 1,
        user_did_id: String::from("0x22"),
        nft_id: String::from("0x33"),
        checkpoint_sequence_number: 42,
        transaction_digest: String::from("abc123"),
        timestamp_ms: 1700000000000,
        event_index: 0,
    }
}

#[test]
fn channel_name_is_fixed() {
    assert_eq!(NOTIFICATION_CHANNEL, "did_claimed");
}

#[test]
fn payload_is_exact_json() {
    let json = notification_payload(&record()).unwrap();
    let expected = "{\"registry_id\":\"0x11\",\"user_address\":\"0xaa\",\"did_type\":1,\"user_did_id\":\"0x22\",\"nft_id\":\"0x33\",\"checkpoint_sequence_number\":42,\"transaction_digest\":\"abc123\",\"timestamp_ms\":1700000000000,\"event_index\":0}";
    assert_eq!(json, expected);
}

#[test]
fn payload_renders_zero_and_large_numbers() {
    let mut r = record();
    r.checkpoint_sequence_number = 0;
    r.timestamp_ms = u64::MAX;
    r.event_index = 10;
    let json = notification_payload(&r).unwrap();
    assert!(json.contains("\"checkpoint_sequence_number\":0,"));
    assert!(json.contains("\"timestamp_ms\":18446744073709551615,"));
    assert!(json.contains("\"event_index\":10}"));
}

#[test]
fn record_needing_escapes_is_refused() {
    let mut r = record();
    r.transaction_digest = String::from("bad\"digest");
    assert!(notification_payload(&r).is_none());
    let mut r = record();
    r.registry_id = String::from("back\\slash");
    assert!(notification_payload(&r).is_none());
    let mut r = record();
    r.nft_id = String::from("tab\there");
    assert!(notification_payload(&r).is_none());
}

#[test]
fn plainness_check_matches_json_string_rules() {
    assert!(is_json_plain(&String::from("abc 0x11 ~!@#$%")));
    assert!(is_json_plain(&String::from("")));
    assert!(!is_json_plain(&String::from("quote\"")));
    assert!(!is_json_plain(&String::from("slash\\")));
    assert!(!is_json_plain(&String::from("newline\n")));
    assert!(!is_json_plain(&String::from("unicode\u{00e9}")));
}
