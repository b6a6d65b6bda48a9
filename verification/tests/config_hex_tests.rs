use suiverify_indexer::config::LogConfig;
use suiverify_indexer::hex::to_hex_literal;

fn config(detailed: bool, events: bool) -> LogConfig {
    LogConfig {
        enable_detailed_logs: detailed,
        log_level: String::from("info"),
        log_events: events,
    }
}

#[test]
fn event_logging_needs_detailed_logging_too() {
    assert!(config(true, true).should_log_events());
    assert!(!config(false, true).should_log_events());
    assert!(!config(true, false).should_log_events());
    assert!(!config(false, false).should_log_events());
}

#[test]
fn detailed_logging_follows_its_flag() {
    assert!(config(true, false).should_log_detailed());
    assert!(!config(false, true).should_log_detailed());
}

#[test]
fn hex_literal_renders_lowercase_pairs() {
    assert_eq!(to_hex_literal(&vec![0x00, 0xff, 0x1a]), "0x00ff1a");
    assert_eq!(to_hex_literal(&vec![0xde, 0xad, 0xbe, 0xef]), "0xdeadbeef");
}

#[test]
fn hex_literal_of_empty_is_bare_prefix() {
    assert_eq!(to_hex_literal(&Vec::new()), "0x");
}

#[test]
fn hex_literal_of_identifier_has_sixty_six_chars() {
    let s = to_hex_literal(&vec![0x11; 32]);
    assert_eq!(s.len(), 66);
    assert!(s.starts_with("0x"));
}
