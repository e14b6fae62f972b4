use p2pchain::bootstrap::ParseError;
use p2pchain::config::{nodes_from_config, peer_uris_from_config};
use p2pchain::logging::{log_tag, LogColor};
use p2pchain::networking::session_of_peer;

#[test]
fn node_config_keeps_good_reports_bad_skips_non_strings() {
    let text = br#"["peer://ab@127.0.0.1:80", 5, "tcp://x", {"a": 1}, "peer://cd@[::1]:90"]"#;
    let (nodes, errors) = nodes_from_config(text).unwrap();
    assert_eq!(nodes.len(), 2);
    assert_eq!(nodes[0].addr(), "127.0.0.1:80");
    assert_eq!(nodes[1].addr(), "::1:90");
    assert_eq!(errors, vec![ParseError::MissingScheme]);
}

#[test]
fn node_config_not_an_array_lists_nothing() {
    let (nodes, errors) = nodes_from_config(br#"{"nodes": ["peer://ab@h:1"]}"#).unwrap();
    assert!(nodes.is_empty());
    assert!(errors.is_empty());
    let (nodes, errors) = nodes_from_config(b"  \"peer://ab@h:1\" ").unwrap();
    assert!(nodes.is_empty());
    assert!(errors.is_empty());
}

#[test]
fn config_that_is_no_json() {
    assert!(nodes_from_config(b"[\"peer://ab@h:1\"").is_none());
    assert!(nodes_from_config(b"").is_none());
    assert!(peer_uris_from_config(b"nope").is_none());
}

#[test]
fn peer_config_strings_in_order() {
    let uris = peer_uris_from_config(br#"["b", null, "a", true, "c"]"#).unwrap();
    assert_eq!(uris, vec!["b", "a", "c"]);
    assert!(peer_uris_from_config(b"42").unwrap().is_empty());
    assert!(peer_uris_from_config(b"[]").unwrap().is_empty());
}

#[test]
fn log_tags_per_level() {
    assert_eq!(log_tag(0), ("[Info]".to_string(), Some(LogColor::Blue)));
    assert_eq!(log_tag(1), ("[Success]".to_string(), Some(LogColor::Green)));
    assert_eq!(log_tag(2), ("[Waring]".to_string(), Some(LogColor::Yellow)));
    assert_eq!(log_tag(3), ("[Error]".to_string(), Some(LogColor::Red)));
    assert_eq!(log_tag(9), ("[Info]".to_string(), None));
}

#[test]
fn session_takes_low_bits_of_peer_id() {
    assert_eq!(session_of_peer(5), 5);
    assert_eq!(session_of_peer((7u128 << 64) | 9), 9);
    assert_eq!(session_of_peer(u128::MAX), u64::MAX);
}
