use p2pchain::bootstrap::{nodes_from_uris, Node, ParseError};

fn parse(s: &str) -> Result<Node, ParseError> {
    Node::from_config_uri(s.to_string())
}

#[test]
fn node_parses_ipv4_host() {
    let n = parse("peer://abcDEF0123@127.0.0.1:7070").unwrap();
    assert_eq!(n.addr(), "127.0.0.1:7070");
}

#[test]
fn node_parses_hostname() {
    let n = parse("peer://ab@example.org:80").unwrap();
    assert_eq!(n.addr(), "example.org:80");
}

#[test]
fn node_parses_bracketed_ipv6() {
    let n = parse("peer://ff@[::1]:9000").unwrap();
    assert_eq!(n.addr(), "::1:9000");
}

#[test]
fn node_port_with_plus_and_leading_zeros() {
    assert_eq!(parse("peer://ab@host:+080").unwrap().addr(), "host:80");
    assert_eq!(parse("peer://ab@host:65535").unwrap().addr(), "host:65535");
    assert_eq!(parse("peer://ab@host:0").unwrap().addr(), "host:0");
}

#[test]
fn node_splits_at_last_colon() {
    let n = parse("peer://ab@a:b:12").unwrap();
    assert_eq!(n.addr(), "a:b:12");
    assert_eq!(parse("peer://ab@a:b:").unwrap_err(), ParseError::InvalidPort);
}

#[test]
fn node_errors() {
    assert_eq!(parse("http://ab@h:1").unwrap_err(), ParseError::MissingScheme);
    assert_eq!(parse("peer:/ab@h:1").unwrap_err(), ParseError::MissingScheme);
    assert_eq!(parse("peer://abh:1").unwrap_err(), ParseError::MissingAtSign);
    assert_eq!(parse("peer://@h:1").unwrap_err(), ParseError::EmptyPublicKey);
    assert_eq!(parse("peer://xyz@h:1").unwrap_err(), ParseError::InvalidPublicKeyHex);
    assert_eq!(parse("peer://ab@").unwrap_err(), ParseError::MissingHostPort);
    assert_eq!(parse("peer://ab@host").unwrap_err(), ParseError::MissingHostPort);
    assert_eq!(parse("peer://ab@[::1]").unwrap_err(), ParseError::MissingPort);
    assert_eq!(parse("peer://ab@[::1]x80").unwrap_err(), ParseError::MissingPort);
    assert_eq!(parse("peer://ab@[::1:80").unwrap_err(), ParseError::UnclosedIpv6Bracket);
    assert_eq!(parse("peer://ab@:80").unwrap_err(), ParseError::EmptyHost);
    assert_eq!(parse("peer://ab@[]:80").unwrap_err(), ParseError::EmptyHost);
    assert_eq!(parse("peer://ab@h:65536").unwrap_err(), ParseError::InvalidPort);
    assert_eq!(parse("peer://ab@h:-1").unwrap_err(), ParseError::InvalidPort);
    assert_eq!(parse("peer://ab@h:+").unwrap_err(), ParseError::InvalidPort);
    assert_eq!(parse("peer://ab@h:8a").unwrap_err(), ParseError::InvalidPort);
}

#[test]
fn node_roundtrip_through_uri() {
    let n = parse("peer://00ff@node-1.local:4242").unwrap();
    let again = parse(&format!("peer://00ff@{}", n.addr())).unwrap();
    assert_eq!(again.addr(), n.addr());
}

#[test]
fn parse_error_messages() {
    assert_eq!(ParseError::MissingScheme.to_string(), "missing 'peer://' scheme");
    assert_eq!(
        ParseError::MissingAtSign.to_string(),
        "missing '@' between public key and address"
    );
    assert_eq!(ParseError::EmptyPublicKey.to_string(), "public key is empty");
    assert_eq!(
        ParseError::InvalidPublicKeyHex.to_string(),
        "public key must be hex (0-9a-fA-F)"
    );
    assert_eq!(ParseError::MissingHostPort.to_string(), "missing host:port after '@'");
    assert_eq!(ParseError::MissingPort.to_string(), "missing port");
    assert_eq!(ParseError::InvalidPort.to_string(), "invalid port (must be 0-65535)");
    assert_eq!(ParseError::EmptyHost.to_string(), "host is empty");
    assert_eq!(ParseError::UnclosedIpv6Bracket.to_string(), "IPv6 host has no closing ']'");
}

#[test]
fn node_list_keeps_good_and_reports_bad() {
    let uris = vec![
        "peer://aa@h1:1".to_string(),
        "bogus".to_string(),
        "peer://bb@h2:2".to_string(),
        "peer://zz@h3:3".to_string(),
    ];
    let (nodes, errors) = nodes_from_uris(&uris);
    assert_eq!(nodes.len(), 2);
    assert_eq!(nodes[0].addr(), "h1:1");
    assert_eq!(nodes[1].addr(), "h2:2");
    assert_eq!(errors, vec![ParseError::MissingScheme, ParseError::InvalidPublicKeyHex]);
}

#[test]
fn node_roundtrip_with_colons_in_host() {
    let n = parse("peer://ab@fe80::1:9000").unwrap();
    assert_eq!(n.addr(), "fe80::1:9000");
    let again = parse(&format!("peer://ab@{}", n.addr())).unwrap();
    assert_eq!(again.addr(), "fe80::1:9000");
    // a bracketed host is kept without its brackets
    let b = parse("peer://ab@[::1]:80").unwrap();
    assert_eq!(b.addr(), "::1:80");
    // a host written with a leading '[' and no ']' does not read back
    assert_eq!(parse("peer://ab@[a:80").unwrap_err(), ParseError::UnclosedIpv6Bracket);
}
