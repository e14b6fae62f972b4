use p2pchain::cli::{help_text, normalize_line, parse_command, peer_ids_with_prefix, CliAction};

fn action(line: &str) -> CliAction {
    parse_command(&normalize_line(line))
}

#[test]
fn normalize_trims_and_lowercases() {
    assert_eq!(normalize_line("  LS \t\n"), "ls");
    assert_eq!(normalize_line("Server START"), "server start");
    assert_eq!(normalize_line("\u{3000}x\u{a0}"), "x");
    assert_eq!(normalize_line(""), "");
}

#[test]
fn simple_commands() {
    assert!(matches!(action("exit"), CliAction::Exit));
    assert!(matches!(action("  LS  "), CliAction::List));
    assert!(matches!(action("help"), CliAction::Help));
    assert!(matches!(action("quit"), CliAction::Exit));
    assert!(matches!(action("list"), CliAction::List));
    assert!(matches!(action("lastBlock"), CliAction::LastBlock));
    assert!(matches!(action("   "), CliAction::Nothing));
    assert!(matches!(action(""), CliAction::Nothing));
    match action("Frobnicate now") {
        CliAction::UnknownCommand(w) => assert_eq!(w, "frobnicate"),
        other => panic!("unexpected {:?}", other),
    }
}

#[test]
fn server_commands() {
    assert!(matches!(action("server start"), CliAction::StartServer));
    assert!(matches!(action("server   STOP"), CliAction::StopServer));
    assert!(matches!(action("server restart"), CliAction::UnknownSubCommand));
    assert!(matches!(action("server"), CliAction::MissingSubCommand));
}

#[test]
fn connect_commands() {
    match action("connect peer://AB@127.0.0.1:80 extra") {
        CliAction::Connect(uri) => assert_eq!(uri, "peer://ab@127.0.0.1:80"),
        other => panic!("unexpected {:?}", other),
    }
    assert!(matches!(action("connect"), CliAction::MissingPeerUri));
}

#[test]
fn ping_commands() {
    assert!(matches!(action("ping all"), CliAction::PingAll));
    assert!(matches!(action("ping 1234"), CliAction::PingPrefixTooShort));
    assert!(matches!(action("ping éé"), CliAction::PingPrefixTooShort));
    assert!(matches!(action("ping ééé"), CliAction::PingPrefix(_)));
    match action("ping 12345") {
        CliAction::PingPrefix(p) => assert_eq!(p, "12345"),
        other => panic!("unexpected {:?}", other),
    }
    assert!(matches!(action("ping"), CliAction::MissingPingTarget));
}

#[test]
fn ping_prefix_selects_ids() {
    let ids = vec![123456789u128, 987654321, 1234500, 12];
    assert_eq!(peer_ids_with_prefix(&ids, "12345"), vec![123456789, 1234500]);
    assert_eq!(peer_ids_with_prefix(&ids, "9"), vec![987654321]);
    assert_eq!(peer_ids_with_prefix(&ids, ""), ids);
    assert_eq!(peer_ids_with_prefix(&vec![u128::MAX], "3402823669"), vec![u128::MAX]);
    assert_eq!(peer_ids_with_prefix(&vec![0], "0"), vec![0]);
}

#[test]
fn help_lists_commands() {
    let h = help_text();
    assert!(h.starts_with("list              - list all connected peers\n"));
    assert!(h.ends_with("lastBlock         - request the last block from peers\n"));
    assert_eq!(h.lines().count(), 6);
}
