use p2pchain::address::SocketAddress;
use p2pchain::keys::PublicKey;
use p2pchain::networking::{
    client_step, dial_step, header_accepted, nodes_to_dial, on_peer_message, ClientCommand,
    ClientPlan, DialStep, HandShake, HandShakeAck, PeerMessage, PeerTable, BOOTSTRAP_ATTEMPTS,
};
use p2pchain::peers::Peer;
use p2pchain::protocol::header::{ContentType, P2ProtHeader};

fn addr(port: u16) -> SocketAddress {
    SocketAddress::V4 { ip: 0x0a000001, port }
}

fn key(s: &str) -> PublicKey {
    PublicKey::from_string(s).unwrap()
}

#[test]
fn headers_need_a_session_unless_handshake() {
    let mut h = P2ProtHeader::default();
    assert!(!header_accepted(&h));
    h.session_id = 5;
    assert!(header_accepted(&h));
    h.session_id = 0;
    h.content_type = ContentType::HandShake;
    assert!(header_accepted(&h));
}

#[test]
fn content_type_of_messages() {
    let hs = PeerMessage::Handshake(HandShake::new(key("aa"), addr(1)));
    assert_eq!(ContentType::from_message(&hs), ContentType::HandShake);
    let ack = PeerMessage::HandshakeAck(HandShakeAck::new(key("aa"), addr(1)));
    assert_eq!(ContentType::from_message(&ack), ContentType::HandShake);
    assert_eq!(ContentType::from_message(&PeerMessage::Ping), ContentType::Bin);
    assert_eq!(ContentType::from_message(&PeerMessage::GetLastBlock), ContentType::Bin);
}

#[test]
fn messages_to_client_commands() {
    let from = addr(9);
    let r: Option<ClientCommand<()>> =
        on_peer_message(from, 3, PeerMessage::Handshake(HandShake::new(key("ab"), addr(2))));
    match r {
        Some(ClientCommand::SendHandShakeAck(a, h)) => {
            assert_eq!(a, from);
            assert_eq!(h.pk.as_str(), "ab");
            assert_eq!(h.addr, addr(2));
        }
        other => panic!("unexpected {:?}", other),
    }
    let r: Option<ClientCommand<()>> = on_peer_message(
        from,
        3,
        PeerMessage::HandshakeAck(HandShakeAck::new(key("cd"), addr(4))),
    );
    match r {
        Some(ClientCommand::EstablishedPeerConnection(a, p)) => {
            assert_eq!(a, from);
            assert_eq!(p.addr, addr(4));
            assert_eq!(p.pk.as_str(), "cd");
        }
        other => panic!("unexpected {:?}", other),
    }
    let r: Option<ClientCommand<()>> = on_peer_message(from, 77, PeerMessage::Ping);
    assert!(matches!(r, Some(ClientCommand::Pong(77))));
    let r: Option<ClientCommand<()>> = on_peer_message(from, 77, PeerMessage::Pong);
    assert!(r.is_none());
    let r: Option<ClientCommand<()>> = on_peer_message(from, 77, PeerMessage::Gossip(vec![]));
    assert!(r.is_none());
}

#[test]
fn dial_all_but_self() {
    let me = addr(7070);
    let nodes = vec![
        Peer::new(addr(1), key("01")),
        Peer::new(me, key("02")),
        Peer::new(addr(3), key("03")),
    ];
    let out = nodes_to_dial(&nodes, me);
    assert_eq!(out.len(), 2);
    assert_eq!(out[0].addr, addr(1));
    assert_eq!(out[1].addr, addr(3));
}

#[test]
fn table_queue_then_establish() {
    let mut t: PeerTable<&'static str> = PeerTable::new();
    t.queue_connection(addr(1), "w1");
    t.queue_connection(addr(2), "w2");
    let peer = Peer::new(addr(5), key("abcd"));
    let id = t.establish(addr(1), &peer).unwrap();
    assert_eq!(id, peer.derive_unique_id());
    assert_eq!(t.connection(id), Some(&"w1"));
    // the writer no longer waits
    assert_eq!(t.establish(addr(1), &peer), None);
    assert_eq!(t.take_pending(addr(1)), None);
    assert_eq!(t.take_pending(addr(2)), Some("w2"));
    assert_eq!(t.take_pending(addr(2)), None);
}

#[test]
fn table_replaces_queued_writer_and_adds_connections() {
    let mut t: PeerTable<u32> = PeerTable::new();
    t.queue_connection(addr(1), 1);
    t.queue_connection(addr(1), 2);
    assert_eq!(t.take_pending(addr(1)), Some(2));
    let peer = Peer::new(addr(1), key("ff"));
    let id = t.add_connection(&peer, 9);
    assert_eq!(t.connection(id), Some(&9));
    assert_eq!(t.connection(id.wrapping_add(1)), None);
    let id2 = t.add_connection(&peer, 10);
    assert_eq!(id, id2);
    assert_eq!(t.connection(id), Some(&10));
}

#[test]
fn client_steps_through_a_session() {
    let mut t: PeerTable<u32> = PeerTable::new();
    // a dialled connection is handed back to send our handshake; nothing is queued yet
    match client_step(&mut t, ClientCommand::NewClientConnection(addr(1), 11)) {
        ClientPlan::Handshake(a, w) => {
            assert_eq!(a, addr(1));
            assert_eq!(w, 11);
        }
        other => panic!("unexpected {:?}", other),
    }
    assert_eq!(t.take_pending(addr(1)), None);
    // an accepted connection waits for its handshake
    assert!(matches!(
        client_step(&mut t, ClientCommand::NewServerConnection(addr(2), 22)),
        ClientPlan::Nothing
    ));
    let hs = HandShake::new(key("beef"), addr(8));
    match client_step(&mut t, ClientCommand::SendHandShakeAck(addr(2), hs)) {
        ClientPlan::Acknowledge(p, w) => {
            assert_eq!(p.addr, addr(2));
            assert_eq!(p.pk.as_str(), "beef");
            assert_eq!(w, 22);
        }
        other => panic!("unexpected {:?}", other),
    }
    // the writer was taken out, so a second handshake finds nothing
    let hs = HandShake::new(key("beef"), addr(8));
    assert!(matches!(
        client_step(&mut t, ClientCommand::SendHandShakeAck(addr(2), hs)),
        ClientPlan::Nothing
    ));
    // an acknowledgement on a queued writer records the peer
    t.queue_connection(addr(3), 33);
    let peer = Peer::new(addr(3), key("cafe"));
    let expected = peer.derive_unique_id();
    match client_step(&mut t, ClientCommand::EstablishedPeerConnection(addr(3), peer)) {
        ClientPlan::PeerEstablished(id, p) => {
            assert_eq!(id, expected);
            assert_eq!(p.pk.as_str(), "cafe");
        }
        other => panic!("unexpected {:?}", other),
    }
    assert_eq!(t.connection(expected), Some(&33));
    assert!(matches!(client_step(&mut t, ClientCommand::Ping(expected)), ClientPlan::SendPing(i) if i == expected));
    assert!(matches!(client_step(&mut t, ClientCommand::Pong(expected)), ClientPlan::SendPong(i) if i == expected));
    assert!(matches!(client_step(&mut t, ClientCommand::Ping(5)), ClientPlan::Nothing));
    assert!(matches!(client_step(&mut t, ClientCommand::Pong(5)), ClientPlan::UnknownPeer(5)));
    let far = Peer::new(addr(4), key("0a"));
    match client_step(&mut t, ClientCommand::ConnectToPeer(far)) {
        ClientPlan::Dial(p) => assert_eq!(p.addr, addr(4)),
        other => panic!("unexpected {:?}", other),
    }
    // a broadcast goes to every established connection, each once
    t.queue_connection(addr(6), 66);
    let other = Peer::new(addr(6), key("d00d"));
    let other_id = other.derive_unique_id();
    assert!(matches!(
        client_step(&mut t, ClientCommand::EstablishedPeerConnection(addr(6), other)),
        ClientPlan::PeerEstablished(..)
    ));
    match client_step(&mut t, ClientCommand::Broadcast(PeerMessage::Ping)) {
        ClientPlan::Broadcast(PeerMessage::Ping, mut ids) => {
            ids.sort();
            let mut want = vec![expected, other_id];
            want.sort();
            assert_eq!(ids, want);
        }
        other => panic!("unexpected {:?}", other),
    }
}

#[test]
fn broadcast_with_no_connections_writes_nowhere() {
    let mut t: PeerTable<u8> = PeerTable::new();
    t.queue_connection(addr(1), 1);
    match client_step(&mut t, ClientCommand::Broadcast(PeerMessage::GetLastBlock)) {
        ClientPlan::Broadcast(PeerMessage::GetLastBlock, ids) => assert!(ids.is_empty()),
        other => panic!("unexpected {:?}", other),
    }
    assert!(t.connection_ids().is_empty());
}

#[test]
fn bootstrap_dials_at_most_four_times() {
    let mut failed: u32 = 0;
    let mut dials = 0;
    loop {
        dials += 1;
        match dial_step::<u8>(failed, None) {
            DialStep::Retry(n) => {
                assert_eq!(n, failed + 1);
                failed = n;
            }
            DialStep::GiveUp => break,
            DialStep::Connected(_) => panic!("no connection was made"),
        }
    }
    assert_eq!(dials, BOOTSTRAP_ATTEMPTS);
    assert!(matches!(dial_step(2, Some(7u8)), DialStep::Connected(7)));
    assert!(matches!(dial_step::<u8>(u32::MAX, None), DialStep::GiveUp));
}

#[test]
fn handshake_ack_at_a_given_time() {
    let ack = HandShakeAck::new_at(key("aa"), addr(3), 1234);
    assert_eq!(ack.timestamp, 1234);
    assert_eq!(ack.pk.as_str(), "aa");
    assert_eq!(ack.addr, addr(3));
}
