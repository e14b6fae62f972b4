//! Messages peers exchange and the decisions the node takes on what it reads.
//!
//! The node's tasks (listening, reading packets, writing them) run in the
//! application; here is what they decide: which headers to accept, what a
//! received message asks the client task to do, and which starting nodes to
//! dial.

use vstd::prelude::*;
use crate::address::SocketAddress;
use crate::assoc::AssocList;
use std::collections::HashMap;
use vstd::std_specs::iter::IteratorSpec;
use crate::block::Block;
use crate::errors::NetworkError;
use crate::hashing::{now_millis, timestamp_from_clock};
use crate::keys::PublicKey;
use crate::peers::{Peer, spec_peer_id};
use crate::protocol::header::{ContentType, P2ProtHeader};

verus! {

broadcast use vstd::std_specs::hash::group_hash_axioms;

/// The identity of a peer, see `Peer::derive_unique_id`.
pub type PeerId = u128;

/// The session id a packet to peer `id` carries: the header's session field
/// holds 64 bits, so it takes the low 64 bits of the peer id.
pub fn session_of_peer(id: PeerId) -> (s: u64)
    ensures
        s == id % 0x1_0000_0000_0000_0000,
{
    (id % 0x1_0000_0000_0000_0000u128) as u64
}

/// Times the node tries to reach a starting node before it gives up.
pub const BOOTSTRAP_ATTEMPTS: u32 = 4;

/// The first message of a connection: who the sender is and where it listens.
#[derive(Debug)]
pub struct HandShake {
    pub pk: PublicKey,
    pub addr: SocketAddress,
}

impl HandShake {
    pub fn new(pk: PublicKey, addr: SocketAddress) -> (h: Self)
        ensures
            h.pk@ == pk@,
            h.addr == addr,
    {
        HandShake { pk, addr }
    }
}

/// The answer to a handshake, stamped with the time it was made.
#[derive(Debug)]
pub struct HandShakeAck {
    pub pk: PublicKey,
    pub timestamp: u128,
    pub addr: SocketAddress,
}

impl HandShakeAck {
    /// An acknowledgement from `pk` listening at `addr`, stamped `timestamp`.
    pub fn new_at(pk: PublicKey, addr: SocketAddress, timestamp: u128) -> (h: Self)
        ensures
            h.pk@ == pk@,
            h.addr == addr,
            h.timestamp == timestamp,
    {
        HandShakeAck { pk, addr, timestamp }
    }

    /// An acknowledgement stamped with the current time; see `new_at`.
    pub fn new(pk: PublicKey, addr: SocketAddress) -> (h: Self)
        ensures
            h.pk@ == pk@,
            h.addr == addr,
    {
        HandShakeAck::new_at(pk, addr, timestamp_from_clock(now_millis()))
    }
}

/// What peers say to each other.
#[derive(Debug)]
pub enum PeerMessage {
    Gossip(Vec<Peer>),
    Handshake(HandShake),
    HandshakeAck(HandShakeAck),
    GetBlockByHash(String),
    GetBlockById(String),
    GetLastBlock,
    Block(Block),
    Error(NetworkError),
    Ping,
    Pong,
}

/// Work handed to the client task. `W` is the writing half of a connection.
#[derive(Debug)]
pub enum ClientCommand<W> {
    Broadcast(PeerMessage),
    Ping(PeerId),
    Pong(PeerId),
    SendHandShakeAck(SocketAddress, HandShake),
    ConnectToPeer(Peer),
    NewServerConnection(SocketAddress, W),
    NewClientConnection(SocketAddress, W),
    EstablishedPeerConnection(SocketAddress, Peer),
}

impl ContentType {
    /// The content type a message travels as: handshakes and their
    /// acknowledgements as `HandShake`, everything else as `Bin`.
    pub fn from_message(msg: &PeerMessage) -> (ct: ContentType)
        ensures
            ct == match msg {
                PeerMessage::Handshake(_) | PeerMessage::HandshakeAck(_) => ContentType::HandShake,
                _ => ContentType::Bin,
            },
    {
        match msg {
            PeerMessage::Handshake(_) | PeerMessage::HandshakeAck(_) => ContentType::HandShake,
            _ => ContentType::Bin,
        }
    }
}

/// Whether the node goes on with a packet whose header it has read: every
/// packet but a handshake must carry a session id.
pub fn header_accepted(header: &P2ProtHeader) -> (ok: bool)
    ensures
        ok == !(header.content_type != ContentType::HandShake && header.session_id == 0),
{
    !(header.content_type != ContentType::HandShake && header.session_id == 0)
}

/// What the client task is asked to do when a message arrives from the peer at
/// `addr` in session `session_id`: answer a handshake, record the peer of an
/// acknowledgement, answer a ping with a pong; nothing for other messages.
pub fn on_peer_message<W>(addr: SocketAddress, session_id: u64, msg: PeerMessage) -> (r: Option<
    ClientCommand<W>,
>)
    ensures
        match msg {
            PeerMessage::Handshake(hs) => r matches Some(ClientCommand::SendHandShakeAck(a, h)) && a
                == addr && h.pk@ == hs.pk@ && h.addr == hs.addr,
            PeerMessage::HandshakeAck(ack) => r matches Some(
                ClientCommand::EstablishedPeerConnection(a, p),
            ) && a == addr && p.addr == ack.addr && p.pk@ == ack.pk@ && p.options.0 == 0,
            PeerMessage::Ping => r matches Some(ClientCommand::Pong(id)) && id == session_id as u128,
            _ => r is None,
        },
{
    match msg {
        PeerMessage::Handshake(hs) => Some(ClientCommand::SendHandShakeAck(addr, hs)),
        PeerMessage::HandshakeAck(ack) => Some(
            ClientCommand::EstablishedPeerConnection(addr, Peer::new(ack.addr, ack.pk)),
        ),
        PeerMessage::Ping => Some(ClientCommand::Pong(session_id as u128)),
        _ => None,
    }
}

/// What the node does after dialling a starting node.
#[derive(Debug)]
pub enum DialStep<W> {
    /// The dial reached the node: hand the writer to the client task and stop.
    Connected(W),
    /// The dial failed: dial again, this many failures behind.
    Retry(u32),
    /// The dial failed and the attempts are used up: stop.
    GiveUp,
}

/// Decides after a dial of a starting node that `failed` dials before this one
/// did not reach: a connection ends the dialling; a failure leads to another
/// dial while fewer than `BOOTSTRAP_ATTEMPTS` dials have been made, else the
/// node gives up. Starting from 0 failures, at most `BOOTSTRAP_ATTEMPTS` dials
/// are made.
pub fn dial_step<W>(failed: u32, outcome: Option<W>) -> (s: DialStep<W>)
    ensures
        match outcome {
            Some(w) => s matches DialStep::Connected(x) && x == w,
            None => if failed + 1 < BOOTSTRAP_ATTEMPTS {
                s matches DialStep::Retry(n) && n == failed + 1
            } else {
                s is GiveUp
            },
        },
{
    match outcome {
        Some(w) => DialStep::Connected(w),
        None => {
            if failed < BOOTSTRAP_ATTEMPTS - 1 {
                DialStep::Retry(failed + 1)
            } else {
                DialStep::GiveUp
            }
        },
    }
}

/// A peer as plain values: address, key text and options.
pub open spec fn peer_parts(p: Peer) -> (SocketAddress, Seq<char>, u8) {
    (p.addr, p.pk@, p.options.0)
}

/// The starting nodes worth dialling: all but those at the node's own address,
/// in order.
pub fn nodes_to_dial(nodes: &Vec<Peer>, listen_addr: SocketAddress) -> (out: Vec<Peer>)
    ensures
        out@.map_values(|p: Peer| peer_parts(p)) == nodes@.map_values(|p: Peer| peer_parts(p)).filter(
            |v: (SocketAddress, Seq<char>, u8)| v.0 != listen_addr,
        ),
{
    let mut out: Vec<Peer> = Vec::new();
    let mut i: usize = 0;
    while i < nodes.len()
        invariant
            i <= nodes@.len(),
            out@.map_values(|p: Peer| peer_parts(p)) == nodes@.subrange(0, i as int).map_values(
                |p: Peer| peer_parts(p),
            ).filter(|v: (SocketAddress, Seq<char>, u8)| v.0 != listen_addr),
        decreases nodes@.len() - i,
    {
        let ghost prev = nodes@.subrange(0, i as int).map_values(|p: Peer| peer_parts(p));
        let ghost next = nodes@.subrange(0, i + 1).map_values(|p: Peer| peer_parts(p));
        assert(next =~= prev.push(peer_parts(nodes@[i as int])));
        assert(next.drop_last() =~= prev);
        reveal_with_fuel(Seq::filter, 1);
        if !nodes[i].addr.same_as(&listen_addr) {
            let ghost old_out = out@;
            out.push(nodes[i].clone());
            assert(out@.map_values(|p: Peer| peer_parts(p)) =~= old_out.map_values(
                |p: Peer| peer_parts(p),
            ).push(peer_parts(nodes@[i as int])));
        }
        i = i + 1;
    }
    assert(nodes@.subrange(0, nodes@.len() as int) =~= nodes@);
    out
}

/// The writers the client task holds: connections waiting for the handshake to
/// finish, by the address they came from, and established connections, by peer id.
#[derive(Debug)]
pub struct PeerTable<W> {
    queue_conn: AssocList<SocketAddress, W>,
    connections: HashMap<PeerId, W>,
}

/// The two maps of a `PeerTable`.
pub struct PeerTableView<W> {
    pub pending: Map<SocketAddress, W>,
    pub connections: Map<PeerId, W>,
}

impl<W> View for PeerTable<W> {
    type V = PeerTableView<W>;

    closed spec fn view(&self) -> PeerTableView<W> {
        PeerTableView { pending: self.queue_conn@, connections: self.connections@ }
    }
}

/// A writer waiting at `addr`.
pub open spec fn spec_queue<W>(t: PeerTableView<W>, addr: SocketAddress, w: W) -> PeerTableView<W> {
    PeerTableView { pending: t.pending.insert(addr, w), connections: t.connections }
}

/// The writer waiting at `addr`, if any, becomes the connection of peer `id`.
pub open spec fn spec_establish<W>(t: PeerTableView<W>, addr: SocketAddress, id: PeerId) -> (
    PeerTableView<W>,
    Option<PeerId>,
) {
    if t.pending.contains_key(addr) {
        (
            PeerTableView {
                pending: t.pending.remove(addr),
                connections: t.connections.insert(id, t.pending[addr]),
            },
            Some(id),
        )
    } else {
        (t, None)
    }
}

impl<W> PeerTable<W> {
    pub closed spec fn wf(&self) -> bool {
        self.queue_conn.wf()
    }

    /// No connections yet.
    pub fn new() -> (t: Self)
        ensures
            t.wf(),
            t@.pending == Map::<SocketAddress, W>::empty(),
            t@.connections == Map::<PeerId, W>::empty(),
    {
        PeerTable { queue_conn: AssocList::new(), connections: HashMap::new() }
    }

    /// Keeps the writer of a new connection from `addr` until its handshake
    /// completes; a writer already waiting there is dropped.
    pub fn queue_connection(&mut self, addr: SocketAddress, w: W)
        requires
            old(self).wf(),
        ensures
            final(self).wf(),
            final(self)@.pending == spec_queue(old(self)@, addr, w).pending,
            final(self)@.connections == spec_queue(old(self)@, addr, w).connections,
    {
        self.queue_conn.insert(addr, w);
    }

    /// The peer at `addr` acknowledged our handshake: its waiting writer, if
    /// there is one, becomes the connection of the peer's id, which is returned.
    pub fn establish(&mut self, addr: SocketAddress, peer: &Peer) -> (r: Option<PeerId>)
        requires
            old(self).wf(),
        ensures
            final(self).wf(),
            r == spec_establish(old(self)@, addr, spec_peer_id(peer.pk@)).1,
            final(self)@.pending == spec_establish(old(self)@, addr, spec_peer_id(peer.pk@)).0.pending,
            final(self)@.connections == spec_establish(
                old(self)@,
                addr,
                spec_peer_id(peer.pk@),
            ).0.connections,
    {
        let id = peer.derive_unique_id();
        match self.queue_conn.remove(&addr) {
            Some(w) => {
                let _ = self.connections.insert(id, w);
                Some(id)
            },
            None => None,
        }
    }

    /// Takes out the writer waiting at `addr`, to acknowledge a handshake on it.
    pub fn take_pending(&mut self, addr: SocketAddress) -> (r: Option<W>)
        requires
            old(self).wf(),
        ensures
            final(self).wf(),
            final(self)@.pending == old(self)@.pending.remove(addr),
            final(self)@.connections == old(self)@.connections,
            match r {
                Some(w) => old(self)@.pending.contains_key(addr) && w == old(self)@.pending[addr],
                None => !old(self)@.pending.contains_key(addr),
            },
    {
        self.queue_conn.remove(&addr)
    }

    /// Records `w` as the connection of `peer`, whose id is returned.
    pub fn add_connection(&mut self, peer: &Peer, w: W) -> (id: PeerId)
        requires
            old(self).wf(),
        ensures
            final(self).wf(),
            id == spec_peer_id(peer.pk@),
            final(self)@.pending == old(self)@.pending,
            final(self)@.connections == old(self)@.connections.insert(id, w),
    {
        let id = peer.derive_unique_id();
        let _ = self.connections.insert(id, w);
        id
    }

    /// The connection of peer `id`, to ping or answer it.
    pub fn connection(&self, id: PeerId) -> (r: Option<&W>)
        requires
            self.wf(),
        ensures
            match r {
                Some(w) => self@.connections.contains_key(id) && *w == self@.connections[id],
                None => !self@.connections.contains_key(id),
            },
    {
        self.connections.get(&id)
    }

    /// The ids of all established connections, each once, in no stated order.
    pub fn connection_ids(&self) -> (ids: Vec<PeerId>)
        ensures
            ids@.to_set() == self@.connections.dom(),
            ids@.no_duplicates(),
    {
        let mut ids: Vec<PeerId> = Vec::new();
        let ghost keys = vstd::std_specs::hash::spec_keys_iter(&self.connections).remaining().unref();
        for k in it: self.connections.keys()
            invariant
                it.seq().unref() == keys,
                ids@ == keys.take(it.index() as int),
        {
            ids.push(*k);
            assert(ids@ =~= keys.take(it.index() + 1));
        }
        assert(keys.take(keys.len() as int) =~= keys);
        ids
    }
}

/// What the client task has to carry out for a command, once the table has
/// been updated.
#[derive(Debug)]
pub enum ClientPlan<W> {
    Nothing,
    /// Send our handshake on the writer; when it goes out, queue the writer at the address.
    Handshake(SocketAddress, W),
    /// Send our acknowledgement on the writer that waited for this peer; when
    /// it goes out, record the writer as the peer's connection.
    Acknowledge(Peer, W),
    /// The peer was recorded under this id.
    PeerEstablished(PeerId, Peer),
    /// Answer peer `id` with a pong on its connection.
    SendPong(PeerId),
    /// A pong was asked for a peer with no connection.
    UnknownPeer(PeerId),
    /// Ping peer `id` on its connection.
    SendPing(PeerId),
    /// Dial the peer; when it answers, queue the writer at its address.
    Dial(Peer),
    /// Write the message to the connection of each of these peers.
    Broadcast(PeerMessage, Vec<PeerId>),
}

/// Takes a command of the client task: updates the table and says what is
/// left to do. Established connections are never dropped, and a peer reported
/// as established has a connection.
pub fn client_step<W>(table: &mut PeerTable<W>, cmd: ClientCommand<W>) -> (plan: ClientPlan<W>)
    requires
        old(table).wf(),
    ensures
        final(table).wf(),
        old(table)@.connections.dom().subset_of(final(table)@.connections.dom()),
        plan matches ClientPlan::PeerEstablished(pid, _) ==> final(table)@.connections.contains_key(
            pid,
        ),
        match cmd {
            ClientCommand::NewServerConnection(addr, w) => {
                &&& final(table)@.pending == old(table)@.pending.insert(addr, w)
                &&& final(table)@.connections == old(table)@.connections
                &&& plan is Nothing
            },
            ClientCommand::NewClientConnection(addr, w) => {
                &&& final(table)@.pending == old(table)@.pending
                &&& final(table)@.connections == old(table)@.connections
                &&& plan matches ClientPlan::Handshake(a, pw) && a == addr && pw == w
            },
            ClientCommand::EstablishedPeerConnection(addr, peer) => {
                let (t, r) = spec_establish(old(table)@, addr, spec_peer_id(peer.pk@));
                &&& final(table)@.pending == t.pending
                &&& final(table)@.connections == t.connections
                &&& match r {
                    Some(id) => plan matches ClientPlan::PeerEstablished(pid, p) && pid == id
                        && p.addr == peer.addr && p.pk@ == peer.pk@ && p.options == peer.options,
                    None => plan is Nothing,
                }
            },
            ClientCommand::SendHandShakeAck(addr, hs) => {
                &&& final(table)@.pending == old(table)@.pending.remove(addr)
                &&& final(table)@.connections == old(table)@.connections
                &&& if old(table)@.pending.contains_key(addr) {
                    plan matches ClientPlan::Acknowledge(p, w) && p.addr == addr && p.pk@
                        == hs.pk@ && p.options.0 == 0 && w == old(table)@.pending[addr]
                } else {
                    plan is Nothing
                }
            },
            ClientCommand::Pong(id) => {
                &&& final(table)@.pending == old(table)@.pending
                &&& final(table)@.connections == old(table)@.connections
                &&& if old(table)@.connections.contains_key(id) {
                    plan matches ClientPlan::SendPong(i) && i == id
                } else {
                    plan matches ClientPlan::UnknownPeer(i) && i == id
                }
            },
            ClientCommand::Ping(id) => {
                &&& final(table)@.pending == old(table)@.pending
                &&& final(table)@.connections == old(table)@.connections
                &&& if old(table)@.connections.contains_key(id) {
                    plan matches ClientPlan::SendPing(i) && i == id
                } else {
                    plan is Nothing
                }
            },
            ClientCommand::ConnectToPeer(peer) => {
                &&& final(table)@.pending == old(table)@.pending
                &&& final(table)@.connections == old(table)@.connections
                &&& plan matches ClientPlan::Dial(p) && p.addr == peer.addr && p.pk@ == peer.pk@
                    && p.options == peer.options
            },
            ClientCommand::Broadcast(msg) => {
                &&& final(table)@.pending == old(table)@.pending
                &&& final(table)@.connections == old(table)@.connections
                &&& plan matches ClientPlan::Broadcast(m, ids) && m == msg && ids@.to_set()
                    == old(table)@.connections.dom() && ids@.no_duplicates()
            },
        },
{
    match cmd {
        ClientCommand::NewServerConnection(addr, w) => {
            table.queue_connection(addr, w);
            ClientPlan::Nothing
        },
        ClientCommand::NewClientConnection(addr, w) => ClientPlan::Handshake(addr, w),
        ClientCommand::EstablishedPeerConnection(addr, peer) => {
            match table.establish(addr, &peer) {
                Some(id) => ClientPlan::PeerEstablished(id, peer),
                None => ClientPlan::Nothing,
            }
        },
        ClientCommand::SendHandShakeAck(addr, hs) => {
            match table.take_pending(addr) {
                Some(w) => ClientPlan::Acknowledge(Peer::new(addr, hs.pk), w),
                None => ClientPlan::Nothing,
            }
        },
        ClientCommand::Pong(id) => {
            if table.connection(id).is_some() {
                ClientPlan::SendPong(id)
            } else {
                ClientPlan::UnknownPeer(id)
            }
        },
        ClientCommand::Ping(id) => {
            if table.connection(id).is_some() {
                ClientPlan::SendPing(id)
            } else {
                ClientPlan::Nothing
            }
        },
        ClientCommand::ConnectToPeer(peer) => ClientPlan::Dial(peer),
        ClientCommand::Broadcast(msg) => ClientPlan::Broadcast(msg, table.connection_ids()),
    }
}

/// A connection queued at `addr` and then acknowledged by a peer becomes that
/// peer's connection, and no longer waits.
pub proof fn lemma_queue_then_establish<W>(
    t: PeerTableView<W>,
    addr: SocketAddress,
    w: W,
    id: PeerId,
)
    ensures
        spec_establish(spec_queue(t, addr, w), addr, id).1 == Some(id),
        spec_establish(spec_queue(t, addr, w), addr, id).0.connections == t.connections.insert(
            id,
            w,
        ),
        spec_establish(spec_queue(t, addr, w), addr, id).0.pending == t.pending.remove(addr),
{
    assert(t.pending.insert(addr, w).remove(addr) =~= t.pending.remove(addr));
}

/// An acknowledgement from an address with no waiting connection changes nothing.
pub proof fn lemma_establish_unknown<W>(t: PeerTableView<W>, addr: SocketAddress, id: PeerId)
    requires
        !t.pending.contains_key(addr),
    ensures
        spec_establish(t, addr, id) == (t, None::<PeerId>),
{
}

/// The peers the client task records, from `PeerEstablished` plans and from the
/// connections it adds after an acknowledgement, all have a connection: when
/// every recorded id had one before a step that keeps the old connections, every
/// id has one after it, the newly recorded one too.
pub proof fn lemma_recorded_peers_connected<W>(
    peers: Set<PeerId>,
    before: PeerTableView<W>,
    after: PeerTableView<W>,
    recorded: Option<PeerId>,
)
    requires
        peers.subset_of(before.connections.dom()),
        before.connections.dom().subset_of(after.connections.dom()),
        recorded matches Some(id) ==> after.connections.contains_key(id),
    ensures
        (match recorded {
            Some(id) => peers.insert(id),
            None => peers,
        }).subset_of(after.connections.dom()),
{
}

} // verus!
