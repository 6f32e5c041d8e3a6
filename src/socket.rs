use vstd::prelude::*;

use crate::cid::{
    cid_for_recv, cid_from_packet, cid_of, cid_with_recv, ConnectionId, IdType, PacketHeader,
    PacketType, Peer,
};
use crate::keyed::{
    contains_key, find_key, has_key, index_of, keys_unique, lemma_has_index, lemma_index_of,
    lemma_push, lemma_remove,
};

verus! {

/// Seconds after which a parked acceptor or an unclaimed SYN expires.
pub const AWAIT_TIMEOUT_SECS: u64 = 20;

/// Window size advertised by a RESET sent for an unknown connection.
pub const RESET_WND_SIZE: u32 = 100000;

/// Random draws made for a fresh connection id before the id space is
/// searched in order.
pub const CID_RANDOM_DRAWS: u32 = 65536;

/// The errors a caller of the multiplexer can see.
#[derive(PartialEq, Eq, Structural, Clone, Copy, Debug)]
pub enum SocketError {
    /// The event loop has gone away.
    NotConnected,
    /// A parked acceptor expired, or a reply never came.
    TimedOut,
    /// The connection gave up before its handshake finished.
    ConnectionAborted,
    /// The connection id is held by a live connection.
    ConnectionIdUnavailable,
}

/// A RESET packet to send back for a packet addressed to no connection.
#[derive(PartialEq, Eq, Structural, Clone, Copy, Debug)]
pub struct ResetPacket {
    pub conn_id: u16,
    pub seq_num: u16,
    pub timestamp_micros: u32,
    pub wnd_size: u32,
}

/// What to do with an inbound packet.
pub enum Inbound<A, T> {
    /// Hand the packet to the live connection `cid`.
    Deliver { cid: ConnectionId, packet: T },
    /// A parked acceptor took this SYN: start connection `cid` with it.
    Start { cid: ConnectionId, accept: A, syn: T },
    /// The SYN waits for an acceptor under `cid`.
    Buffered { cid: ConnectionId },
    /// Send `reply` to `dst`.
    Reset { reply: ResetPacket, dst: Peer },
    /// Nothing to do.
    Dropped,
}

/// What became of an acceptor.
pub enum AcceptOutcome<A, T, C> {
    /// Start connection `cid` from `syn` and answer `accept` once it connects.
    Started { cid: ConnectionId, accept: A, syn: T },
    /// `cid` is held by a live connection: answer `accept` with that error.
    Unavailable { cid: ConnectionId, accept: A },
    /// The acceptor waits for a SYN under `cid`; an acceptor it displaced
    /// under the same key is handed back to be answered.
    Parked { cid: ConnectionId, displaced: Option<A> },
    /// No SYN is buffered: the acceptor and its channel are handed back.
    NoSyn { accept: A, chan: C },
}

/// The state of the multiplexer: live connections with their ingress
/// channels, parked acceptors with the channel prepared for each, and
/// buffered SYN packets, each in the order of insertion.
pub struct MuxState<C, A, T> {
    pub conns: Seq<(ConnectionId, C)>,
    pub awaiting: Seq<(ConnectionId, (A, C))>,
    pub incoming: Seq<(ConnectionId, T)>,
}

impl<C, A, T> MuxState<C, A, T> {
    /// Every key occurs at most once in each table.
    pub open spec fn wf(self) -> bool {
        &&& keys_unique(self.conns)
        &&& keys_unique(self.awaiting)
        &&& keys_unique(self.incoming)
    }

    /// No key of a parked acceptor or a buffered SYN is live, and no key is both parked and buffered.
    pub open spec fn pending_disjoint(self) -> bool {
        &&& forall|k: ConnectionId| #[trigger] has_key(self.awaiting, k) ==> !has_key(self.conns, k)
        &&& forall|k: ConnectionId| #[trigger] has_key(self.incoming, k) ==> !has_key(self.conns, k)
        &&& forall|k: ConnectionId| !(#[trigger] has_key(self.awaiting, k) && has_key(self.incoming, k))
    }

    pub open spec fn is_live(self, k: ConnectionId) -> bool {
        has_key(self.conns, k)
    }

    /// The live connection a packet is for: the three readings of its
    /// `conn_id` are tried in turn.
    pub open spec fn route(self, h: PacketHeader, src: Peer) -> Option<ConnectionId> {
        let acc = cid_of(h.packet_type, h.conn_id, src, IdType::RecvId);
        let we = cid_of(h.packet_type, h.conn_id, src, IdType::SendIdWeInitiated);
        let them = cid_of(h.packet_type, h.conn_id, src, IdType::SendIdPeerInitiated);
        if self.is_live(acc) {
            Some(acc)
        } else if self.is_live(we) {
            Some(we)
        } else if self.is_live(them) {
            Some(them)
        } else {
            None
        }
    }

    /// The reply to a packet of no connection: none to a RESET or a SYN.
    pub open spec fn reset_for(h: PacketHeader, now_micros: u32, seq: u16) -> ResetPacket {
        ResetPacket { conn_id: h.conn_id, seq_num: seq, timestamp_micros: now_micros, wnd_size: RESET_WND_SIZE }
    }

    /// The step on a packet `h` (carried as `packet`) from `src`; `seq` is the
    /// sequence number a RESET would carry.
    pub open spec fn datagram(self, h: PacketHeader, src: Peer, packet: T, now_micros: u32, seq: u16) -> (Self, Inbound<A, T>) {
        match self.route(h, src) {
            Some(k) => (self, Inbound::Deliver { cid: k, packet }),
            None => if h.packet_type == PacketType::Syn {
                let k = cid_of(h.packet_type, h.conn_id, src, IdType::RecvId);
                if has_key(self.awaiting, k) {
                    let i = index_of(self.awaiting, k);
                    let (a, c) = self.awaiting[i].1;
                    (
                        MuxState { conns: self.conns.push((k, c)), awaiting: self.awaiting.remove(i), incoming: self.incoming },
                        Inbound::Start { cid: k, accept: a, syn: packet },
                    )
                } else if has_key(self.incoming, k) {
                    let i = index_of(self.incoming, k);
                    (
                        MuxState { incoming: self.incoming.remove(i).push((k, packet)), ..self },
                        Inbound::Buffered { cid: k },
                    )
                } else {
                    (MuxState { incoming: self.incoming.push((k, packet)), ..self }, Inbound::Buffered { cid: k })
                }
            } else if h.packet_type == PacketType::Reset {
                (self, Inbound::Dropped)
            } else {
                (self, Inbound::Reset { reply: Self::reset_for(h, now_micros, seq), dst: src })
            },
        }
    }

    /// Starting connection `k` from `syn` for acceptor `a` with channel `c`.
    pub open spec fn start(self, k: ConnectionId, a: A, c: C, syn: T) -> (Self, AcceptOutcome<A, T, C>) {
        if self.is_live(k) {
            (self, AcceptOutcome::Unavailable { cid: k, accept: a })
        } else {
            (MuxState { conns: self.conns.push((k, c)), ..self }, AcceptOutcome::Started { cid: k, accept: a, syn })
        }
    }

    /// The step on an acceptor for key `k`.
    pub open spec fn accept_with_cid(self, k: ConnectionId, a: A, c: C) -> (Self, AcceptOutcome<A, T, C>) {
        if has_key(self.incoming, k) {
            let i = index_of(self.incoming, k);
            MuxState { incoming: self.incoming.remove(i), ..self }.start(k, a, c, self.incoming[i].1)
        } else if has_key(self.awaiting, k) {
            let i = index_of(self.awaiting, k);
            (
                MuxState { awaiting: self.awaiting.remove(i).push((k, (a, c))), ..self },
                AcceptOutcome::Parked { cid: k, displaced: Some(self.awaiting[i].1.0) },
            )
        } else {
            (
                MuxState { awaiting: self.awaiting.push((k, (a, c))), ..self },
                AcceptOutcome::Parked { cid: k, displaced: None },
            )
        }
    }

    /// The step on an acceptor for any key: it takes the oldest buffered SYN.
    pub open spec fn accept(self, a: A, c: C) -> (Self, AcceptOutcome<A, T, C>) {
        if self.incoming.len() == 0 {
            (self, AcceptOutcome::NoSyn { accept: a, chan: c })
        } else {
            MuxState { incoming: self.incoming.remove(0), ..self }.start(self.incoming[0].0, a, c, self.incoming[0].1)
        }
    }

    /// The step on an outbound connection for key `k` with channel `c`.
    pub open spec fn connect_with_cid(self, k: ConnectionId, c: C) -> (Self, Result<(), SocketError>) {
        if self.is_live(k) {
            (self, Err(SocketError::ConnectionIdUnavailable))
        } else {
            (MuxState { conns: self.conns.push((k, c)), ..self }, Ok(()))
        }
    }

    /// The step on the shutdown of connection `k`.
    pub open spec fn shutdown(self, k: ConnectionId) -> (Self, Option<C>) {
        if self.is_live(k) {
            let i = index_of(self.conns, k);
            (MuxState { conns: self.conns.remove(i), ..self }, Some(self.conns[i].1))
        } else {
            (self, None)
        }
    }

    /// The step on the expiry of the acceptor parked under `k`.
    pub open spec fn awaiting_expired(self, k: ConnectionId) -> (Self, Option<A>) {
        if has_key(self.awaiting, k) {
            let i = index_of(self.awaiting, k);
            (MuxState { awaiting: self.awaiting.remove(i), ..self }, Some(self.awaiting[i].1.0))
        } else {
            (self, None)
        }
    }

    /// The step on the expiry of the SYN buffered under `k`.
    pub open spec fn incoming_expired(self, k: ConnectionId) -> (Self, Option<T>) {
        if has_key(self.incoming, k) {
            let i = index_of(self.incoming, k);
            (MuxState { incoming: self.incoming.remove(i), ..self }, Some(self.incoming[i].1))
        } else {
            (self, None)
        }
    }

    /// Every key of `peer` in the role given has a live connection.
    pub open spec fn cid_space_full(self, peer: Peer, is_initiator: bool) -> bool {
        forall|recv: u16| #[trigger] self.is_live(cid_for_recv(peer, is_initiator, recv))
    }

    /// `r` is what a request for a fresh key of `peer` may return.
    pub open spec fn fresh_cid(self, peer: Peer, is_initiator: bool, r: Option<ConnectionId>) -> bool {
        match r {
            Some(k) => !self.is_live(k) && exists|recv: u16| k == #[trigger] cid_for_recv(peer, is_initiator, recv),
            None => self.cid_space_full(peer, is_initiator),
        }
    }
}

/// Relies on rand::random: a uniformly drawn u16. Nothing is known of which.
#[verifier::external_body]
fn random_u16() -> (r: u16) {
    rand::random::<u16>()
}

/// The multiplexer's tables. `C` is a connection's ingress channel, `A` an
/// acceptor's reply slot, `T` a decoded packet.
pub struct UtpSocket<C, A, T> {
    conns: Vec<(ConnectionId, C)>,
    awaiting: Vec<(ConnectionId, (A, C))>,
    incoming: Vec<(ConnectionId, T)>,
}

impl<C, A, T> View for UtpSocket<C, A, T> {
    type V = MuxState<C, A, T>;

    closed spec fn view(&self) -> MuxState<C, A, T> {
        MuxState { conns: self.conns@, awaiting: self.awaiting@, incoming: self.incoming@ }
    }
}

impl<C, A, T> UtpSocket<C, A, T> {
    /// A multiplexer with no connection, acceptor or buffered SYN.
    pub fn new() -> (r: Self)
        ensures
            r@.wf(),
            r@.pending_disjoint(),
            r@.conns.len() == 0,
            r@.awaiting.len() == 0,
            r@.incoming.len() == 0,
    {
        UtpSocket { conns: Vec::new(), awaiting: Vec::new(), incoming: Vec::new() }
    }

    /// The number of live connections.
    pub fn num_connections(&self) -> (r: usize)
        ensures
            r == self@.conns.len(),
    {
        self.conns.len()
    }

    /// Whether a SYN is buffered, so that `accept` can be served.
    pub fn has_incoming(&self) -> (r: bool)
        ensures
            r == (self@.incoming.len() > 0),
    {
        self.incoming.len() > 0
    }

    /// Whether `cid` is the key of a live connection.
    pub fn is_live(&self, cid: &ConnectionId) -> (r: bool)
        ensures
            r == self@.is_live(*cid),
    {
        contains_key(&self.conns, cid)
    }

    /// The ingress channel of live connection `cid`.
    pub fn channel(&self, cid: &ConnectionId) -> (r: Option<&C>)
        requires
            self@.wf(),
        ensures
            match r {
                Some(c) => self@.is_live(*cid) && *c == self@.conns[index_of(self@.conns, *cid)].1,
                None => !self@.is_live(*cid),
            },
    {
        match find_key(&self.conns, cid) {
            Some(i) => {
                proof {
                    lemma_index_of(self@.conns, *cid, i as int);
                }
                Some(&self.conns[i].1)
            },
            None => None,
        }
    }

    /// Routes a packet `header` (carried as `packet`) received from `src`;
    /// a RESET sent in answer carries `seq` and `now_micros`.
    pub fn on_datagram_with(&mut self, header: PacketHeader, src: Peer, packet: T, now_micros: u32, seq: u16) -> (r: Inbound<A, T>)
        requires
            old(self)@.wf(),
        ensures
            final(self)@.wf(),
            (final(self)@, r) == old(self)@.datagram(header, src, packet, now_micros, seq),
    {
        let acc = cid_from_packet(&header, &src, IdType::RecvId);
        let we = cid_from_packet(&header, &src, IdType::SendIdWeInitiated);
        let them = cid_from_packet(&header, &src, IdType::SendIdPeerInitiated);
        if contains_key(&self.conns, &acc) {
            return Inbound::Deliver { cid: acc, packet };
        }
        if contains_key(&self.conns, &we) {
            return Inbound::Deliver { cid: we, packet };
        }
        if contains_key(&self.conns, &them) {
            return Inbound::Deliver { cid: them, packet };
        }
        match header.packet_type {
            PacketType::Syn => {
                match find_key(&self.awaiting, &acc) {
                    Some(i) => {
                        proof {
                            lemma_index_of(self.awaiting@, acc, i as int);
                            lemma_remove(self.awaiting@, i as int);
                        }
                        let (_key, (accept, chan)) = self.awaiting.remove(i);
                        proof {
                            lemma_push(self.conns@, (acc, chan));
                        }
                        self.conns.push((acc, chan));
                        Inbound::Start { cid: acc, accept, syn: packet }
                    },
                    None => {
                        match find_key(&self.incoming, &acc) {
                            Some(i) => {
                                proof {
                                    lemma_index_of(self.incoming@, acc, i as int);
                                    lemma_remove(self.incoming@, i as int);
                                }
                                let _stale = self.incoming.remove(i);
                                proof {
                                    lemma_push(self.incoming@, (acc, packet));
                                }
                                self.incoming.push((acc, packet));
                            },
                            None => {
                                proof {
                                    lemma_push(self.incoming@, (acc, packet));
                                }
                                self.incoming.push((acc, packet));
                            },
                        }
                        Inbound::Buffered { cid: acc }
                    },
                }
            },
            PacketType::Reset => Inbound::Dropped,
            _ => {
                let reply = ResetPacket {
                    conn_id: header.conn_id,
                    seq_num: seq,
                    timestamp_micros: now_micros,
                    wnd_size: RESET_WND_SIZE,
                };
                Inbound::Reset { reply, dst: src }
            },
        }
    }

    /// Routes a packet as `on_datagram_with` does, a RESET in answer
    /// carrying a random sequence number.
    pub fn on_datagram(&mut self, header: PacketHeader, src: Peer, packet: T, now_micros: u32) -> (r: Inbound<A, T>)
        requires
            old(self)@.wf(),
        ensures
            final(self)@.wf(),
            exists|seq: u16| (final(self)@, r) == #[trigger] old(self)@.datagram(header, src, packet, now_micros, seq),
    {
        let seq = random_u16();
        self.on_datagram_with(header, src, packet, now_micros, seq)
    }

    /// Starts connection `cid` from `syn` unless it is live already.
    fn start(&mut self, cid: ConnectionId, accept: A, chan: C, syn: T) -> (r: AcceptOutcome<A, T, C>)
        requires
            old(self)@.wf(),
        ensures
            final(self)@.wf(),
            (final(self)@, r) == old(self)@.start(cid, accept, chan, syn),
    {
        if contains_key(&self.conns, &cid) {
            AcceptOutcome::Unavailable { cid, accept }
        } else {
            proof {
                lemma_push(self.conns@, (cid, chan));
            }
            self.conns.push((cid, chan));
            AcceptOutcome::Started { cid, accept, syn }
        }
    }

    /// Serves an acceptor for key `cid` with reply slot `accept`, `chan`
    /// being the ingress channel of the connection it would start: a SYN
    /// buffered under `cid` is taken at once, else the acceptor is parked.
    pub fn accept_with_cid(&mut self, cid: ConnectionId, accept: A, chan: C) -> (r: AcceptOutcome<A, T, C>)
        requires
            old(self)@.wf(),
        ensures
            final(self)@.wf(),
            (final(self)@, r) == old(self)@.accept_with_cid(cid, accept, chan),
    {
        match find_key(&self.incoming, &cid) {
            Some(i) => {
                proof {
                    lemma_index_of(self.incoming@, cid, i as int);
                    lemma_remove(self.incoming@, i as int);
                }
                let (_key, syn) = self.incoming.remove(i);
                self.start(cid, accept, chan, syn)
            },
            None => {
                match find_key(&self.awaiting, &cid) {
                    Some(i) => {
                        proof {
                            lemma_index_of(self.awaiting@, cid, i as int);
                            lemma_remove(self.awaiting@, i as int);
                        }
                        let (_key, (displaced, _old_chan)) = self.awaiting.remove(i);
                        proof {
                            lemma_push(self.awaiting@, (cid, (accept, chan)));
                        }
                        self.awaiting.push((cid, (accept, chan)));
                        AcceptOutcome::Parked { cid, displaced: Some(displaced) }
                    },
                    None => {
                        proof {
                            lemma_push(self.awaiting@, (cid, (accept, chan)));
                        }
                        self.awaiting.push((cid, (accept, chan)));
                        AcceptOutcome::Parked { cid, displaced: None }
                    },
                }
            },
        }
    }

    /// Serves an acceptor with the oldest buffered SYN, if there is one.
    pub fn accept(&mut self, accept: A, chan: C) -> (r: AcceptOutcome<A, T, C>)
        requires
            old(self)@.wf(),
        ensures
            final(self)@.wf(),
            (final(self)@, r) == old(self)@.accept(accept, chan),
    {
        if self.incoming.len() == 0 {
            return AcceptOutcome::NoSyn { accept, chan };
        }
        proof {
            lemma_remove(self.incoming@, 0);
        }
        let (cid, syn) = self.incoming.remove(0);
        self.start(cid, accept, chan, syn)
    }

    /// Registers an outbound connection under the caller's key `cid`.
    pub fn connect_with_cid(&mut self, cid: ConnectionId, chan: C) -> (r: Result<(), SocketError>)
        requires
            old(self)@.wf(),
        ensures
            final(self)@.wf(),
            (final(self)@, r) == old(self)@.connect_with_cid(cid, chan),
    {
        if contains_key(&self.conns, &cid) {
            return Err(SocketError::ConnectionIdUnavailable);
        }
        proof {
            lemma_push(self.conns@, (cid, chan));
        }
        self.conns.push((cid, chan));
        Ok(())
    }

    /// Removes connection `cid`, handing back its channel.
    pub fn on_shutdown(&mut self, cid: &ConnectionId) -> (r: Option<C>)
        requires
            old(self)@.wf(),
        ensures
            final(self)@.wf(),
            (final(self)@, r) == old(self)@.shutdown(*cid),
    {
        match find_key(&self.conns, cid) {
            Some(i) => {
                proof {
                    lemma_index_of(self.conns@, *cid, i as int);
                    lemma_remove(self.conns@, i as int);
                }
                let (_key, chan) = self.conns.remove(i);
                Some(chan)
            },
            None => None,
        }
    }

    /// Removes the acceptor parked under `cid`, handing it back to be
    /// answered with a timeout.
    pub fn on_awaiting_expired(&mut self, cid: &ConnectionId) -> (r: Option<A>)
        requires
            old(self)@.wf(),
        ensures
            final(self)@.wf(),
            (final(self)@, r) == old(self)@.awaiting_expired(*cid),
    {
        match find_key(&self.awaiting, cid) {
            Some(i) => {
                proof {
                    lemma_index_of(self.awaiting@, *cid, i as int);
                    lemma_remove(self.awaiting@, i as int);
                }
                let (_key, (accept, _chan)) = self.awaiting.remove(i);
                Some(accept)
            },
            None => None,
        }
    }

    /// Removes the SYN buffered under `cid`.
    pub fn on_incoming_expired(&mut self, cid: &ConnectionId) -> (r: Option<T>)
        requires
            old(self)@.wf(),
        ensures
            final(self)@.wf(),
            (final(self)@, r) == old(self)@.incoming_expired(*cid),
    {
        match find_key(&self.incoming, cid) {
            Some(i) => {
                proof {
                    lemma_index_of(self.incoming@, *cid, i as int);
                    lemma_remove(self.incoming@, i as int);
                }
                let (_key, syn) = self.incoming.remove(i);
                Some(syn)
            },
            None => None,
        }
    }

    /// Takes every live connection out, for the channels to be told to shut
    /// down.
    pub fn close(&mut self) -> (r: Vec<(ConnectionId, C)>)
        requires
            old(self)@.wf(),
        ensures
            final(self)@.wf(),
            r@ == old(self)@.conns,
            final(self)@.conns.len() == 0,
            final(self)@.awaiting == old(self)@.awaiting,
            final(self)@.incoming == old(self)@.incoming,
    {
        let mut taken: Vec<(ConnectionId, C)> = Vec::new();
        core::mem::swap(&mut taken, &mut self.conns);
        taken
    }

    /// The first key of `peer` in the given role, by receive id, that no
    /// live connection holds.
    pub fn first_free_cid(&self, peer: Peer, is_initiator: bool) -> (r: Option<ConnectionId>)
        ensures
            self@.fresh_cid(peer, is_initiator, r),
    {
        let mut recv: u32 = 0;
        while recv < 0x10000
            invariant
                recv <= 0x10000,
                forall|x: u16| (x as u32) < recv ==> #[trigger] self@.is_live(cid_for_recv(peer, is_initiator, x)),
            decreases 0x10000 - recv,
        {
            let k = cid_with_recv(peer, is_initiator, recv as u16);
            if !contains_key(&self.conns, &k) {
                return Some(k);
            }
            recv = recv + 1;
        }
        None
    }

    /// A key of `peer` in the given role that no live connection holds,
    /// its receive id drawn at random; `None` only where every key is taken.
    /// Nothing is reserved.
    pub fn cid(&self, peer: Peer, is_initiator: bool) -> (r: Option<ConnectionId>)
        ensures
            self@.fresh_cid(peer, is_initiator, r),
    {
        let mut draws: u32 = 0;
        while draws < CID_RANDOM_DRAWS
            decreases CID_RANDOM_DRAWS - draws,
        {
            let recv = random_u16();
            let k = cid_with_recv(peer, is_initiator, recv);
            if !contains_key(&self.conns, &k) {
                return Some(k);
            }
            draws = draws + 1;
        }
        self.first_free_cid(peer, is_initiator)
    }

    /// Registers an outbound connection to `peer` under a fresh initiator key.
    pub fn connect(&mut self, peer: Peer, chan: C) -> (r: Option<ConnectionId>)
        requires
            old(self)@.wf(),
        ensures
            final(self)@.wf(),
            old(self)@.fresh_cid(peer, true, r),
            match r {
                Some(k) => final(self)@ == (MuxState { conns: old(self)@.conns.push((k, chan)), ..old(self)@ }),
                None => final(self)@ == old(self)@,
            },
    {
        match self.cid(peer, true) {
            Some(k) => {
                proof {
                    lemma_push(self.conns@, (k, chan));
                }
                self.conns.push((k, chan));
                Some(k)
            },
            None => None,
        }
    }
}

} // verus!
