use vstd::prelude::*;

verus! {

/// The remote end of a connection: an address, held as plain values.
/// An IPv4 address sits in the low 32 bits of `ip` with `v6` false.
#[derive(PartialEq, Eq, Structural, Clone, Copy, Debug, Hash)]
pub struct Peer {
    pub ip: u128,
    pub port: u16,
    pub v6: bool,
}

/// The key of a connection at one endpoint.
#[derive(PartialEq, Eq, Structural, Clone, Copy, Debug, Hash)]
pub struct ConnectionId {
    pub send: u16,
    pub recv: u16,
    pub peer: Peer,
}

/// The five kinds of uTP packet.
#[derive(PartialEq, Eq, Structural, Clone, Copy, Debug, Hash)]
pub enum PacketType {
    Syn,
    State,
    Data,
    Fin,
    Reset,
}

/// The header fields of a decoded packet that the multiplexer reads.
#[derive(PartialEq, Eq, Structural, Clone, Copy, Debug)]
pub struct PacketHeader {
    pub packet_type: PacketType,
    pub conn_id: u16,
    pub seq_num: u16,
    pub ack_num: u16,
}

/// How the `conn_id` of a packet is read as a key of the registry.
#[derive(PartialEq, Eq, Structural, Clone, Copy, Debug)]
pub enum IdType {
    /// A connection we receive into.
    RecvId,
    /// A connection we initiated.
    SendIdWeInitiated,
    /// A connection the peer initiated.
    SendIdPeerInitiated,
}

/// `x + 1` modulo 2^16.
pub open spec fn inc16(x: u16) -> u16 {
    if x == u16::MAX {
        0u16
    } else {
        (x + 1) as u16
    }
}

/// `x - 1` modulo 2^16.
pub open spec fn dec16(x: u16) -> u16 {
    if x == 0 {
        u16::MAX
    } else {
        (x - 1) as u16
    }
}

pub open spec fn make_cid(send: u16, recv: u16, peer: Peer) -> ConnectionId {
    ConnectionId { send, recv, peer }
}

/// The key that a packet with the given type and `conn_id`, sent by `src`,
/// stands for under each reading.
pub open spec fn cid_of(packet_type: PacketType, conn_id: u16, src: Peer, id_type: IdType) -> ConnectionId {
    match id_type {
        IdType::RecvId => if packet_type == PacketType::Syn {
            make_cid(conn_id, inc16(conn_id), src)
        } else {
            make_cid(dec16(conn_id), conn_id, src)
        },
        IdType::SendIdWeInitiated => make_cid(inc16(conn_id), conn_id, src),
        IdType::SendIdPeerInitiated => make_cid(conn_id, dec16(conn_id), src),
    }
}

/// The key of a connection whose receive id is `recv`: an initiator sends
/// on `recv + 1`, a responder on `recv - 1`.
pub open spec fn cid_for_recv(peer: Peer, is_initiator: bool, recv: u16) -> ConnectionId {
    if is_initiator {
        make_cid(inc16(recv), recv, peer)
    } else {
        make_cid(dec16(recv), recv, peer)
    }
}

pub fn wrapping_inc(x: u16) -> (r: u16)
    ensures
        r == inc16(x),
{
    x.wrapping_add(1)
}

pub fn wrapping_dec(x: u16) -> (r: u16)
    ensures
        r == dec16(x),
{
    x.wrapping_sub(1)
}

/// The key that `packet`, received from `src`, stands for under `id_type`.
pub fn cid_from_packet(packet: &PacketHeader, src: &Peer, id_type: IdType) -> (r: ConnectionId)
    ensures
        r == cid_of(packet.packet_type, packet.conn_id, *src, id_type),
{
    let c = packet.conn_id;
    match id_type {
        IdType::RecvId => {
            let (send, recv) = match packet.packet_type {
                PacketType::Syn => (c, wrapping_inc(c)),
                PacketType::State | PacketType::Data | PacketType::Fin | PacketType::Reset => {
                    (wrapping_dec(c), c)
                },
            };
            ConnectionId { send, recv, peer: *src }
        },
        IdType::SendIdWeInitiated => ConnectionId { send: wrapping_inc(c), recv: c, peer: *src },
        IdType::SendIdPeerInitiated => ConnectionId { send: c, recv: wrapping_dec(c), peer: *src },
    }
}

/// The key of a connection with `peer` whose receive id is `recv`.
pub fn cid_with_recv(peer: Peer, is_initiator: bool, recv: u16) -> (r: ConnectionId)
    ensures
        r == cid_for_recv(peer, is_initiator, recv),
{
    let send = if is_initiator {
        wrapping_inc(recv)
    } else {
        wrapping_dec(recv)
    };
    ConnectionId { send, recv, peer }
}

/// An initiator whose receive id is the largest one sends on id zero.
pub proof fn lemma_initiator_send_wraps(peer: Peer)
    ensures
        cid_for_recv(peer, true, 0xFFFFu16).send == 0u16,
        cid_for_recv(peer, true, 0xFFFFu16).recv == 0xFFFFu16,
{
}

/// A SYN with `conn_id` c from `src` is received into the connection
/// `(c, c + 1, src)`.
pub proof fn lemma_syn_key(conn_id: u16, src: Peer)
    ensures
        cid_of(PacketType::Syn, conn_id, src, IdType::RecvId) == make_cid(conn_id, inc16(conn_id), src),
        inc16(conn_id) as int == (conn_id as int + 1) % 0x10000,
{
}

/// The two ids of a key made for a connection differ by one, modulo 2^16.
pub proof fn lemma_ids_adjacent(peer: Peer, is_initiator: bool, recv: u16)
    ensures
        is_initiator ==> cid_for_recv(peer, is_initiator, recv).send as int == (recv as int + 1) % 0x10000,
        !is_initiator ==> cid_for_recv(peer, is_initiator, recv).send as int == (recv as int + 0xFFFF) % 0x10000,
{
}

} // verus!
