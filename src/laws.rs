use vstd::prelude::*;

use crate::cid::{cid_of, inc16, make_cid, ConnectionId, IdType, PacketHeader, PacketType, Peer};
use crate::keyed::{has_key, index_of, lemma_has_index, lemma_index_of, lemma_push, lemma_remove};
use crate::socket::{AcceptOutcome, Inbound, MuxState, ResetPacket, SocketError, RESET_WND_SIZE};

verus! {

/// In a well-formed state each live key has exactly one entry in the
/// registry.
pub proof fn lemma_live_entry_unique<C, A, T>(s: MuxState<C, A, T>, k: ConnectionId)
    requires
        s.wf(),
        s.is_live(k),
    ensures
        exists|i: int| 0 <= i < s.conns.len() && s.conns[i].0 == k
            && forall|j: int| 0 <= j < s.conns.len() && (#[trigger] s.conns[j]).0 == k ==> j == i,
{
    lemma_has_index(s.conns, k);
    let i = index_of(s.conns, k);
    assert(forall|j: int| 0 <= j < s.conns.len() && (#[trigger] s.conns[j]).0 == k ==> j == i);
}

/// Routing a packet keeps every parked or buffered key off the registry.
pub proof fn lemma_datagram_keeps_pending_disjoint<C, A, T>(
    s: MuxState<C, A, T>,
    h: PacketHeader,
    src: Peer,
    packet: T,
    now_micros: u32,
    seq: u16,
)
    requires
        s.wf(),
        s.pending_disjoint(),
    ensures
        s.datagram(h, src, packet, now_micros, seq).0.pending_disjoint(),
{
    let k = cid_of(h.packet_type, h.conn_id, src, IdType::RecvId);
    if s.route(h, src).is_none() && h.packet_type == PacketType::Syn {
        if has_key(s.awaiting, k) {
            let i = index_of(s.awaiting, k);
            lemma_has_index(s.awaiting, k);
            lemma_remove(s.awaiting, i);
            lemma_push(s.conns, (k, s.awaiting[i].1.1));
        } else if has_key(s.incoming, k) {
            let i = index_of(s.incoming, k);
            lemma_has_index(s.incoming, k);
            lemma_remove(s.incoming, i);
            lemma_push(s.incoming.remove(i), (k, packet));
        } else {
            lemma_push(s.incoming, (k, packet));
        }
    }
}

/// Serving an acceptor for a key that is not live keeps every parked or
/// buffered key off the registry.
pub proof fn lemma_accept_with_cid_keeps_pending_disjoint<C, A, T>(
    s: MuxState<C, A, T>,
    k: ConnectionId,
    a: A,
    c: C,
)
    requires
        s.wf(),
        s.pending_disjoint(),
        !s.is_live(k),
    ensures
        s.accept_with_cid(k, a, c).0.pending_disjoint(),
{
    if has_key(s.incoming, k) {
        let i = index_of(s.incoming, k);
        lemma_has_index(s.incoming, k);
        lemma_remove(s.incoming, i);
        lemma_push(s.conns, (k, c));
    } else if has_key(s.awaiting, k) {
        let i = index_of(s.awaiting, k);
        lemma_has_index(s.awaiting, k);
        lemma_remove(s.awaiting, i);
        lemma_push(s.awaiting.remove(i), (k, (a, c)));
    } else {
        lemma_push(s.awaiting, (k, (a, c)));
    }
}

/// Serving an acceptor with a buffered SYN keeps every parked or buffered
/// key off the registry.
pub proof fn lemma_accept_keeps_pending_disjoint<C, A, T>(s: MuxState<C, A, T>, a: A, c: C)
    requires
        s.wf(),
        s.pending_disjoint(),
    ensures
        s.accept(a, c).0.pending_disjoint(),
        s.incoming.len() > 0 ==> s.accept(a, c).1 is Started,
{
    if s.incoming.len() > 0 {
        let k = s.incoming[0].0;
        assert(has_key(s.incoming, k));
        assert(!s.is_live(k));
        lemma_remove(s.incoming, 0);
        lemma_push(s.conns, (k, c));
    }
}

/// Shutting a connection down or expiring an entry keeps every parked or
/// buffered key off the registry.
pub proof fn lemma_removals_keep_pending_disjoint<C, A, T>(s: MuxState<C, A, T>, k: ConnectionId)
    requires
        s.wf(),
        s.pending_disjoint(),
    ensures
        s.shutdown(k).0.pending_disjoint(),
        s.awaiting_expired(k).0.pending_disjoint(),
        s.incoming_expired(k).0.pending_disjoint(),
{
    if s.is_live(k) {
        lemma_has_index(s.conns, k);
        lemma_remove(s.conns, index_of(s.conns, k));
    }
    if has_key(s.awaiting, k) {
        lemma_has_index(s.awaiting, k);
        lemma_remove(s.awaiting, index_of(s.awaiting, k));
    }
    if has_key(s.incoming, k) {
        lemma_has_index(s.incoming, k);
        lemma_remove(s.incoming, index_of(s.incoming, k));
    }
}

/// Registering an outbound connection under a key that is neither parked
/// nor buffered keeps every parked or buffered key off the registry.
pub proof fn lemma_connect_keeps_pending_disjoint<C, A, T>(s: MuxState<C, A, T>, k: ConnectionId, c: C)
    requires
        s.wf(),
        s.pending_disjoint(),
        !has_key(s.awaiting, k),
        !has_key(s.incoming, k),
    ensures
        s.connect_with_cid(k, c).0.pending_disjoint(),
{
    if !s.is_live(k) {
        lemma_push(s.conns, (k, c));
    }
}

/// A packet whose receive-side key is live goes to that connection, a SYN
/// included, and no table changes.
pub proof fn lemma_live_packet_delivered<C, A, T>(
    s: MuxState<C, A, T>,
    h: PacketHeader,
    src: Peer,
    packet: T,
    now_micros: u32,
    seq: u16,
)
    requires
        s.is_live(cid_of(h.packet_type, h.conn_id, src, IdType::RecvId)),
    ensures
        s.datagram(h, src, packet, now_micros, seq) == (
        s,
        Inbound::<A, T>::Deliver { cid: cid_of(h.packet_type, h.conn_id, src, IdType::RecvId), packet },
        ),
{
}

/// A SYN with `conn_id` c from `src` that no live connection takes is keyed
/// `(c, c + 1, src)`, whether a parked acceptor takes it or it is buffered.
pub proof fn lemma_syn_keyed<C, A, T>(
    s: MuxState<C, A, T>,
    h: PacketHeader,
    src: Peer,
    packet: T,
    now_micros: u32,
    seq: u16,
)
    requires
        h.packet_type == PacketType::Syn,
        s.route(h, src).is_none(),
    ensures
        match s.datagram(h, src, packet, now_micros, seq).1 {
            Inbound::Start { cid, .. } => cid == make_cid(h.conn_id, inc16(h.conn_id), src),
            Inbound::Buffered { cid } => cid == make_cid(h.conn_id, inc16(h.conn_id), src),
            _ => false,
        },
{
}

/// A packet other than a SYN or a RESET that no live connection takes is
/// answered by exactly one RESET, sent to its source with its `conn_id`.
pub proof fn lemma_stray_packet_reset<C, A, T>(
    s: MuxState<C, A, T>,
    h: PacketHeader,
    src: Peer,
    packet: T,
    now_micros: u32,
    seq: u16,
)
    requires
        h.packet_type != PacketType::Syn,
        h.packet_type != PacketType::Reset,
        s.route(h, src).is_none(),
    ensures
        s.datagram(h, src, packet, now_micros, seq) == (
        s,
        Inbound::<A, T>::Reset {
            reply: ResetPacket { conn_id: h.conn_id, seq_num: seq, timestamp_micros: now_micros, wnd_size: RESET_WND_SIZE },
            dst: src,
        },
        ),
{
}

/// A RESET that no live connection takes is answered by nothing.
pub proof fn lemma_stray_reset_dropped<C, A, T>(
    s: MuxState<C, A, T>,
    h: PacketHeader,
    src: Peer,
    packet: T,
    now_micros: u32,
    seq: u16,
)
    requires
        h.packet_type == PacketType::Reset,
        s.route(h, src).is_none(),
    ensures
        s.datagram(h, src, packet, now_micros, seq) == (s, Inbound::<A, T>::Dropped),
{
}

/// A key offered by `cid` can be claimed by `connect_with_cid` as long as no
/// connection has taken it since; once one has, the claim is refused with
/// `ConnectionIdUnavailable` and nothing changes.
pub proof fn lemma_offered_cid_claimable<C, A, T>(
    s0: MuxState<C, A, T>,
    peer: Peer,
    k: ConnectionId,
    s1: MuxState<C, A, T>,
    c: C,
)
    requires
        s0.fresh_cid(peer, true, Some(k)),
    ensures
        s0.connect_with_cid(k, c).1 == Ok::<(), SocketError>(()),
        s1.connect_with_cid(k, c).1 is Ok <==> !s1.is_live(k),
        s1.is_live(k) ==> s1.connect_with_cid(k, c) == (s1, Err::<(), SocketError>(SocketError::ConnectionIdUnavailable)),
{
}

/// An acceptor for a key is either handed back at once, to be answered, or
/// parked as the newest entry under that key; an acceptor it displaces is
/// the one that was parked under that key, and is handed back.
pub proof fn lemma_acceptor_kept<C, A, T>(s: MuxState<C, A, T>, k: ConnectionId, a: A, c: C)
    requires
        s.wf(),
    ensures
        match s.accept_with_cid(k, a, c).1 {
            AcceptOutcome::Started { cid, accept, .. } => cid == k && accept == a
                && s.accept_with_cid(k, a, c).0.awaiting == s.awaiting,
            AcceptOutcome::Unavailable { cid, accept } => cid == k && accept == a
                && s.accept_with_cid(k, a, c).0.awaiting == s.awaiting,
            AcceptOutcome::Parked { cid, displaced } => cid == k
                && s.accept_with_cid(k, a, c).0.awaiting.last() == (k, (a, c))
                && match displaced {
                    Some(d) => has_key(s.awaiting, k) && s.awaiting[index_of(s.awaiting, k)].1.0 == d
                        && s.accept_with_cid(k, a, c).0.awaiting.len() == s.awaiting.len(),
                    None => !has_key(s.awaiting, k)
                        && s.accept_with_cid(k, a, c).0.awaiting.len() == s.awaiting.len() + 1,
                },
            AcceptOutcome::NoSyn { .. } => false,
        },
{
    if !has_key(s.incoming, k) && has_key(s.awaiting, k) {
        lemma_has_index(s.awaiting, k);
    }
}

/// An acceptor leaves the parked ones only by being handed back: to start
/// a connection when its SYN comes, or to be answered when it expires.
pub proof fn lemma_parked_acceptor_handed_back<C, A, T>(
    s: MuxState<C, A, T>,
    h: PacketHeader,
    src: Peer,
    packet: T,
    now_micros: u32,
    seq: u16,
    k: ConnectionId,
)
    requires
        s.wf(),
    ensures
        match s.datagram(h, src, packet, now_micros, seq).1 {
            Inbound::Start { cid, accept, .. } => has_key(s.awaiting, cid)
                && s.awaiting[index_of(s.awaiting, cid)].1.0 == accept
                && s.datagram(h, src, packet, now_micros, seq).0.awaiting
                    == s.awaiting.remove(index_of(s.awaiting, cid)),
            _ => s.datagram(h, src, packet, now_micros, seq).0.awaiting == s.awaiting,
        },
        match s.awaiting_expired(k).1 {
            Some(accept) => has_key(s.awaiting, k) && s.awaiting[index_of(s.awaiting, k)].1.0 == accept
                && s.awaiting_expired(k).0.awaiting == s.awaiting.remove(index_of(s.awaiting, k)),
            None => !has_key(s.awaiting, k) && s.awaiting_expired(k).0 == s,
        },
{
}

/// Parking an acceptor and then receiving the matching SYN ends where
/// receiving the SYN and then parking the acceptor does: the same
/// connection is started, for the same acceptor, from the same SYN.
pub proof fn lemma_accept_order_independent<C, A, T>(
    s: MuxState<C, A, T>,
    h: PacketHeader,
    src: Peer,
    packet: T,
    now_micros: u32,
    seq: u16,
    a: A,
    c: C,
)
    requires
        s.wf(),
        s.pending_disjoint(),
        h.packet_type == PacketType::Syn,
        s.route(h, src).is_none(),
        !has_key(s.awaiting, cid_of(h.packet_type, h.conn_id, src, IdType::RecvId)),
        !has_key(s.incoming, cid_of(h.packet_type, h.conn_id, src, IdType::RecvId)),
    ensures
        s.accept_with_cid(cid_of(h.packet_type, h.conn_id, src, IdType::RecvId), a, c).0.datagram(h, src, packet, now_micros, seq)
            == (
            MuxState { conns: s.conns.push((cid_of(h.packet_type, h.conn_id, src, IdType::RecvId), c)), ..s },
            Inbound::<A, T>::Start { cid: cid_of(h.packet_type, h.conn_id, src, IdType::RecvId), accept: a, syn: packet },
        ),
        s.datagram(h, src, packet, now_micros, seq).0.accept_with_cid(cid_of(h.packet_type, h.conn_id, src, IdType::RecvId), a, c)
            == (
            MuxState { conns: s.conns.push((cid_of(h.packet_type, h.conn_id, src, IdType::RecvId), c)), ..s },
            AcceptOutcome::<A, T, C>::Started { cid: cid_of(h.packet_type, h.conn_id, src, IdType::RecvId), accept: a, syn: packet },
        ),
{
    let k = cid_of(h.packet_type, h.conn_id, src, IdType::RecvId);
    let parked = s.awaiting.push((k, (a, c)));
    lemma_push(s.awaiting, (k, (a, c)));
    lemma_index_of(parked, k, s.awaiting.len() as int);
    assert(parked.remove(s.awaiting.len() as int) =~= s.awaiting);
    let buffered = s.incoming.push((k, packet));
    lemma_push(s.incoming, (k, packet));
    lemma_index_of(buffered, k, s.incoming.len() as int);
    assert(buffered.remove(s.incoming.len() as int) =~= s.incoming);
}

} // verus!
