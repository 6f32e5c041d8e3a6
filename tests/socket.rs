use utp_mux::cid::{cid_from_packet, cid_with_recv, ConnectionId, IdType, PacketHeader, PacketType, Peer};
use utp_mux::socket::{AcceptOutcome, Inbound, SocketError, UtpSocket, RESET_WND_SIZE};

type Socket = UtpSocket<u32, u32, PacketHeader>;

fn peer_a() -> Peer {
    Peer { ip: 0x7f00_0001, port: 3000, v6: false }
}

fn peer_b() -> Peer {
    Peer { ip: 0x7f00_0001, port: 3001, v6: false }
}

fn header(packet_type: PacketType, conn_id: u16) -> PacketHeader {
    PacketHeader { packet_type, conn_id, seq_num: 1, ack_num: 0 }
}

fn key(send: u16, recv: u16, peer: Peer) -> ConnectionId {
    ConnectionId { send, recv, peer }
}

#[test]
fn inbound_accept() {
    let mut s = Socket::new();
    let syn = header(PacketType::Syn, 42);
    match s.on_datagram(syn, peer_b(), syn, 0) {
        Inbound::Buffered { cid } => assert_eq!(cid, key(42, 43, peer_b())),
        _ => panic!("SYN was not buffered"),
    }
    assert!(s.has_incoming());
    match s.accept(1, 10) {
        AcceptOutcome::Started { cid, accept, syn: got } => {
            assert_eq!(cid, key(42, 43, peer_b()));
            assert_eq!(accept, 1);
            assert_eq!(got, syn);
        }
        _ => panic!("accept did not start a connection"),
    }
    assert_eq!(s.num_connections(), 1);
    assert_eq!(s.channel(&key(42, 43, peer_b())), Some(&10));
    assert!(!s.has_incoming());
}

#[test]
fn targeted_accept_syn_first() {
    let mut s = Socket::new();
    let syn = header(PacketType::Syn, 100);
    let k = key(100, 101, peer_b());
    assert!(matches!(s.on_datagram(syn, peer_b(), syn, 0), Inbound::Buffered { cid } if cid == k));
    match s.accept_with_cid(k, 7, 70) {
        AcceptOutcome::Started { cid, accept, .. } => {
            assert_eq!(cid, k);
            assert_eq!(accept, 7);
        }
        _ => panic!("accept_with_cid did not start a connection"),
    }
    assert!(s.is_live(&k));
}

#[test]
fn targeted_accept_acceptor_first_timeout() {
    let mut s = Socket::new();
    let k = key(5, 6, peer_b());
    assert!(matches!(s.accept_with_cid(k, 3, 30), AcceptOutcome::Parked { cid, displaced: None } if cid == k));
    assert_eq!(s.on_awaiting_expired(&k), Some(3));
    assert_eq!(s.on_awaiting_expired(&k), None);
    assert_eq!(s.num_connections(), 0);
}

#[test]
fn stray_data_triggers_reset() {
    let mut s = Socket::new();
    let data = header(PacketType::Data, 7);
    match s.on_datagram_with(data, peer_b(), data, 1234, 999) {
        Inbound::Reset { reply, dst } => {
            assert_eq!(reply.conn_id, 7);
            assert_eq!(reply.seq_num, 999);
            assert_eq!(reply.timestamp_micros, 1234);
            assert_eq!(reply.wnd_size, 100_000);
            assert_eq!(dst, peer_b());
        }
        _ => panic!("no reset"),
    }
    match s.on_datagram(data, peer_b(), data, 55) {
        Inbound::Reset { reply, dst } => {
            assert_eq!(reply.conn_id, 7);
            assert_eq!(reply.wnd_size, RESET_WND_SIZE);
            assert_eq!(dst, peer_b());
        }
        _ => panic!("no reset"),
    }
    assert_eq!(s.num_connections(), 0);
    assert!(!s.has_incoming());
}

#[test]
fn stray_state_and_fin_trigger_reset() {
    let mut s = Socket::new();
    for t in [PacketType::State, PacketType::Fin] {
        let p = header(t, 9);
        assert!(matches!(s.on_datagram_with(p, peer_b(), p, 0, 1), Inbound::Reset { reply, .. } if reply.conn_id == 9));
    }
}

#[test]
fn reset_never_met_with_reset() {
    let mut s = Socket::new();
    let reset = header(PacketType::Reset, 7);
    assert!(matches!(s.on_datagram(reset, peer_b(), reset, 0), Inbound::Dropped));
    assert_eq!(s.num_connections(), 0);
    assert!(!s.has_incoming());
}

#[test]
fn connect_with_cid_collision() {
    let mut s = Socket::new();
    let k = key(11, 10, peer_b());
    assert_eq!(s.connect_with_cid(k, 1), Ok(()));
    assert_eq!(s.connect_with_cid(k, 2), Err(SocketError::ConnectionIdUnavailable));
    assert_eq!(s.num_connections(), 1);
    assert_eq!(s.channel(&k), Some(&1));
}

#[test]
fn initiator_cid_wraps() {
    let k = cid_with_recv(peer_a(), true, 0xFFFF);
    assert_eq!(k.send, 0);
    assert_eq!(k.recv, 0xFFFF);
    let r = cid_with_recv(peer_a(), false, 0);
    assert_eq!(r.send, 0xFFFF);
    assert_eq!(r.recv, 0);
    let m = cid_with_recv(peer_a(), true, 500);
    assert_eq!((m.send, m.recv), (501, 500));
}

#[test]
fn cid_readings_of_packets() {
    let b = peer_b();
    let syn = header(PacketType::Syn, 42);
    let data = header(PacketType::Data, 42);
    assert_eq!(cid_from_packet(&syn, &b, IdType::RecvId), key(42, 43, b));
    assert_eq!(cid_from_packet(&data, &b, IdType::RecvId), key(41, 42, b));
    assert_eq!(cid_from_packet(&data, &b, IdType::SendIdWeInitiated), key(43, 42, b));
    assert_eq!(cid_from_packet(&data, &b, IdType::SendIdPeerInitiated), key(42, 41, b));
    let syn_max = header(PacketType::Syn, 0xFFFF);
    assert_eq!(cid_from_packet(&syn_max, &b, IdType::RecvId), key(0xFFFF, 0, b));
    let fin_zero = header(PacketType::Fin, 0);
    assert_eq!(cid_from_packet(&fin_zero, &b, IdType::RecvId), key(0xFFFF, 0, b));
    assert_eq!(cid_from_packet(&fin_zero, &b, IdType::SendIdPeerInitiated), key(0, 0xFFFF, b));
}

#[test]
fn duplicate_syn_goes_to_live_connection() {
    let mut s = Socket::new();
    let syn = header(PacketType::Syn, 42);
    let k = key(42, 43, peer_b());
    s.on_datagram(syn, peer_b(), syn, 0);
    assert!(matches!(s.accept(1, 10), AcceptOutcome::Started { .. }));
    match s.on_datagram(syn, peer_b(), syn, 0) {
        Inbound::Deliver { cid, .. } => assert_eq!(cid, k),
        _ => panic!("duplicate SYN was not delivered"),
    }
    assert!(!s.has_incoming());
    assert_eq!(s.num_connections(), 1);
}

#[test]
fn packets_reach_connections_of_either_role() {
    let mut s = Socket::new();
    let b = peer_b();
    // We initiated with recv 20, send 21: the peer writes 20 on the wire.
    s.connect_with_cid(key(21, 20, b), 1).unwrap();
    // The peer initiated: we receive on 31 and send on 30.
    s.connect_with_cid(key(30, 31, b), 2).unwrap();
    let to_ours = header(PacketType::State, 20);
    assert!(matches!(s.on_datagram(to_ours, b, to_ours, 0), Inbound::Deliver { cid, .. } if cid == key(21, 20, b)));
    let to_theirs = header(PacketType::Data, 31);
    assert!(matches!(s.on_datagram(to_theirs, b, to_theirs, 0), Inbound::Deliver { cid, .. } if cid == key(30, 31, b)));
    // The same ids from another peer belong to no connection.
    assert!(matches!(s.on_datagram(to_ours, peer_a(), to_ours, 0), Inbound::Reset { .. }));
}

#[test]
fn generated_cid_is_free_and_claimable_once() {
    let mut s = Socket::new();
    s.connect_with_cid(key(1, 0, peer_b()), 0).unwrap();
    let k = s.cid(peer_b(), true).unwrap();
    assert!(!s.is_live(&k));
    assert_eq!(k.peer, peer_b());
    assert_eq!(k.send, k.recv.wrapping_add(1));
    assert_eq!(s.num_connections(), 1);
    assert_eq!(s.connect_with_cid(k, 5), Ok(()));
    assert_eq!(s.connect_with_cid(k, 6), Err(SocketError::ConnectionIdUnavailable));
    let r = s.cid(peer_b(), false).unwrap();
    assert_eq!(r.send, r.recv.wrapping_sub(1));
}

#[test]
fn connect_registers_fresh_initiator_cid() {
    let mut s = Socket::new();
    let k1 = s.connect(peer_a(), 1).unwrap();
    let k2 = s.connect(peer_a(), 2).unwrap();
    assert_ne!(k1, k2);
    assert_eq!(k1.send, k1.recv.wrapping_add(1));
    assert_eq!(s.num_connections(), 2);
    assert_eq!(s.channel(&k1), Some(&1));
    assert_eq!(s.channel(&k2), Some(&2));
}

#[test]
fn first_free_cid_skips_live_keys() {
    let mut s = Socket::new();
    s.connect_with_cid(cid_with_recv(peer_a(), true, 0), 0).unwrap();
    s.connect_with_cid(cid_with_recv(peer_a(), true, 1), 0).unwrap();
    assert_eq!(s.first_free_cid(peer_a(), true), Some(cid_with_recv(peer_a(), true, 2)));
    assert_eq!(s.first_free_cid(peer_a(), false), Some(cid_with_recv(peer_a(), false, 0)));
}

#[test]
fn accept_order_does_not_matter() {
    let syn = header(PacketType::Syn, 300);
    let k = key(300, 301, peer_b());

    let mut first = Socket::new();
    assert!(matches!(first.accept_with_cid(k, 9, 90), AcceptOutcome::Parked { .. }));
    let started_first = match first.on_datagram(syn, peer_b(), syn, 0) {
        Inbound::Start { cid, accept, syn: got } => (cid, accept, got),
        _ => panic!("parked acceptor did not take the SYN"),
    };

    let mut second = Socket::new();
    assert!(matches!(second.on_datagram(syn, peer_b(), syn, 0), Inbound::Buffered { .. }));
    let started_second = match second.accept_with_cid(k, 9, 90) {
        AcceptOutcome::Started { cid, accept, syn: got } => (cid, accept, got),
        _ => panic!("acceptor did not take the buffered SYN"),
    };

    assert_eq!(started_first, started_second);
    assert_eq!(first.channel(&k), Some(&90));
    assert_eq!(second.channel(&k), Some(&90));
}

#[test]
fn accept_without_syn_hands_back() {
    let mut s = Socket::new();
    assert!(matches!(s.accept(4, 40), AcceptOutcome::NoSyn { accept: 4, chan: 40 }));
}

#[test]
fn accept_takes_oldest_syn() {
    let mut s = Socket::new();
    let first = header(PacketType::Syn, 1);
    let second = header(PacketType::Syn, 2);
    s.on_datagram(first, peer_a(), first, 0);
    s.on_datagram(second, peer_b(), second, 0);
    assert!(matches!(s.accept(1, 1), AcceptOutcome::Started { cid, .. } if cid == key(1, 2, peer_a())));
    assert!(matches!(s.accept(2, 2), AcceptOutcome::Started { cid, .. } if cid == key(2, 3, peer_b())));
}

#[test]
fn accept_on_live_cid_is_unavailable() {
    let mut s = Socket::new();
    let syn = header(PacketType::Syn, 50);
    let k = key(50, 51, peer_b());
    s.on_datagram(syn, peer_b(), syn, 0);
    s.connect_with_cid(k, 1).unwrap();
    assert!(matches!(s.accept(8, 80), AcceptOutcome::Unavailable { cid, accept: 8 } if cid == k));
    assert_eq!(s.channel(&k), Some(&1));
}

#[test]
fn second_acceptor_displaces_first() {
    let mut s = Socket::new();
    let k = key(60, 61, peer_b());
    s.accept_with_cid(k, 1, 10);
    assert!(matches!(s.accept_with_cid(k, 2, 20), AcceptOutcome::Parked { displaced: Some(1), .. }));
    assert_eq!(s.on_awaiting_expired(&k), Some(2));
}

#[test]
fn repeated_syn_replaces_buffered_one() {
    let mut s = Socket::new();
    let syn = header(PacketType::Syn, 70);
    let mut again = syn;
    again.seq_num = 2;
    s.on_datagram(syn, peer_b(), syn, 0);
    s.on_datagram(again, peer_b(), again, 0);
    assert_eq!(s.on_incoming_expired(&key(70, 71, peer_b())), Some(again));
    assert!(!s.has_incoming());
}

#[test]
fn shutdown_and_close() {
    let mut s = Socket::new();
    let k = key(3, 2, peer_a());
    s.connect_with_cid(k, 1).unwrap();
    s.connect_with_cid(key(5, 4, peer_a()), 2).unwrap();
    assert_eq!(s.on_shutdown(&k), Some(1));
    assert_eq!(s.on_shutdown(&k), None);
    assert_eq!(s.num_connections(), 1);
    let all = s.close();
    assert_eq!(all, vec![(key(5, 4, peer_a()), 2)]);
    assert_eq!(s.num_connections(), 0);
}

#[test]
fn flood_to_known_connection_leaves_accept_pairing() {
    let mut s = Socket::new();
    let b = peer_b();
    s.connect_with_cid(key(21, 20, b), 1).unwrap();
    let syn = header(PacketType::Syn, 400);
    s.on_datagram(syn, peer_a(), syn, 0);
    let data = header(PacketType::Data, 20);
    for _ in 0..1000 {
        assert!(matches!(s.on_datagram(data, b, data, 0), Inbound::Deliver { .. }));
    }
    assert!(matches!(s.accept(1, 11), AcceptOutcome::Started { cid, .. } if cid == key(400, 401, peer_a())));
}
