use tcpcore::demux::{Demux, Quad};
use tcpcore::tcp::TCPState;

const PEER: [u8; 4] = [192, 168, 0, 2];
const LOCAL: [u8; 4] = [192, 168, 0, 1];

/// Build one complete IPv4+TCP datagram from the peer to the endpoint.
fn tcp_datagram(seq: u32, ack_num: u32, syn: bool, ack: bool, fin: bool, payload: &[u8]) -> Vec<u8> {
    let iph = etherparse::Ipv4Header::new(
        20 + payload.len() as u16,
        64,
        etherparse::IpNumber::TCP,
        PEER,
        LOCAL,
    )
    .expect("ip header");
    let mut tcph = etherparse::TcpHeader::new(45000, 80, seq, 4096);
    tcph.syn = syn;
    tcph.ack = ack;
    tcph.fin = fin;
    tcph.acknowledgment_number = ack_num;
    tcph.checksum = tcph.calc_checksum_ipv4(&iph, payload).expect("checksum");
    let mut out: Vec<u8> = Vec::new();
    iph.write(&mut out).expect("write ip");
    tcph.write(&mut out).expect("write tcp");
    out.extend_from_slice(payload);
    out
}

fn parse_out(bytes: &[u8]) -> (etherparse::Ipv4Header, etherparse::TcpHeader) {
    let iph = etherparse::Ipv4HeaderSlice::from_slice(bytes).expect("ipv4 parse");
    let ip_len = iph.slice().len();
    let tcph = etherparse::TcpHeaderSlice::from_slice(&bytes[ip_len..]).expect("tcp parse");
    (iph.to_header(), tcph.to_header())
}

#[test]
fn ingest_handshake_creates_connection() {
    let mut d = Demux::new();
    let syn = tcp_datagram(1000, 0, true, false, false, &[]);
    let reply = d.ingest(&syn, 500).expect("a SYN-ACK is emitted");
    let (_iph, tcph) = parse_out(&reply);
    assert!(tcph.syn && tcph.ack);
    assert_eq!(tcph.sequence_number, 500);
    assert_eq!(tcph.acknowledgment_number, 1001);
    assert_eq!(d.conns.len(), 1);
    assert_eq!(
        d.conns[0].0,
        Quad { src_ip: 0xC0A8_0002, src_port: 45000, dst_ip: 0xC0A8_0001, dst_port: 80 }
    );
    assert_eq!(d.conns[0].1.state, TCPState::SynRcvd);

    let ack = tcp_datagram(1001, 501, false, true, false, &[]);
    assert!(d.ingest(&ack, 500).is_none());
    assert_eq!(d.conns.len(), 1);
    assert_eq!(d.conns[0].1.state, TCPState::Estab);
    assert_eq!(d.conns[0].1.snd.una, 501);
}

#[test]
fn non_tcp_is_ignored_silently() {
    let mut d = Demux::new();
    let syn = tcp_datagram(1000, 0, true, false, false, &[]);
    d.ingest(&syn, 500).expect("handshake starts");
    let before = d.conns[0].1;

    // a UDP datagram (protocol 17) to the same hosts
    let iph = etherparse::Ipv4Header::new(12, 64, etherparse::IpNumber::UDP, PEER, LOCAL)
        .expect("ip header");
    let mut udp: Vec<u8> = Vec::new();
    iph.write(&mut udp).expect("write ip");
    udp.extend_from_slice(&[0u8; 12]);

    assert!(d.ingest(&udp, 999).is_none());
    assert_eq!(d.conns.len(), 1);
    assert_eq!(d.conns[0].1, before, "no connection state was touched");
}

#[test]
fn malformed_datagrams_are_dropped() {
    let mut d = Demux::new();
    assert!(d.ingest(&[], 1).is_none());
    assert!(d.ingest(&[0x45, 0x00, 0x01], 1).is_none());
    // version nibble 6 instead of 4
    let mut bad = tcp_datagram(1, 0, true, false, false, &[]);
    bad[0] = 0x65;
    assert!(d.ingest(&bad, 1).is_none());
    // IPv4 fine but the TCP header is cut short
    let cut = tcp_datagram(1, 0, true, false, false, &[]);
    assert!(d.ingest(&cut[..30], 1).is_none());
    assert_eq!(d.conns.len(), 0);
}

#[test]
fn non_syn_to_unknown_quad_is_dropped() {
    let mut d = Demux::new();
    let ack = tcp_datagram(1000, 77, false, true, false, &[]);
    assert!(d.ingest(&ack, 500).is_none());
    assert_eq!(d.conns.len(), 0);
}

#[test]
fn ingest_dispatches_to_the_right_connection() {
    let mut d = Demux::new();
    let syn = tcp_datagram(1000, 0, true, false, false, &[]);
    d.ingest(&syn, 500).expect("SYN-ACK");
    // same hosts, different source port: a second connection
    let iph = etherparse::Ipv4Header::new(20, 64, etherparse::IpNumber::TCP, PEER, LOCAL)
        .expect("ip header");
    let mut tcph = etherparse::TcpHeader::new(45001, 80, 3000, 4096);
    tcph.syn = true;
    tcph.checksum = tcph.calc_checksum_ipv4(&iph, &[]).expect("checksum");
    let mut syn2: Vec<u8> = Vec::new();
    iph.write(&mut syn2).expect("write ip");
    tcph.write(&mut syn2).expect("write tcp");
    d.ingest(&syn2, 600).expect("second SYN-ACK");
    assert_eq!(d.conns.len(), 2);

    // complete only the first handshake
    let ack = tcp_datagram(1001, 501, false, true, false, &[]);
    assert!(d.ingest(&ack, 0).is_none());
    assert_eq!(d.conns[0].1.state, TCPState::Estab);
    assert_eq!(d.conns[1].1.state, TCPState::SynRcvd);
}

#[test]
fn reap_removes_time_wait_connections() {
    let mut d = Demux::new();
    let syn = tcp_datagram(1000, 0, true, false, false, &[]);
    d.ingest(&syn, 500).expect("SYN-ACK");
    let ack = tcp_datagram(1001, 501, false, true, false, &[]);
    d.ingest(&ack, 0);
    // drive the connection through a local close to TIME_WAIT
    {
        let c = &mut d.conns[0].1;
        c.close().expect("FIN");
    }
    let ack_fin = tcp_datagram(1001, 502, false, true, false, &[]);
    d.ingest(&ack_fin, 0);
    let peer_fin = tcp_datagram(1001, 502, false, true, true, &[]);
    d.ingest(&peer_fin, 0).expect("the FIN is ACKed");
    assert_eq!(d.conns[0].1.state, TCPState::TimeWait);

    d.reap();
    assert_eq!(d.conns.len(), 0);

    // the quad is free again: a fresh SYN opens a new connection
    let syn2 = tcp_datagram(9000, 0, true, false, false, &[]);
    d.ingest(&syn2, 42).expect("SYN-ACK for the reused quad");
    assert_eq!(d.conns.len(), 1);
    assert_eq!(d.conns[0].1.state, TCPState::SynRcvd);
}

#[test]
fn reap_keeps_live_connections() {
    let mut d = Demux::new();
    let syn = tcp_datagram(1000, 0, true, false, false, &[]);
    d.ingest(&syn, 500).expect("SYN-ACK");
    d.reap();
    assert_eq!(d.conns.len(), 1);
}
