//! Wire formats: the header fields the endpoint reads and writes, and the
//! trusted boundary to the `etherparse` crate.
//!
//! Inbound datagrams are parsed by `etherparse` into plain field records
//! (`Ipv4Meta`, `TcpMeta`); outbound segments are described by plain header
//! templates (`Ipv4Template`, `TcpTemplate`) and assembled, checksummed and
//! serialized by `etherparse`. The parse results and the serialized bytes are
//! functions of their inputs alone, so each is given an uninterpreted name
//! that the contracts of the rest of the crate speak of.

use vstd::prelude::*;

verus! {

/// IPv4 time-to-live on every outbound datagram.
pub const TTL: u8 = 64;

/// Serialized length of the IPv4 headers built here (no options).
pub const IPV4_HEADER_LEN: usize = 20;

/// Serialized length of the TCP headers built here (no options).
pub const TCP_HEADER_LEN: usize = 20;

/// Outbound scratch-buffer bound: payloads are truncated so that one
/// IPv4 + TCP datagram never exceeds this many bytes.
pub const MTU: usize = 1500;

/// IPv4 protocol number of TCP.
pub const PROTO_TCP: u8 = 6;

/// The fields of an inbound IPv4 header that the endpoint reads.
/// Addresses are big-endian 32-bit values.
#[derive(Clone, Copy, PartialEq, Eq, Structural, Debug)]
pub struct Ipv4Meta {
    pub src: u32,
    pub dst: u32,
    pub proto: u8,
    pub header_len: usize,
}

/// The fields of an inbound TCP header that the endpoint reads.
#[derive(Clone, Copy, PartialEq, Eq, Structural, Debug)]
pub struct TcpMeta {
    pub src_port: u16,
    pub dst_port: u16,
    pub seq: u32,
    pub ack_num: u32,
    pub wnd: u16,
    pub syn: bool,
    pub ack: bool,
    pub fin: bool,
    pub rst: bool,
    pub header_len: usize,
}

/// Outbound IPv4 header template: fixed addresses and TTL, plus the payload
/// length stamped before each emission.
#[derive(Clone, Copy, PartialEq, Eq, Structural, Debug)]
pub struct Ipv4Template {
    pub src: u32,
    pub dst: u32,
    pub ttl: u8,
    pub payload_len: u16,
}

/// Outbound TCP header template: fixed ports, plus the flag, sequence and
/// acknowledgment fields stamped before each emission.
#[derive(Clone, Copy, PartialEq, Eq, Structural, Debug)]
pub struct TcpTemplate {
    pub src_port: u16,
    pub dst_port: u16,
    pub seq: u32,
    pub ack_num: u32,
    pub wnd: u16,
    pub syn: bool,
    pub ack: bool,
    pub fin: bool,
    pub rst: bool,
}

/// What parsing a byte sequence as an IPv4 header yields; the result of
/// `etherparse::Ipv4HeaderSlice::from_slice` depends on the bytes alone.
pub uninterp spec fn ipv4_meta_of(b: Seq<u8>) -> Option<Ipv4Meta>;

/// What parsing a byte sequence as a TCP header yields; the result of
/// `etherparse::TcpHeaderSlice::from_slice` depends on the bytes alone.
pub uninterp spec fn tcp_meta_of(b: Seq<u8>) -> Option<TcpMeta>;

/// The serialized IPv4 + TCP datagram (checksums included) that `etherparse`
/// assembles from the two header templates and the payload; it depends on
/// those three values alone.
pub uninterp spec fn datagram_of(ip: Ipv4Template, tcp: TcpTemplate, payload: Seq<u8>) -> Seq<u8>;

/// Relies on `etherparse::Ipv4HeaderSlice::from_slice`: it accepts exactly the
/// slices that start with a well-formed fixed IPv4 header (version 4,
/// ihl >= 5, slice at least ihl * 4 bytes long), and its field accessors
/// (`source`, `destination`, `protocol`, `slice`) read the named header
/// fields, so the result is a function of the bytes alone and a parsed
/// header length is between 20 and 60 and within the input.
#[verifier::external_body]
pub(crate) fn parse_ipv4(b: &[u8]) -> (r: Option<Ipv4Meta>)
    ensures
        r == ipv4_meta_of(b@),
        r matches Some(m) ==> 20 <= m.header_len <= 60 && m.header_len <= b@.len(),
{
    match etherparse::Ipv4HeaderSlice::from_slice(b) {
        Err(_) => None,
        Ok(s) => Some(Ipv4Meta {
            src: u32::from_be_bytes(s.source()),
            dst: u32::from_be_bytes(s.destination()),
            proto: s.protocol().0,
            header_len: s.slice().len(),
        }),
    }
}

/// Relies on `etherparse::TcpHeaderSlice::from_slice`: it accepts exactly the
/// slices that start with a well-formed TCP header (data offset >= 5, slice
/// at least data_offset * 4 bytes long), and its field accessors read the
/// named header fields, so the result is a function of the bytes alone and a
/// parsed header length is between 20 and 60 and within the input.
#[verifier::external_body]
pub(crate) fn parse_tcp(b: &[u8]) -> (r: Option<TcpMeta>)
    ensures
        r == tcp_meta_of(b@),
        r matches Some(m) ==> 20 <= m.header_len <= 60 && m.header_len <= b@.len(),
{
    match etherparse::TcpHeaderSlice::from_slice(b) {
        Err(_) => None,
        Ok(s) => Some(TcpMeta {
            src_port: s.source_port(),
            dst_port: s.destination_port(),
            seq: s.sequence_number(),
            ack_num: s.acknowledgment_number(),
            wnd: s.window_size(),
            syn: s.syn(),
            ack: s.ack(),
            fin: s.fin(),
            rst: s.rst(),
            header_len: s.slice().len(),
        }),
    }
}

/// Relies on `etherparse` to assemble one outbound datagram:
/// `Ipv4Header::new` (which only fails for a payload length above 65515),
/// `TcpHeader::new` and its public flag and acknowledgment fields,
/// `TcpHeader::calc_checksum_ipv4` (the TCP checksum over the IPv4
/// pseudo-header, header and payload; it only fails for a payload above
/// 65515 bytes), and the `write` methods of both headers. The resulting
/// bytes are a function of the two templates and the payload alone.
#[verifier::external_body]
pub(crate) fn emit_datagram(ip: &Ipv4Template, tcp: &TcpTemplate, payload: &[u8]) -> (r: Vec<u8>)
    requires
        ip.payload_len <= 65515,
        payload@.len() <= 65515,
    ensures
        r@ == datagram_of(*ip, *tcp, payload@),
{
    let iph = etherparse::Ipv4Header::new(
        ip.payload_len, ip.ttl, etherparse::IpNumber::TCP,
        ip.src.to_be_bytes(), ip.dst.to_be_bytes()).unwrap();
    let mut tcph = etherparse::TcpHeader::new(tcp.src_port, tcp.dst_port, tcp.seq, tcp.wnd);
    tcph.acknowledgment_number = tcp.ack_num;
    tcph.syn = tcp.syn;
    tcph.ack = tcp.ack;
    tcph.fin = tcp.fin;
    tcph.rst = tcp.rst;
    tcph.checksum = tcph.calc_checksum_ipv4(&iph, payload).unwrap();
    let mut out: Vec<u8> = Vec::new();
    iph.write(&mut out).unwrap();
    tcph.write(&mut out).unwrap();
    out.extend_from_slice(payload);
    out
}

} // verus!
