//! The per-connection TCP state machine and segment processor (RFC 793).
//!
//! A `Connection` owns the send and receive sequence spaces, the current
//! state, and the outbound header templates. `accept` creates a connection
//! from an inbound SYN, `continue_existing` runs the §3.3 segment gate,
//! `send` assembles an outbound segment, `send_rst` builds a reset, and
//! `close` starts a local graceful close.

use vstd::prelude::*;
use vstd::slice::slice_subrange;

use crate::seqnum::{
    is_between_wrapped, lemma_dist_add, lemma_dist_back_one, lemma_dist_split,
    lemma_dist_wrapping_add, seq_dist, spec_between_wrapped, SEQ_HALF, SEQ_MOD,
};
use crate::wire::{
    datagram_of, emit_datagram, Ipv4Meta, Ipv4Template, TcpMeta, TcpTemplate, MTU, TCP_HEADER_LEN,
    TTL,
};

verus! {

/// Send window advertised in every outbound segment.
pub const SND_WND: u16 = 1024;

/// Largest payload carried by one outbound segment: the scratch-buffer bound
/// minus the two headers built here.
pub const MAX_SEGMENT_DATA: usize = 1460;

/// Connection states, RFC 793 page 22. LISTEN and CLOSED are implicit: a
/// connection object exists only from SYN_RCVD onward.
#[derive(Clone, Copy, PartialEq, Eq, Structural, Debug)]
pub enum TCPState {
    SynRcvd,
    Estab,
    FinWait1,
    FinWait2,
    Closing,
    TimeWait,
}

impl TCPState {
    /// Both peers have exchanged and acknowledged SYNs: every state except
    /// SYN_RCVD.
    pub open spec fn spec_is_synchronised(self) -> bool {
        !(self is SynRcvd)
    }

    pub fn is_synchronised(&self) -> (r: bool)
        ensures
            r == self.spec_is_synchronised(),
    {
        match *self {
            TCPState::SynRcvd => false,
            TCPState::Estab | TCPState::FinWait1 | TCPState::FinWait2 | TCPState::Closing
            | TCPState::TimeWait => true,
        }
    }
}

/// Send sequence space (RFC 793 figure 4).
#[derive(Clone, Copy, PartialEq, Eq, Structural, Debug)]
pub struct SenSeqSpace {
    /// initial send sequence number
    pub iss: u32,
    /// send unacknowledged
    pub una: u32,
    /// send next
    pub nxt: u32,
    /// send window
    pub wnd: u16,
    /// send urgent flag
    pub up: bool,
    /// segment sequence number used for last window update
    pub wl1: u32,
    /// segment acknowledgment number used for last window update
    pub wl2: u32,
}

/// Receive sequence space (RFC 793 figure 5).
#[derive(Clone, Copy, PartialEq, Eq, Structural, Debug)]
pub struct RecvSeqSpace {
    /// initial receive sequence number
    pub irs: u32,
    /// receive next
    pub nxt: u32,
    /// receive window
    pub wnd: u16,
    /// receive urgent flag
    pub up: bool,
}

/// One TCP connection: state, the two sequence spaces, and the prebuilt
/// outbound IPv4 and TCP header templates.
#[derive(Clone, Copy, PartialEq, Eq, Structural, Debug)]
pub struct Connection {
    pub state: TCPState,
    pub snd: SenSeqSpace,
    pub recv: RecvSeqSpace,
    pub ip: Ipv4Template,
    pub tcp: TcpTemplate,
}

/// Segment length in sequence space: the payload plus one for SYN and one
/// for FIN (each occupies one sequence number).
pub open spec fn spec_seg_len(payload_len: nat, syn: bool, fin: bool) -> nat {
    payload_len + (if syn {
        1nat
    } else {
        0nat
    }) + (if fin {
        1nat
    } else {
        0nat
    })
}

/// `s` lies in the receive window `[nxt, nxt + wnd)`, tested through the
/// strict-open primitive on `(nxt - 1, nxt + wnd)`.
pub open spec fn in_recv_window(nxt: u32, wnd: u16, s: u32) -> bool {
    spec_between_wrapped(nxt.wrapping_sub(1), s, nxt.wrapping_add(wnd as u32))
}

/// Segment acceptability, RFC 793 §3.3: by segment length and receive window.
/// A zero-length segment must sit exactly at (window zero) or inside the
/// window; a nonzero-length segment needs a nonzero window and its first or
/// last occupied sequence number inside it.
pub open spec fn seg_acceptable(nxt: u32, wnd: u16, seq: u32, len: nat) -> bool {
    if len == 0 {
        if wnd == 0 {
            seq == nxt
        } else {
            in_recv_window(nxt, wnd, seq)
        }
    } else {
        wnd > 0 && (in_recv_window(nxt, wnd, seq) || in_recv_window(
            nxt,
            wnd,
            seq.wrapping_add((len - 1) as u32),
        ))
    }
}

/// The acknowledgment can be processed at all: `una <= ack <= nxt` in modular
/// order. An older (already superseded) or futuristic acknowledgment fails.
pub open spec fn ack_processable(una: u32, nxt: u32, ack: u32) -> bool {
    spec_between_wrapped(una.wrapping_sub(1), ack, nxt.wrapping_add(1))
}

/// The acknowledgment acknowledges something new: `una < ack <= nxt` in
/// modular order (RFC 793).
pub open spec fn ack_acceptable(una: u32, nxt: u32, ack: u32) -> bool {
    spec_between_wrapped(una, ack, nxt.wrapping_add(1))
}

/// Payload bytes actually written into one outbound segment: the payload,
/// truncated to the scratch-buffer bound.
pub open spec fn spec_written(n: nat) -> nat {
    if n > MAX_SEGMENT_DATA {
        MAX_SEGMENT_DATA as nat
    } else {
        n
    }
}

/// The TCP header of an outbound segment: the template with the current send
/// and receive pointers stamped in. Every outbound segment carries
/// `seq == snd.nxt` (pre-advance) and `ack == recv.nxt`.
pub open spec fn stamp_hdr(c: Connection) -> TcpTemplate {
    TcpTemplate { seq: c.snd.nxt, ack_num: c.recv.nxt, ..c.tcp }
}

/// The IPv4 template with the payload-length field stamped for a segment
/// carrying `n` payload bytes (before truncation).
pub open spec fn sent_ip(ip: Ipv4Template, n: nat) -> Ipv4Template {
    Ipv4Template { payload_len: (TCP_HEADER_LEN + spec_written(n)) as u16, ..ip }
}

/// Where `snd.nxt` stands after sending `n` payload bytes (before
/// truncation): advanced by the bytes written, plus one for an outgoing SYN
/// and one for an outgoing FIN.
pub open spec fn send_advance(c: Connection, n: nat) -> u32 {
    c.snd.nxt.wrapping_add(
        (spec_written(n) + (if c.tcp.syn {
            1nat
        } else {
            0nat
        }) + (if c.tcp.fin {
            1nat
        } else {
            0nat
        })) as u32,
    )
}

/// The connection after `send` with `n` payload bytes: pointers stamped into
/// the templates, `snd.nxt` advanced, the one-shot SYN and FIN flags cleared.
pub open spec fn after_send(c: Connection, n: nat) -> Connection {
    Connection {
        snd: (SenSeqSpace { nxt: send_advance(c, n), ..c.snd }),
        ip: sent_ip(c.ip, n),
        tcp: (TcpTemplate { syn: false, fin: false, ..stamp_hdr(c) }),
        ..c
    }
}

/// `after_send` for an empty payload, the shape of every segment that the
/// gate itself emits.
pub open spec fn stamp_send(c: Connection) -> Connection {
    after_send(c, 0)
}

/// The reply header for a reset, RFC 793 §3.4: if the offending segment
/// carried an ACK, our sequence number echoes it; otherwise sequence zero,
/// acknowledging everything the offending segment occupied.
pub open spec fn rst_reply(tcp: TcpTemplate, seg: TcpMeta, len: nat) -> TcpTemplate {
    if seg.ack {
        TcpTemplate {
            seq: seg.ack_num,
            ack_num: 0,
            syn: false,
            ack: false,
            fin: false,
            rst: true,
            ..tcp
        }
    } else {
        TcpTemplate {
            seq: 0,
            ack_num: seg.seq.wrapping_add(len as u32),
            syn: false,
            ack: true,
            fin: false,
            rst: true,
            ..tcp
        }
    }
}

/// The connection created for an inbound SYN: SYN_RCVD, the send space at
/// `iss` already advanced over the SYN-ACK, the receive space tracking the
/// peer's SYN, templates with source and destination swapped.
pub open spec fn spec_accept(iss: u32, ip: Ipv4Meta, seg: TcpMeta) -> Connection {
    Connection {
        state: TCPState::SynRcvd,
        snd: SenSeqSpace {
            iss: iss,
            una: iss,
            nxt: iss.wrapping_add(1),
            wnd: SND_WND,
            up: false,
            wl1: 0,
            wl2: 0,
        },
        recv: RecvSeqSpace {
            irs: seg.seq,
            nxt: seg.seq.wrapping_add(1),
            wnd: seg.wnd,
            up: false,
        },
        ip: Ipv4Template {
            src: ip.dst,
            dst: ip.src,
            ttl: TTL,
            payload_len: TCP_HEADER_LEN as u16,
        },
        tcp: TcpTemplate {
            src_port: seg.dst_port,
            dst_port: seg.src_port,
            seq: iss,
            ack_num: seg.seq.wrapping_add(1),
            wnd: SND_WND,
            syn: false,
            ack: true,
            fin: false,
            rst: false,
        },
    }
}

/// The SYN-ACK emitted while accepting.
pub open spec fn syn_ack_hdr(iss: u32, seg: TcpMeta) -> TcpTemplate {
    TcpTemplate {
        src_port: seg.dst_port,
        dst_port: seg.src_port,
        seq: iss,
        ack_num: seg.seq.wrapping_add(1),
        wnd: SND_WND,
        syn: true,
        ack: true,
        fin: false,
        rst: false,
    }
}

/// One step of the RFC 793 §3.3 segment gate: acceptability, receive-pointer
/// advance, acknowledgment validation, state transitions. Returns the
/// connection after the step and the TCP header of the segment emitted, if
/// any; emitted segments carry no payload.
pub open spec fn spec_step(c: Connection, seg: TcpMeta, payload_len: nat) -> (Connection, Option<
    TcpTemplate,
>) {
    let len = spec_seg_len(payload_len, seg.syn, seg.fin);
    if !seg_acceptable(c.recv.nxt, c.recv.wnd, seg.seq, len) {
        if seg.rst {
            // an unacceptable segment that itself carries RST is dropped
            (c, None)
        } else {
            // re-assert our numbers with an empty ACK; no state change
            (stamp_send(c), Some(stamp_hdr(c)))
        }
    } else {
        // step C: the segment is consumed
        let c1 = Connection {
            recv: (RecvSeqSpace { nxt: seg.seq.wrapping_add(len as u32), ..c.recv }),
            ..c
        };
        if !seg.ack {
            (c1, None)
        } else if !ack_processable(c1.snd.una, c1.snd.nxt, seg.ack_num) {
            // step D failure: reset in SYN_RCVD, silent drop when synchronized
            if c1.state is SynRcvd {
                (c1, Some(rst_reply(c1.tcp, seg, len)))
            } else {
                (c1, None)
            }
        } else {
            // an acknowledgment of something new advances snd.una and
            // completes the handshake in SYN_RCVD
            let c2 = if ack_acceptable(c1.snd.una, c1.snd.nxt, seg.ack_num) {
                Connection {
                    snd: (SenSeqSpace { una: seg.ack_num, ..c1.snd }),
                    state: if c1.state is SynRcvd {
                        TCPState::Estab
                    } else {
                        c1.state
                    },
                    ..c1
                }
            } else {
                c1
            };
            // our FIN (sent at iss + 2, counting SYN and FIN) is covered
            let c3 = if c3_moves(c2) {
                Connection { state: TCPState::FinWait2, ..c2 }
            } else {
                c2
            };
            let c4 = if c4_moves(c3) {
                Connection { state: TCPState::TimeWait, ..c3 }
            } else {
                c3
            };
            // the peer's FIN (already consumed in step C) is acknowledged
            if seg.fin && c4.state is FinWait2 {
                (Connection { state: TCPState::TimeWait, ..stamp_send(c4) }, Some(stamp_hdr(c4)))
            } else if seg.fin && c4.state is FinWait1 {
                (Connection { state: TCPState::Closing, ..stamp_send(c4) }, Some(stamp_hdr(c4)))
            } else {
                (c4, None)
            }
        }
    }
}

/// FIN_WAIT_1 leaves for FIN_WAIT_2 once the acknowledgment covers our FIN.
pub open spec fn c3_moves(c: Connection) -> bool {
    c.state is FinWait1 && c.snd.una == c.snd.iss.wrapping_add(2)
}

/// CLOSING leaves for TIME_WAIT once the acknowledgment covers our FIN.
pub open spec fn c4_moves(c: Connection) -> bool {
    c.state is Closing && c.snd.una == c.snd.iss.wrapping_add(2)
}

impl Connection {
    /// Well-formedness across calls: the send pointers sit within one
    /// half-circle, and the header template carries no pending one-shot
    /// flags between calls — only the standing ACK.
    pub open spec fn wf(self) -> bool {
        &&& seq_dist(self.snd.una, self.snd.nxt) < SEQ_HALF
        &&& !self.tcp.syn
        &&& !self.tcp.fin
        &&& !self.tcp.rst
        &&& self.tcp.ack
    }
}

/// Exec test of `in_recv_window`.
pub fn in_window(nxt: u32, wnd: u16, s: u32) -> (r: bool)
    ensures
        r == in_recv_window(nxt, wnd, s),
{
    is_between_wrapped(&nxt.wrapping_sub(1), &s, &nxt.wrapping_add(wnd as u32))
}

/// Membership in the receive window is exactly a forward distance from
/// `recv.nxt` below the window size.
pub proof fn lemma_in_window_dist(nxt: u32, wnd: u16, s: u32)
    ensures
        in_recv_window(nxt, wnd, s) <==> seq_dist(nxt, s) < wnd,
{
    lemma_dist_wrapping_add(nxt, wnd as u32);
    lemma_dist_back_one(nxt, s);
    lemma_dist_back_one(nxt, nxt.wrapping_add(wnd as u32));
}

/// With a zero receive window only the in-order empty segment (a pure ACK)
/// is acceptable.
pub proof fn lemma_zero_window(nxt: u32, seq: u32, len: nat)
    ensures
        seg_acceptable(nxt, 0, seq, len) <==> (len == 0 && seq == nxt),
{
}

/// A retransmitted bare SYN (sequence number `irs`, segment length one) is
/// never acceptable once the receive pointer has consumed the first SYN, so
/// it cannot drive a second state transition.
pub proof fn lemma_duplicate_syn_rejected(irs: u32, wnd: u16)
    ensures
        !seg_acceptable(irs.wrapping_add(1), wnd, irs, 1),
{
    let nxt = irs.wrapping_add(1);
    lemma_in_window_dist(nxt, wnd, irs);
    lemma_dist_wrapping_add(irs, 1);
    lemma_dist_back_one(nxt, irs);
    assert(irs == nxt.wrapping_sub(1));
    assert(seq_dist(nxt, irs) == SEQ_MOD - 1);
    assert(irs.wrapping_add(0) == irs);
}

/// The send-space invariant restated on the circle: the distance bound is the
/// same statement as `snd.nxt` lying strictly inside
/// `(snd.una - 1, snd.una + 2^31)`.
pub proof fn lemma_half_circle(una: u32, nxt: u32)
    ensures
        seq_dist(una, nxt) < SEQ_HALF <==> spec_between_wrapped(
            una.wrapping_sub(1),
            nxt,
            una.wrapping_add(0x8000_0000u32),
        ),
{
    lemma_dist_wrapping_add(una, 0x8000_0000u32);
    lemma_dist_back_one(una, nxt);
    lemma_dist_back_one(una, una.wrapping_add(0x8000_0000u32));
}

/// The header of any acknowledgment that a step sends out matches the
/// step's result: the `seq` field holds `snd.nxt` and the `ack_num` field
/// holds `recv.nxt` of the resulting connection.
pub proof fn lemma_gate_reply_pointers(c: Connection, seg: TcpMeta, payload_len: nat)
    requires
        c.wf(),
    ensures
        (match spec_step(c, seg, payload_len).1 {
            Option::Some(h) => !h.rst ==> h.seq == spec_step(c, seg, payload_len).0.snd.nxt
                && h.ack_num == spec_step(c, seg, payload_len).0.recv.nxt,
            Option::None => true,
        }),
{
    assert(c.snd.nxt.wrapping_add(0) == c.snd.nxt);
}

/// Bounds that a processable acknowledgment puts on the pointers: it sits
/// between `una` and `nxt`, splitting the outstanding distance; it
/// acknowledges something new exactly when it differs from `una`.
pub proof fn lemma_ack_bounds(una: u32, nxt: u32, ack: u32)
    requires
        seq_dist(una, nxt) < SEQ_HALF,
        ack_processable(una, nxt, ack),
    ensures
        seq_dist(una, ack) <= seq_dist(una, nxt),
        seq_dist(ack, nxt) == seq_dist(una, nxt) - seq_dist(una, ack),
        ack_acceptable(una, nxt, ack) <==> seq_dist(una, ack) > 0,
{
    lemma_dist_add(una, nxt, 1);
    lemma_dist_back_one(una, ack);
    lemma_dist_back_one(una, nxt.wrapping_add(1));
    lemma_dist_split(una, ack, nxt);
}

/// How far an acceptable segment may carry the receive pointer forward: at
/// most the window plus the segment length, so never out of the forward
/// half-circle for bounded payloads.
pub proof fn lemma_accept_advance(nxt: u32, wnd: u16, seq: u32, len: nat)
    requires
        seg_acceptable(nxt, wnd, seq, len),
        len <= MTU + 2,
    ensures
        seq_dist(nxt, seq.wrapping_add(len as u32)) <= wnd + len,
{
    if len == 0 {
        lemma_in_window_dist(nxt, wnd, seq);
        assert(seq.wrapping_add(0) == seq);
    } else {
        if in_recv_window(nxt, wnd, seq) {
            lemma_in_window_dist(nxt, wnd, seq);
            lemma_dist_add(nxt, seq, len as u32);
        } else {
            let last = seq.wrapping_add((len - 1) as u32);
            lemma_in_window_dist(nxt, wnd, last);
            lemma_dist_add(nxt, last, 1);
            crate::seqnum::lemma_wrapping_add_assoc(seq, (len - 1) as u32, 1);
        }
    }
}

impl Connection {
    /// Assemble and return one outbound IPv4+TCP segment carrying (a prefix
    /// of) `payload`: stamp `tcp.seq = snd.nxt` and `tcp.ack = recv.nxt`
    /// and the IPv4 payload length, let the wire layer checksum and
    /// serialize it, then advance `snd.nxt` by the bytes written plus one
    /// for an outgoing SYN and one for an outgoing FIN, clearing those
    /// one-shot flags.
    pub fn send(&mut self, payload: &[u8]) -> (r: Vec<u8>)
        requires
            seq_dist(old(self).snd.una, old(self).snd.nxt) + spec_written(payload@.len()) + (
            if old(self).tcp.syn {
                1int
            } else {
                0int
            }) + (if old(self).tcp.fin {
                1int
            } else {
                0int
            }) < SEQ_HALF,
        ensures
            *final(self) == after_send(*old(self), payload@.len()),
            r@ == datagram_of(
                sent_ip(old(self).ip, payload@.len()),
                stamp_hdr(*old(self)),
                payload@.subrange(0, spec_written(payload@.len()) as int),
            ),
            seq_dist(final(self).snd.una, final(self).snd.nxt) == seq_dist(
                old(self).snd.una,
                old(self).snd.nxt,
            ) + spec_written(payload@.len()) + (if old(self).tcp.syn {
                1int
            } else {
                0int
            }) + (if old(self).tcp.fin {
                1int
            } else {
                0int
            }),
    {
        let written: usize = if payload.len() > MAX_SEGMENT_DATA {
            MAX_SEGMENT_DATA
        } else {
            payload.len()
        };
        self.tcp.seq = self.snd.nxt;
        self.tcp.ack_num = self.recv.nxt;
        self.ip.payload_len = (TCP_HEADER_LEN + written) as u16;
        let data = slice_subrange(payload, 0, written);
        let r = emit_datagram(&self.ip, &self.tcp, data);
        let mut adv: u32 = written as u32;
        if self.tcp.syn {
            adv = adv + 1;
            self.tcp.syn = false;
        }
        if self.tcp.fin {
            adv = adv + 1;
            self.tcp.fin = false;
        }
        proof {
            lemma_dist_add(self.snd.una, self.snd.nxt, adv);
        }
        self.snd.nxt = self.snd.nxt.wrapping_add(adv);
        r
    }

    /// Emit a reset for an offending segment, RFC 793 §3.4. The connection
    /// itself — state, sequence spaces, templates — is untouched: the RST is
    /// diagnostic.
    pub fn send_rst(&self, seg: &TcpMeta, payload_len: usize) -> (r: Vec<u8>)
        requires
            payload_len <= MTU,
        ensures
            r@ == datagram_of(
                (Ipv4Template { payload_len: TCP_HEADER_LEN as u16, ..self.ip }),
                rst_reply(self.tcp, *seg, spec_seg_len(payload_len as nat, seg.syn, seg.fin)),
                Seq::<u8>::empty(),
            ),
    {
        let mut len: u32 = payload_len as u32;
        if seg.syn {
            len = len + 1;
        }
        if seg.fin {
            len = len + 1;
        }
        let hdr = if seg.ack {
            TcpTemplate {
                seq: seg.ack_num,
                ack_num: 0,
                syn: false,
                ack: false,
                fin: false,
                rst: true,
                ..self.tcp
            }
        } else {
            TcpTemplate {
                seq: 0,
                ack_num: seg.seq.wrapping_add(len),
                syn: false,
                ack: true,
                fin: false,
                rst: true,
                ..self.tcp
            }
        };
        let iph = Ipv4Template { payload_len: TCP_HEADER_LEN as u16, ..self.ip };
        let empty: Vec<u8> = Vec::new();
        emit_datagram(&iph, &hdr, empty.as_slice())
    }

    /// Accept an inbound SYN addressed to a quad with no existing
    /// connection: pick the given initial send sequence number, initialize
    /// both sequence spaces, build the header templates with source and
    /// destination swapped, and emit the SYN-ACK. A segment without SYN is
    /// dropped silently.
    pub fn accept(iss: u32, ip: &Ipv4Meta, seg: &TcpMeta, _payload: &[u8]) -> (r: Option<
        (Connection, Vec<u8>),
    >)
        ensures
            !seg.syn ==> r is None,
            seg.syn ==> (r matches Some((c, v)) && c == spec_accept(iss, *ip, *seg) && c.wf()
                && v@ == datagram_of(
                spec_accept(iss, *ip, *seg).ip,
                syn_ack_hdr(iss, *seg),
                Seq::<u8>::empty(),
            )),
    {
        if !seg.syn {
            return None;
        }
        let mut c = Connection {
            state: TCPState::SynRcvd,
            snd: SenSeqSpace {
                iss,
                una: iss,
                nxt: iss,
                wnd: SND_WND,
                up: false,
                wl1: 0,
                wl2: 0,
            },
            recv: RecvSeqSpace {
                irs: seg.seq,
                nxt: seg.seq.wrapping_add(1),
                wnd: seg.wnd,
                up: false,
            },
            ip: Ipv4Template { src: ip.dst, dst: ip.src, ttl: TTL, payload_len: 0 },
            tcp: TcpTemplate {
                src_port: seg.dst_port,
                dst_port: seg.src_port,
                seq: iss,
                ack_num: 0,
                wnd: SND_WND,
                syn: false,
                ack: false,
                fin: false,
                rst: false,
            },
        };
        c.tcp.syn = true;
        c.tcp.ack = true;
        let empty: Vec<u8> = Vec::new();
        let v = c.send(empty.as_slice());
        proof {
            lemma_dist_wrapping_add(iss, 1);
            assert(empty@.subrange(0, 0) =~= Seq::<u8>::empty());
        }
        Some((c, v))
    }

    /// Application-initiated graceful close: in ESTABLISHED, emit a FIN
    /// (piggybacked on the standing ACK) and move to FIN_WAIT_1; in any
    /// other state do nothing.
    pub fn close(&mut self) -> (r: Option<Vec<u8>>)
        requires
            old(self).wf(),
            seq_dist(old(self).snd.una, old(self).snd.nxt) + 1 < SEQ_HALF,
        ensures
            final(self).wf(),
            !(old(self).state is Estab) ==> r is None && *final(self) == *old(self),
            old(self).state is Estab ==> *final(self) == (Connection {
                state: TCPState::FinWait1,
                ..after_send(
                    (Connection { tcp: (TcpTemplate { fin: true, ..old(self).tcp }), ..*old(self) }),
                    0,
                )
            }),
            old(self).state is Estab ==> (r matches Some(v) && v@ == datagram_of(
                sent_ip(old(self).ip, 0),
                (TcpTemplate { fin: true, ..stamp_hdr(*old(self)) }),
                Seq::<u8>::empty(),
            )),
    {
        match self.state {
            TCPState::Estab => {
                self.tcp.fin = true;
                let empty: Vec<u8> = Vec::new();
                let v = self.send(empty.as_slice());
                self.state = TCPState::FinWait1;
                proof {
                    assert(empty@.subrange(0, 0) =~= Seq::<u8>::empty());
                }
                Some(v)
            },
            _ => None,
        }
    }

    /// The RFC 793 §3.3 segment gate for an existing connection, in order:
    ///
    /// * acceptability of the sequence range against the receive window; an
    ///   unacceptable segment without RST elicits an empty ACK and nothing
    ///   changes;
    /// * the receive pointer consumes the segment (`recv.nxt = seq + len`);
    /// * a segment without ACK is dropped; an acknowledgment outside
    ///   `[una, nxt]` elicits a RST in SYN_RCVD and is dropped when
    ///   synchronized;
    /// * an acknowledgment of something new advances `snd.una`, completes
    ///   the handshake in SYN_RCVD, moves FIN_WAIT_1 (and CLOSING) on once
    ///   it covers our FIN, and a peer FIN in the FIN_WAIT states is
    ///   acknowledged.
    ///
    /// The whole step equals the specification transition `spec_step`.
    pub fn continue_existing(&mut self, seg: &TcpMeta, payload: &[u8]) -> (r: Option<Vec<u8>>)
        requires
            old(self).wf(),
            payload@.len() <= MTU,
        ensures
            final(self).wf(),
            *final(self) == spec_step(*old(self), *seg, payload@.len()).0,
            (match spec_step(*old(self), *seg, payload@.len()).1 {
                Option::None => r is None,
                Option::Some(h) => (r matches Some(v) && v@ == datagram_of(
                    sent_ip(old(self).ip, 0),
                    h,
                    Seq::<u8>::empty(),
                )),
            }),
            // the receive pointer only moves forward on the circle
            seq_dist(old(self).recv.nxt, final(self).recv.nxt) < SEQ_HALF,
            // an accepted in-order segment advances it by exactly its length
            (seg_acceptable(
                old(self).recv.nxt,
                old(self).recv.wnd,
                seg.seq,
                spec_seg_len(payload@.len(), seg.syn, seg.fin),
            ) && seg.seq == old(self).recv.nxt) ==> seq_dist(
                old(self).recv.nxt,
                final(self).recv.nxt,
            ) == spec_seg_len(payload@.len(), seg.syn, seg.fin),
    {
        let mut seglen: u32 = payload.len() as u32;
        if seg.syn {
            seglen = seglen + 1;
        }
        if seg.fin {
            seglen = seglen + 1;
        }
        let acceptable: bool = if seglen == 0 {
            if self.recv.wnd == 0 {
                seg.seq == self.recv.nxt
            } else {
                in_window(self.recv.nxt, self.recv.wnd, seg.seq)
            }
        } else {
            if self.recv.wnd == 0 {
                false
            } else {
                in_window(self.recv.nxt, self.recv.wnd, seg.seq) || in_window(
                    self.recv.nxt,
                    self.recv.wnd,
                    seg.seq.wrapping_add(seglen - 1),
                )
            }
        };
        if !acceptable {
            if seg.rst {
                return None;
            }
            let empty: Vec<u8> = Vec::new();
            let v = self.send(empty.as_slice());
            proof {
                assert(empty@.subrange(0, 0) =~= Seq::<u8>::empty());
            }
            return Some(v);
        }
        proof {
            lemma_accept_advance(
                self.recv.nxt,
                self.recv.wnd,
                seg.seq,
                spec_seg_len(payload@.len(), seg.syn, seg.fin),
            );
            if seg.seq == self.recv.nxt {
                lemma_dist_wrapping_add(self.recv.nxt, seglen);
            }
        }
        self.recv.nxt = seg.seq.wrapping_add(seglen);
        if !seg.ack {
            return None;
        }
        let processable = is_between_wrapped(
            &self.snd.una.wrapping_sub(1),
            &seg.ack_num,
            &self.snd.nxt.wrapping_add(1),
        );
        if !processable {
            if self.state == TCPState::SynRcvd {
                let v = self.send_rst(seg, payload.len());
                return Some(v);
            }
            return None;
        }
        proof {
            lemma_ack_bounds(self.snd.una, self.snd.nxt, seg.ack_num);
        }
        let acceptable_ack = is_between_wrapped(
            &self.snd.una,
            &seg.ack_num,
            &self.snd.nxt.wrapping_add(1),
        );
        if acceptable_ack {
            self.snd.una = seg.ack_num;
            if self.state == TCPState::SynRcvd {
                self.state = TCPState::Estab;
            }
        }
        if self.state == TCPState::FinWait1 && self.snd.una == self.snd.iss.wrapping_add(2) {
            self.state = TCPState::FinWait2;
        }
        if self.state == TCPState::Closing && self.snd.una == self.snd.iss.wrapping_add(2) {
            self.state = TCPState::TimeWait;
        }
        if seg.fin {
            if self.state == TCPState::FinWait2 {
                let empty: Vec<u8> = Vec::new();
                let v = self.send(empty.as_slice());
                self.state = TCPState::TimeWait;
                proof {
                    assert(empty@.subrange(0, 0) =~= Seq::<u8>::empty());
                }
                return Some(v);
            }
            if self.state == TCPState::FinWait1 {
                let empty: Vec<u8> = Vec::new();
                let v = self.send(empty.as_slice());
                self.state = TCPState::Closing;
                proof {
                    assert(empty@.subrange(0, 0) =~= Seq::<u8>::empty());
                }
                return Some(v);
            }
        }
        None
    }
}

} // verus!
