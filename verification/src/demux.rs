//! The demultiplexer: maps connection identifiers (quads) to live
//! connections and dispatches each inbound IPv4 datagram.
//!
//! For each datagram: parse the IPv4 header, keep only protocol TCP, parse
//! the TCP header, form the quad, then either dispatch to the existing
//! connection's segment gate or try to accept a new connection.

use vstd::prelude::*;
use vstd::slice::slice_subrange;

use crate::tcp::{spec_accept, spec_step, sent_ip, syn_ack_hdr, Connection, TCPState};
use crate::wire::{
    datagram_of, ipv4_meta_of, parse_ipv4, parse_tcp, tcp_meta_of, Ipv4Meta, TcpMeta, MTU,
    PROTO_TCP,
};

verus! {

/// Upper bound on one inbound datagram handed to `ingest`: the MTU plus the
/// four-byte packet-info prefix a TUN device may prepend.
pub const MAX_DATAGRAM: usize = 1504;

/// Connection identifier: the peer's address and port, then ours, as seen in
/// an inbound segment. Compared by value; immutable for a connection's life.
#[derive(Clone, Copy, PartialEq, Eq, Structural, Debug)]
pub struct Quad {
    pub src_ip: u32,
    pub src_port: u16,
    pub dst_ip: u32,
    pub dst_port: u16,
}

/// The quad of an inbound segment.
pub open spec fn quad_of(m: Ipv4Meta, t: TcpMeta) -> Quad {
    Quad { src_ip: m.src, src_port: t.src_port, dst_ip: m.dst, dst_port: t.dst_port }
}

/// Some entry of `s` carries the quad `q`.
pub open spec fn has_quad(s: Seq<(Quad, Connection)>, q: Quad) -> bool {
    exists|i: int| 0 <= i < s.len() && (#[trigger] s[i]).0 == q
}

/// The emitted bytes, if any, as a sequence.
pub open spec fn opt_view(r: Option<Vec<u8>>) -> Option<Seq<u8>> {
    match r {
        Option::None => Option::None,
        Option::Some(v) => Option::Some(v@),
    }
}

/// `r` is exactly what stepping connection `c` with segment `t` (payload
/// length `plen`) emits.
pub open spec fn step_output_matches(c: Connection, t: TcpMeta, plen: nat, r: Option<Seq<u8>>) -> bool {
    match spec_step(c, t, plen).1 {
        Option::None => r is None,
        Option::Some(h) => r == Option::Some(
            datagram_of(sent_ip(c.ip, 0), h, Seq::<u8>::empty()),
        ),
    }
}

/// The entry carrying quad `q` was stepped with segment `t`; every other
/// entry is untouched.
pub open spec fn conns_stepped(
    pre: Seq<(Quad, Connection)>,
    post: Seq<(Quad, Connection)>,
    q: Quad,
    t: TcpMeta,
    plen: nat,
    r: Option<Seq<u8>>,
) -> bool {
    &&& post.len() == pre.len()
    &&& forall|i: int|
        0 <= i < pre.len() ==> {
            let e = #[trigger] pre[i];
            if e.0 == q {
                post[i] == (q, spec_step(e.1, t, plen).0) && step_output_matches(e.1, t, plen, r)
            } else {
                post[i] == e
            }
        }
}

/// What `ingest` does once the datagram parsed as IPv4 with protocol TCP.
pub open spec fn ingest_tcp_post(
    pre: Seq<(Quad, Connection)>,
    post: Seq<(Quad, Connection)>,
    buf: Seq<u8>,
    m: Ipv4Meta,
    iss: u32,
    r: Option<Seq<u8>>,
) -> bool {
    match tcp_meta_of(buf.subrange(m.header_len as int, buf.len() as int)) {
        Option::None => post == pre && r is None,
        Option::Some(t) => {
            let q = quad_of(m, t);
            let plen = buf.len() - m.header_len - t.header_len;
            if has_quad(pre, q) {
                conns_stepped(pre, post, q, t, plen as nat, r)
            } else if t.syn {
                post == pre.push((q, spec_accept(iss, m, t))) && r == Option::Some(
                    datagram_of(spec_accept(iss, m, t).ip, syn_ack_hdr(iss, t), Seq::<u8>::empty()),
                )
            } else {
                post == pre && r is None
            }
        },
    }
}

/// Entries that survive a reap: every connection not in TIME_WAIT.
pub open spec fn reaped(s: Seq<(Quad, Connection)>) -> Seq<(Quad, Connection)> {
    s.filter(|e: (Quad, Connection)| !(e.1.state is TimeWait))
}

/// Every survivor of a reap is one of the entries it started from.
proof fn lemma_reaped_membership(s: Seq<(Quad, Connection)>)
    ensures
        forall|a: int|
            0 <= a < reaped(s).len() ==> exists|b: int|
                0 <= b < s.len() && #[trigger] reaped(s)[a] == s[b],
    decreases s.len(),
{
    reveal(Seq::filter);
    if s.len() > 0 {
        let t = s.drop_last();
        lemma_reaped_membership(t);
        assert forall|a: int| 0 <= a < reaped(s).len() implies exists|b: int|
            0 <= b < s.len() && #[trigger] reaped(s)[a] == s[b] by {
            if a < reaped(t).len() {
                let b = choose|b: int| 0 <= b < t.len() && reaped(t)[a] == t[b];
                assert(reaped(s)[a] == s[b]);
            } else {
                assert(reaped(s)[a] == s[s.len() - 1]);
            }
        }
    }
}

/// A reap keeps quads unique and connections well-formed.
proof fn lemma_reaped_wf(s: Seq<(Quad, Connection)>)
    requires
        forall|i: int, j: int|
            0 <= i < j < s.len() ==> (#[trigger] s[i]).0 != (#[trigger] s[j]).0,
        forall|i: int| 0 <= i < s.len() ==> (#[trigger] s[i]).1.wf(),
    ensures
        forall|i: int, j: int|
            0 <= i < j < reaped(s).len() ==> (#[trigger] reaped(s)[i]).0 != (
            #[trigger] reaped(s)[j]).0,
        forall|i: int| 0 <= i < reaped(s).len() ==> (#[trigger] reaped(s)[i]).1.wf(),
    decreases s.len(),
{
    reveal(Seq::filter);
    if s.len() > 0 {
        let t = s.drop_last();
        lemma_reaped_wf(t);
        lemma_reaped_membership(t);
        assert forall|i: int, j: int|
            0 <= i < j < reaped(s).len() implies (#[trigger] reaped(s)[i]).0 != (
        #[trigger] reaped(s)[j]).0 by {
            if j == reaped(s).len() - 1 && reaped(s).len() > reaped(t).len() {
                let b = choose|b: int| 0 <= b < t.len() && reaped(t)[i] == t[b];
                assert(reaped(s)[i] == s[b]);
                assert(reaped(s)[j] == s[s.len() - 1]);
            }
        }
        assert forall|i: int| 0 <= i < reaped(s).len() implies (#[trigger] reaped(s)[i]).1.wf() by {
            if i < reaped(t).len() {
                let b = choose|b: int| 0 <= b < t.len() && reaped(t)[i] == t[b];
                assert(reaped(s)[i] == s[b]);
            } else {
                assert(reaped(s)[i] == s[s.len() - 1]);
            }
        }
    }
}

/// The demultiplexer: a mapping from quads to live connections.
pub struct Demux {
    pub conns: Vec<(Quad, Connection)>,
}

impl Demux {
    /// Well-formedness: each quad appears at most once, and every
    /// connection is itself well-formed.
    pub open spec fn wf(self) -> bool {
        &&& forall|i: int, j: int|
            0 <= i < j < self.conns@.len() ==> (#[trigger] self.conns@[i]).0 != (
            #[trigger] self.conns@[j]).0
        &&& forall|i: int|
            0 <= i < self.conns@.len() ==> (#[trigger] self.conns@[i]).1.wf()
    }

    /// An empty demultiplexer: every quad is implicitly in LISTEN/CLOSED.
    pub fn new() -> (r: Demux)
        ensures
            r.wf(),
            r.conns@.len() == 0,
    {
        Demux { conns: Vec::new() }
    }

    /// Handle one inbound datagram: parse IPv4, drop anything that is not
    /// TCP without touching any connection, parse TCP, then dispatch
    /// to the existing connection for the quad, or accept a new one on a
    /// SYN. Returns the datagram to transmit, if any.
    #[verifier::loop_isolation(false)]
    pub fn ingest(&mut self, buf: &[u8], iss: u32) -> (r: Option<Vec<u8>>)
        requires
            old(self).wf(),
            buf@.len() <= MAX_DATAGRAM,
        ensures
            final(self).wf(),
            (match ipv4_meta_of(buf@) {
                Option::None => final(self).conns@ == old(self).conns@ && r is None,
                Option::Some(m) => if m.proto != PROTO_TCP {
                    final(self).conns@ == old(self).conns@ && r is None
                } else {
                    ingest_tcp_post(
                        old(self).conns@,
                        final(self).conns@,
                        buf@,
                        m,
                        iss,
                        opt_view(r),
                    )
                },
            }),
    {
        let m = match parse_ipv4(buf) {
            Option::None => { return None; },
            Option::Some(m) => m,
        };
        if m.proto != PROTO_TCP {
            return None;
        }
        let rest = slice_subrange(buf, m.header_len, buf.len());
        let t = match parse_tcp(rest) {
            Option::None => { return None; },
            Option::Some(t) => t,
        };
        let payload = slice_subrange(rest, t.header_len, rest.len());
        proof {
            assert(payload@ =~= buf@.subrange(
                m.header_len + t.header_len,
                buf@.len() as int,
            ));
        }
        let q = Quad { src_ip: m.src, src_port: t.src_port, dst_ip: m.dst, dst_port: t.dst_port };
        let n = self.conns.len();
        let mut i: usize = 0;
        while i < n
            invariant
                old(self).wf(),
                *self == *old(self),
                n == self.conns@.len(),
                i <= n,
                forall|j: int| 0 <= j < i ==> (#[trigger] self.conns@[j]).0 != q,
            decreases n - i,
        {
            if self.conns[i].0 == q {
                proof {
                    assert(payload@.len() == buf@.len() - m.header_len - t.header_len);
                    assert(payload@.len() <= MTU);
                    assert(has_quad(old(self).conns@, q));
                    assert((old(self).conns@[i as int]).1.wf());
                }
                let (qq, mut c) = self.conns.remove(i);
                let out = c.continue_existing(&t, payload);
                self.conns.insert(i, (qq, c));
                proof {
                    let pre = old(self).conns@;
                    assert(self.conns@ =~= pre.update(
                        i as int,
                        (q, spec_step(pre[i as int].1, t, payload@.len()).0),
                    ));
                    assert forall|k: int| 0 <= k < pre.len() && k != i as int implies (
                    #[trigger] pre[k]).0 != q by {
                        if k < i as int {
                            assert(pre[k].0 != pre[i as int].0);
                        } else {
                            assert(pre[i as int].0 != pre[k].0);
                        }
                    }
                }
                return out;
            }
            i = i + 1;
        }
        match Connection::accept(iss, &m, &t, payload) {
            Option::Some((c, v)) => {
                self.conns.push((q, c));
                Some(v)
            },
            Option::None => None,
        }
    }

    /// Drop every connection that has reached TIME_WAIT, freeing its quad
    /// for reuse.
    #[verifier::loop_isolation(false)]
    pub fn reap(&mut self)
        requires
            old(self).wf(),
        ensures
            final(self).wf(),
            final(self).conns@ == reaped(old(self).conns@),
    {
        let n = self.conns.len();
        let mut kept: Vec<(Quad, Connection)> = Vec::new();
        let mut i: usize = 0;
        while i < n
            invariant
                old(self).wf(),
                *self == *old(self),
                n == self.conns@.len(),
                i <= n,
                kept@ == reaped(self.conns@.subrange(0, i as int)),
            decreases n - i,
        {
            let e = self.conns[i];
            if !(e.1.state == TCPState::TimeWait) {
                kept.push(e);
            }
            proof {
                reveal(Seq::filter);
                assert(self.conns@.subrange(0, i as int + 1).drop_last() =~= self.conns@.subrange(
                    0,
                    i as int,
                ));
                assert(self.conns@.subrange(0, i as int + 1).last() == self.conns@[i as int]);
                assert(kept@ == reaped(self.conns@.subrange(0, i as int + 1)));
            }
            i = i + 1;
        }
        proof {
            assert(self.conns@.subrange(0, n as int) =~= self.conns@);
            lemma_reaped_wf(self.conns@);
        }
        self.conns = kept;
    }
}

} // verus!
