//! The connection table and the demultiplexer.
//!
//! The table maps a 4-tuple to at most one live connection; it is viewed as
//! a `Map<Quad, Connection>` and every operation is specified against that
//! view. The demultiplexer takes one raw IP datagram, parses its headers
//! through the codec, routes the segment to the table, and returns the raw
//! reply datagram, if one is owed.
use crate::codec::build_datagram;
use crate::codec::parse_ipv4;
use crate::codec::parse_tcp;
use crate::codec::spec_datagram_bytes;
use crate::codec::spec_ipv4_fields;
use crate::codec::spec_ipv4_header_len;
use crate::codec::spec_ipv4_ok;
use crate::codec::spec_tcp_fields;
use crate::codec::spec_tcp_header_len;
use crate::codec::spec_tcp_ok;
use crate::segment::SegmentIntent;
use crate::segment::TcpHeaderFields;
use crate::seqnum::wadd;
use crate::tcp::Connection;
use crate::tcp::ReceiveSequenceSpace;
use crate::tcp::SendSequenceSpace;
use crate::tcp::State;
use crate::tcp::spec_syn_valid;
use crate::tcp::step_spec;
use vstd::prelude::*;
use vstd::slice::slice_subrange;

verus! {

/// Time-to-live written into outbound datagrams.
pub const DEFAULT_TTL: u8 = 64;

/// A connection identifier: the 4-tuple of addresses and ports, as seen in
/// the arriving direction (`src` is the remote peer, `dst` is us).
#[derive(Clone, Copy, PartialEq, Eq, Structural, Debug)]
pub struct Quad {
    /// Remote address.
    pub src_ip: u32,
    /// Remote port.
    pub src_port: u16,
    /// Local address.
    pub dst_ip: u32,
    /// Local port.
    pub dst_port: u16,
}

/// Keys are unique: no 4-tuple owns two entries.
spec fn quads_unique(s: Seq<(Quad, Connection)>) -> bool {
    forall|i: int, j: int|
        0 <= i < j < s.len() ==> (#[trigger] s[i]).0 != (#[trigger] s[j]).0
}

/// Some entry carries this 4-tuple.
spec fn seq_contains_quad(s: Seq<(Quad, Connection)>, q: Quad) -> bool {
    exists|i: int| 0 <= i < s.len() && (#[trigger] s[i]).0 == q
}

/// The connection of the entry carrying this 4-tuple.
spec fn seq_conn_at(s: Seq<(Quad, Connection)>, q: Quad) -> Connection {
    let i = choose|i: int| 0 <= i < s.len() && (#[trigger] s[i]).0 == q;
    s[i].1
}

/// The entry sequence, read as a map from 4-tuple to connection.
spec fn table_view(s: Seq<(Quad, Connection)>) -> Map<Quad, Connection> {
    Map::new(|q: Quad| seq_contains_quad(s, q), |q: Quad| seq_conn_at(s, q))
}

/// With unique keys, the entry at index `i` is what the map holds for its
/// 4-tuple.
proof fn lemma_view_at(s: Seq<(Quad, Connection)>, i: int)
    requires
        quads_unique(s),
        0 <= i < s.len(),
    ensures
        table_view(s).contains_key(s[i].0),
        table_view(s)[s[i].0] == s[i].1,
{
    assert(seq_contains_quad(s, s[i].0));
    let k = choose|k: int| 0 <= k < s.len() && (#[trigger] s[k]).0 == s[i].0;
    assert(k == i);
}

/// Appending an entry with a fresh 4-tuple adds exactly that binding.
proof fn lemma_view_push(s: Seq<(Quad, Connection)>, q: Quad, c: Connection)
    requires
        quads_unique(s),
        !seq_contains_quad(s, q),
    ensures
        quads_unique(s.push((q, c))),
        table_view(s.push((q, c))).contains_key(q),
        table_view(s.push((q, c)))[q] == c,
        forall|q2: Quad|
            q2 != q ==> (table_view(s.push((q, c))).contains_key(q2) <==> table_view(
                s,
            ).contains_key(q2)),
        forall|q2: Quad|
            q2 != q && table_view(s).contains_key(q2) ==> table_view(s.push((q, c)))[q2]
                == table_view(s)[q2],
{
    let s2 = s.push((q, c));
    assert(s2.len() == s.len() + 1);
    assert(s2[s.len() as int] == (q, c));
    assert forall|i: int| 0 <= i < s.len() implies s2[i] == s[i] by {}
    assert forall|i: int, j: int| 0 <= i < j < s2.len() implies (#[trigger] s2[i]).0 != (
    #[trigger] s2[j]).0 by {
        if j == s.len() {
            assert(s2[j].0 == q);
            if s2[i].0 == q {
                assert(seq_contains_quad(s, q));
            }
        }
    }
    assert(seq_contains_quad(s2, q)) by {
        assert(s2[s.len() as int].0 == q);
    }
    let k = choose|k: int| 0 <= k < s2.len() && (#[trigger] s2[k]).0 == q;
    if k < s.len() {
        assert(s[k].0 == q);
        assert(seq_contains_quad(s, q));
    }
    assert(table_view(s2)[q] == c);
    assert forall|q2: Quad| q2 != q implies (table_view(s2).contains_key(q2) <==> table_view(
        s,
    ).contains_key(q2)) by {
        if seq_contains_quad(s2, q2) {
            let m = choose|m: int| 0 <= m < s2.len() && (#[trigger] s2[m]).0 == q2;
            assert(m < s.len());
            assert(s[m].0 == q2);
        }
        if seq_contains_quad(s, q2) {
            let m = choose|m: int| 0 <= m < s.len() && (#[trigger] s[m]).0 == q2;
            assert(s2[m].0 == q2);
        }
    }
    assert forall|q2: Quad| q2 != q && table_view(s).contains_key(q2) implies table_view(s2)[q2]
        == table_view(s)[q2] by {
        let m = choose|m: int| 0 <= m < s.len() && (#[trigger] s[m]).0 == q2;
        let k2 = choose|k2: int| 0 <= k2 < s2.len() && (#[trigger] s2[k2]).0 == q2;
        assert(s2[m].0 == q2);
        assert(k2 < s.len());
        assert(s[k2].0 == q2);
        assert(k2 == m);
    }
}

/// Removing the entry at index `i` removes exactly its binding.
proof fn lemma_view_remove(s: Seq<(Quad, Connection)>, i: int)
    requires
        quads_unique(s),
        0 <= i < s.len(),
    ensures
        quads_unique(s.remove(i)),
        !table_view(s.remove(i)).contains_key(s[i].0),
        forall|q2: Quad|
            q2 != s[i].0 ==> (table_view(s.remove(i)).contains_key(q2) <==> table_view(
                s,
            ).contains_key(q2)),
        forall|q2: Quad|
            q2 != s[i].0 && table_view(s).contains_key(q2) ==> table_view(s.remove(i))[q2]
                == table_view(s)[q2],
{
    let s2 = s.remove(i);
    assert(s2.len() == s.len() - 1);
    assert forall|j: int| 0 <= j < s2.len() implies s2[j] == (if j < i {
        s[j]
    } else {
        s[j + 1]
    }) by {}
    assert forall|a: int, b: int| 0 <= a < b < s2.len() implies (#[trigger] s2[a]).0 != (
    #[trigger] s2[b]).0 by {
        let a0 = if a < i {
            a
        } else {
            a + 1
        };
        let b0 = if b < i {
            b
        } else {
            b + 1
        };
        assert(s2[a] == s[a0]);
        assert(s2[b] == s[b0]);
    }
    if seq_contains_quad(s2, s[i].0) {
        let m = choose|m: int| 0 <= m < s2.len() && (#[trigger] s2[m]).0 == s[i].0;
        let m0 = if m < i {
            m
        } else {
            m + 1
        };
        assert(s[m0].0 == s[i].0);
        assert(m0 != i);
    }
    assert forall|q2: Quad| q2 != s[i].0 implies (table_view(s2).contains_key(q2) <==> table_view(
        s,
    ).contains_key(q2)) by {
        if seq_contains_quad(s2, q2) {
            let m = choose|m: int| 0 <= m < s2.len() && (#[trigger] s2[m]).0 == q2;
            let m0 = if m < i {
                m
            } else {
                m + 1
            };
            assert(s[m0].0 == q2);
        }
        if seq_contains_quad(s, q2) {
            let m = choose|m: int| 0 <= m < s.len() && (#[trigger] s[m]).0 == q2;
            assert(m != i);
            let m2 = if m < i {
                m
            } else {
                m - 1
            };
            assert(s2[m2].0 == q2);
        }
    }
    assert forall|q2: Quad| q2 != s[i].0 && table_view(s).contains_key(q2) implies table_view(
        s2,
    )[q2] == table_view(s)[q2] by {
        let m = choose|m: int| 0 <= m < s.len() && (#[trigger] s[m]).0 == q2;
        let k = choose|k: int| 0 <= k < s2.len() && (#[trigger] s2[k]).0 == q2;
        let k0 = if k < i {
            k
        } else {
            k + 1
        };
        assert(s2[k] == s[k0]);
        assert(k0 == m);
    }
}

/// What routing one segment does to the table, stated over its map view:
/// connections on every other 4-tuple are untouched; a known 4-tuple is
/// stepped by [`step_spec`] (and leaves the table if that closes it); an
/// unknown 4-tuple is entered in SYN-RECEIVED if and only if the segment is
/// a plain SYN, and otherwise nothing changes.
pub open spec fn process_rel(
    pre: Map<Quad, Connection>,
    pre_iss: u32,
    pre_wnd: u16,
    post: Map<Quad, Connection>,
    quad: Quad,
    seg: TcpHeaderFields,
    payload: Seq<u8>,
) -> bool {
    &&& forall|q: Quad| q != quad ==> (post.contains_key(q) <==> pre.contains_key(q))
    &&& forall|q: Quad| q != quad && pre.contains_key(q) ==> post[q] == pre[q]
    &&& (pre.contains_key(quad) ==> {
        let o = step_spec(pre[quad], seg, payload);
        &&& (o.remove ==> !post.contains_key(quad))
        &&& (!o.remove ==> post.contains_key(quad) && post[quad].state == o.state
            && post[quad].send == o.send && post[quad].recv == o.recv && post[quad].incoming@
            == pre[quad].incoming@ + o.delivered)
    })
    &&& (!pre.contains_key(quad) && spec_syn_valid(seg) ==> post.contains_key(quad)
        && post[quad].state == State::SynRcvd && post[quad].send == (SendSequenceSpace {
        iss: pre_iss,
        una: pre_iss,
        nxt: wadd(pre_iss, 1),
        wnd: seg.wnd,
        up: false,
        wl1: seg.seq,
        wl2: 0,
    }) && post[quad].recv == (ReceiveSequenceSpace {
        irs: seg.seq,
        nxt: wadd(seg.seq, 1),
        wnd: pre_wnd,
        up: false,
    }) && post[quad].incoming@ == Seq::<u8>::empty())
    &&& (!pre.contains_key(quad) && !spec_syn_valid(seg) ==> post == pre)
}

/// The reply owed for one routed segment: the stepped connection's reply for
/// a known 4-tuple, the SYN+ACK of a passive open for a fresh plain SYN, and
/// nothing otherwise.
pub open spec fn spec_reply(
    pre: Map<Quad, Connection>,
    pre_iss: u32,
    pre_wnd: u16,
    quad: Quad,
    seg: TcpHeaderFields,
    payload: Seq<u8>,
) -> Option<SegmentIntent> {
    if pre.contains_key(quad) {
        step_spec(pre[quad], seg, payload).reply
    } else if spec_syn_valid(seg) {
        Some(
            SegmentIntent {
                seq: pre_iss,
                ackn: wadd(seg.seq, 1),
                wnd: pre_wnd,
                syn: true,
                ack: true,
                fin: false,
                rst: false,
            },
        )
    } else {
        None
    }
}

/// A datagram reaches the connection layer when its IPv4 header parses, it
/// carries TCP, and the TCP header parses out of the IP payload.
pub open spec fn spec_datagram_ok(b: Seq<u8>) -> bool {
    spec_ipv4_ok(b) && spec_ipv4_fields(b).protocol == 6 && spec_tcp_ok(spec_tcp_part(b))
}

/// The bytes after the IPv4 header: the TCP header and payload.
pub open spec fn spec_tcp_part(b: Seq<u8>) -> Seq<u8> {
    b.subrange(spec_ipv4_header_len(b), b.len() as int)
}

/// The payload bytes after both headers.
pub open spec fn spec_payload_part(b: Seq<u8>) -> Seq<u8> {
    let t = spec_tcp_part(b);
    t.subrange(spec_tcp_header_len(t), t.len() as int)
}

/// The 4-tuple of a datagram, as seen in the arriving direction.
pub open spec fn spec_quad_of(b: Seq<u8>) -> Quad {
    let ip = spec_ipv4_fields(b);
    let t = spec_tcp_fields(spec_tcp_part(b));
    Quad { src_ip: ip.src, src_port: t.src_port, dst_ip: ip.dst, dst_port: t.dst_port }
}

/// The connection table: at most one live connection per 4-tuple, plus the
/// initial-sequence-number counter and the receive window offered to new
/// connections.
pub struct ConnectionTable {
    entries: Vec<(Quad, Connection)>,
    iss_seed: u32,
    local_wnd: u16,
}

impl View for ConnectionTable {
    type V = Map<Quad, Connection>;

    closed spec fn view(&self) -> Map<Quad, Connection> {
        table_view(self.entries@)
    }
}

impl ConnectionTable {
    /// Keys are unique and every stored connection is well-formed.
    pub closed spec fn wf(&self) -> bool {
        quads_unique(self.entries@) && (forall|i: int|
            0 <= i < self.entries@.len() ==> (#[trigger] self.entries@[i]).1.wf())
    }

    /// The initial send sequence number the next accepted connection gets.
    pub closed spec fn next_iss(&self) -> u32 {
        self.iss_seed
    }

    /// The receive window offered to new connections.
    pub closed spec fn local_window(&self) -> u16 {
        self.local_wnd
    }

    /// An empty table.
    pub fn new(local_wnd: u16, iss_seed: u32) -> (r: ConnectionTable)
        ensures
            r@ == Map::<Quad, Connection>::empty(),
            r.wf(),
            r.next_iss() == iss_seed,
            r.local_window() == local_wnd,
    {
        let t = ConnectionTable { entries: Vec::new(), iss_seed, local_wnd };
        proof {
            assert(t@ =~= Map::<Quad, Connection>::empty());
        }
        t
    }

    /// The index of the entry carrying `quad`, if any.
    fn find(&self, quad: &Quad) -> (r: Option<usize>)
        requires
            self.wf(),
        ensures
            r matches Some(i) ==> i < self.entries@.len() && self.entries@[i as int].0 == *quad
                && self@.contains_key(*quad) && self@[*quad] == self.entries@[i as int].1,
            r is None ==> !self@.contains_key(*quad),
    {
        let n = self.entries.len();
        let mut i: usize = 0;
        while i < n
            invariant
                n == self.entries@.len(),
                0 <= i <= n,
                self.wf(),
                forall|j: int| 0 <= j < i ==> (#[trigger] self.entries@[j]).0 != *quad,
            decreases n - i,
        {
            if self.entries[i].0 == *quad {
                proof {
                    lemma_view_at(self.entries@, i as int);
                }
                return Some(i);
            }
            i = i + 1;
        }
        None
    }

    /// A read-only look at the connection for `quad`.
    pub fn get(&self, quad: &Quad) -> (r: Option<&Connection>)
        requires
            self.wf(),
        ensures
            r matches Some(c) ==> self@.contains_key(*quad) && *c == self@[*quad],
            r is None ==> !self@.contains_key(*quad),
    {
        match self.find(quad) {
            Some(i) => Some(&self.entries[i].1),
            None => None,
        }
    }

    /// Route one parsed segment (RFC 793 §3.9 / the demultiplexing rule):
    /// a known 4-tuple is handed to its connection; an unknown one is offered
    /// to passive open, which accepts exactly a plain SYN. Everything the
    /// call does is pinned by [`process_rel`] and [`spec_reply`] over the old
    /// view.
    pub fn process_segment(&mut self, quad: Quad, seg: &TcpHeaderFields, payload: &[u8]) -> (r:
        Option<SegmentIntent>)
        requires
            old(self).wf(),
            payload@.len() <= 0xFFFF,
        ensures
            final(self).wf(),
            process_rel(
                old(self)@,
                old(self).next_iss(),
                old(self).local_window(),
                final(self)@,
                quad,
                *seg,
                payload@,
            ),
            r == spec_reply(
                old(self)@,
                old(self).next_iss(),
                old(self).local_window(),
                quad,
                *seg,
                payload@,
            ),
            final(self).local_window() == old(self).local_window(),
    {
        match self.find(&quad) {
            Some(i) => {
                proof {
                    lemma_view_remove(self.entries@, i as int);
                }
                let (q, mut c) = self.entries.remove(i);
                let action = c.on_packet(seg, payload);
                if !action.remove {
                    proof {
                        lemma_view_push(self.entries@, q, c);
                    }
                    self.entries.push((q, c));
                }
                action.reply
            },
            None => {
                match Connection::accept(seg, self.iss_seed, self.local_wnd) {
                    Some((c, intent)) => {
                        proof {
                            lemma_view_push(self.entries@, quad, c);
                        }
                        self.entries.push((quad, c));
                        self.iss_seed = self.iss_seed.wrapping_add(1);
                        Some(intent)
                    },
                    None => None,
                }
            },
        }
    }

    /// Local close of the connection for `quad`: hands the close request to
    /// the connection (FIN from ESTABLISHED or CLOSE-WAIT, nothing
    /// otherwise) and returns the FIN to send. Other 4-tuples are untouched.
    pub fn close_connection(&mut self, quad: Quad) -> (r: Option<SegmentIntent>)
        requires
            old(self).wf(),
        ensures
            final(self).wf(),
            forall|q: Quad|
                q != quad ==> (final(self)@.contains_key(q) <==> old(self)@.contains_key(q)),
            forall|q: Quad|
                q != quad && old(self)@.contains_key(q) ==> final(self)@[q] == old(self)@[q],
            !old(self)@.contains_key(quad) ==> final(self)@ == old(self)@ && r is None,
            old(self)@.contains_key(quad) ==> final(self)@.contains_key(quad) && ({
                let c = old(self)@[quad];
                let c2 = final(self)@[quad];
                if c.state == State::Estab || c.state == State::CloseWait {
                    r == Some(SegmentIntent {
                        seq: c.send.nxt,
                        ackn: c.recv.nxt,
                        wnd: c.recv.wnd,
                        syn: false,
                        ack: true,
                        fin: true,
                        rst: false,
                    }) && c2.state == (if c.state == State::Estab {
                        State::FinWait1
                    } else {
                        State::LastAck
                    }) && c2.send == (SendSequenceSpace { nxt: wadd(c.send.nxt, 1), ..c.send })
                        && c2.recv == c.recv && c2.incoming@ == c.incoming@
                } else {
                    r is None && c2 == c
                }
            }),
    {
        match self.find(&quad) {
            Some(i) => {
                proof {
                    lemma_view_remove(self.entries@, i as int);
                }
                let (q, mut c) = self.entries.remove(i);
                let reply = c.close();
                proof {
                    lemma_view_push(self.entries@, q, c);
                }
                self.entries.push((q, c));
                reply
            },
            None => None,
        }
    }

    /// The event-loop body: take one raw inbound IP datagram and return the
    /// raw reply datagram, if one is owed. A datagram whose IPv4 header does
    /// not parse, which does not carry TCP, or whose TCP header does not
    /// parse is discarded without touching any connection. Otherwise the
    /// segment is routed exactly as [`Self::process_segment`] says, and the
    /// reply is the built datagram of the owed [`spec_reply`] intent, sent
    /// back with source and destination swapped.
    pub fn handle_datagram(&mut self, buf: &[u8]) -> (r: Option<Vec<u8>>)
        requires
            old(self).wf(),
            buf@.len() <= 0xFFFF,
        ensures
            final(self).wf(),
            final(self).local_window() == old(self).local_window(),
            !spec_datagram_ok(buf@) ==> final(self)@ == old(self)@ && r is None,
            spec_datagram_ok(buf@) ==> process_rel(
                old(self)@,
                old(self).next_iss(),
                old(self).local_window(),
                final(self)@,
                spec_quad_of(buf@),
                spec_tcp_fields(spec_tcp_part(buf@)),
                spec_payload_part(buf@),
            ),
            spec_datagram_ok(buf@) ==> {
                let reply = spec_reply(
                    old(self)@,
                    old(self).next_iss(),
                    old(self).local_window(),
                    spec_quad_of(buf@),
                    spec_tcp_fields(spec_tcp_part(buf@)),
                    spec_payload_part(buf@),
                );
                &&& (r is Some <==> reply is Some)
                &&& (reply matches Some(intent) ==> r matches Some(v) && v@ == spec_datagram_bytes(
                    spec_ipv4_fields(buf@).dst,
                    spec_ipv4_fields(buf@).src,
                    spec_tcp_fields(spec_tcp_part(buf@)).dst_port,
                    spec_tcp_fields(spec_tcp_part(buf@)).src_port,
                    intent.seq,
                    intent.ackn,
                    intent.syn,
                    intent.ack,
                    intent.fin,
                    intent.rst,
                    intent.wnd,
                    DEFAULT_TTL,
                ))
            },
    {
        let ip = match parse_ipv4(buf) {
            Some(ip) => ip,
            None => {
                return None;
            },
        };
        if ip.protocol != 6 {
            return None;
        }
        let tcp_buf = slice_subrange(buf, ip.header_len, buf.len());
        let seg = match parse_tcp(tcp_buf) {
            Some(seg) => seg,
            None => {
                return None;
            },
        };
        let payload = slice_subrange(tcp_buf, seg.header_len, tcp_buf.len());
        let quad = Quad {
            src_ip: ip.src,
            src_port: seg.src_port,
            dst_ip: ip.dst,
            dst_port: seg.dst_port,
        };
        match self.process_segment(quad, &seg, payload) {
            Some(intent) => Some(
                build_datagram(ip.dst, ip.src, seg.dst_port, seg.src_port, &intent, DEFAULT_TTL),
            ),
            None => None,
        }
    }

    /// Expiry of the TIME-WAIT timer for `quad`: a connection in TIME-WAIT
    /// reaches its terminal state and leaves the table; in any other state
    /// the expiry is spurious and nothing changes.
    pub fn expire(&mut self, quad: Quad) -> (r: bool)
        requires
            old(self).wf(),
        ensures
            final(self).wf(),
            forall|q: Quad|
                q != quad ==> (final(self)@.contains_key(q) <==> old(self)@.contains_key(q)),
            forall|q: Quad|
                q != quad && old(self)@.contains_key(q) ==> final(self)@[q] == old(self)@[q],
            !old(self)@.contains_key(quad) ==> final(self)@ == old(self)@ && !r,
            old(self)@.contains_key(quad) && old(self)@[quad].state == State::TimeWait ==> r
                && !final(self)@.contains_key(quad),
            old(self)@.contains_key(quad) && old(self)@[quad].state != State::TimeWait ==> !r
                && final(self)@.contains_key(quad) && final(self)@[quad] == old(self)@[quad],
    {
        match self.find(&quad) {
            Some(i) => {
                proof {
                    lemma_view_remove(self.entries@, i as int);
                }
                let (q, mut c) = self.entries.remove(i);
                let expired = c.timer_expired();
                if !expired {
                    proof {
                        lemma_view_push(self.entries@, q, c);
                    }
                    self.entries.push((q, c));
                }
                expired
            },
            None => false,
        }
    }
}

} // verus!
