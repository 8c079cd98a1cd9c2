//! The per-connection protocol engine: send/receive sequence spaces and the
//! RFC 793 connection state machine.
//!
//! Every observable effect of processing one inbound segment is fixed by the
//! specification function [`step_spec`]: the successor state, the updated
//! sequence spaces, the payload bytes appended to the receive stream, the
//! outbound reply (if any), and whether the connection is to be removed.
//! The executable entry point [`Connection::on_packet`] is proved to realize
//! exactly that function.
use crate::segment::SegmentIntent;
use crate::segment::TcpHeaderFields;
use crate::segment::spec_seg_len;
use crate::seqnum::seq_add;
use crate::seqnum::seq_sub;
use crate::seqnum::seq_before;
use crate::seqnum::seq_lt;
use crate::seqnum::seq_le;
use crate::seqnum::segment_acceptable;
use crate::seqnum::spec_acceptable;
use crate::seqnum::wadd;
use crate::seqnum::wsub;
use vstd::prelude::*;

verus! {

/// The protocol state of one connection. `Closed` is the terminal state and
/// is never stored in the connection table; `Listen` is the passive-open
/// placeholder (creation is implicit on SYN, so it is never stored either).
#[derive(Clone, Copy, PartialEq, Eq, Structural, Debug)]
pub enum State {
    Closed,
    Listen,
    SynRcvd,
    Estab,
    FinWait1,
    FinWait2,
    CloseWait,
    Closing,
    LastAck,
    TimeWait,
}

/// State of the send sequence space (RFC 793 §3.2).
///
/// ```text
///         1         2          3          4
///     ----------|----------|----------|----------
///            SND.UNA    SND.NXT    SND.UNA
///                                 +SND.WND
/// ```
///
/// 1: old sequence numbers which have been acknowledged; 2: sequence numbers
/// of unacknowledged data; 3: sequence numbers allowed for new data
/// transmission; 4: future sequence numbers which are not yet allowed.
#[derive(Clone, Copy, PartialEq, Eq, Structural, Debug)]
pub struct SendSequenceSpace {
    /// Initial send sequence number, fixed at creation.
    pub iss: u32,
    /// Oldest unacknowledged sequence number.
    pub una: u32,
    /// Next sequence number to send.
    pub nxt: u32,
    /// Peer-advertised send window.
    pub wnd: u16,
    /// Send urgent flag (stored, never interpreted).
    pub up: bool,
    /// Segment sequence number of the last window update.
    pub wl1: u32,
    /// Segment acknowledgment number of the last window update.
    pub wl2: u32,
}

/// State of the receive sequence space (RFC 793 §3.2).
///
/// ```text
///         1          2          3
///     ----------|----------|----------
///             RCV.NXT    RCV.NXT
///                     +RCV.WND
/// ```
///
/// 1: old sequence numbers which have been acknowledged; 2: sequence numbers
/// allowed for new reception; 3: future sequence numbers not yet allowed.
#[derive(Clone, Copy, PartialEq, Eq, Structural, Debug)]
pub struct ReceiveSequenceSpace {
    /// Initial receive sequence number, fixed at creation.
    pub irs: u32,
    /// Next expected sequence number.
    pub nxt: u32,
    /// Locally advertised receive window.
    pub wnd: u16,
    /// Receive urgent flag (stored, never interpreted).
    pub up: bool,
}

/// One TCP connection: its protocol state, both sequence spaces, and the
/// in-order receive stream assembled so far.
pub struct Connection {
    /// Current protocol state.
    pub state: State,
    /// Send sequence space.
    pub send: SendSequenceSpace,
    /// Receive sequence space.
    pub recv: ReceiveSequenceSpace,
    /// The bytes accepted in order from the peer, in arrival order.
    pub incoming: Vec<u8>,
}

/// What processing one inbound segment asks of the caller: an optional reply
/// segment, and whether the connection has reached its terminal state and is
/// to be dropped from the table.
#[derive(Clone, Copy, PartialEq, Eq, Structural, Debug)]
pub struct Action {
    /// Reply to send back to the peer, if any.
    pub reply: Option<SegmentIntent>,
    /// True when the connection is closed and must leave the table.
    pub remove: bool,
}

/// The full effect of one inbound segment, at the specification level.
pub struct StepOutcome {
    /// Successor protocol state.
    pub state: State,
    /// Successor send sequence space.
    pub send: SendSequenceSpace,
    /// Successor receive sequence space.
    pub recv: ReceiveSequenceSpace,
    /// Payload bytes appended to the receive stream.
    pub delivered: Seq<u8>,
    /// Reply segment, if one is owed.
    pub reply: Option<SegmentIntent>,
    /// Whether the connection reached its terminal state.
    pub remove: bool,
}

/// A pure acknowledgment carrying the current `RCV.NXT`, used both to
/// acknowledge received data and to resynchronize a peer that sent an
/// out-of-window segment.
pub open spec fn spec_ack_intent(snd: SendSequenceSpace, rcv: ReceiveSequenceSpace) -> SegmentIntent {
    SegmentIntent {
        seq: snd.nxt,
        ackn: rcv.nxt,
        wnd: rcv.wnd,
        syn: false,
        ack: true,
        fin: false,
        rst: false,
    }
}

/// A segment opens a fresh connection iff it carries SYN and none of the
/// flags that would make it invalid for a fresh open.
pub open spec fn spec_syn_valid(seg: TcpHeaderFields) -> bool {
    seg.syn && !seg.ack && !seg.fin && !seg.rst
}

/// Acknowledgment processing in the synchronized states: advance `SND.UNA`
/// for an ACK that acknowledges new data, apply the window-update ordering
/// rule, and take the "ACK of FIN" transitions. Returns the successor state,
/// the successor send space, and whether the connection is removed
/// (LAST-ACK only).
pub open spec fn spec_ack_step(state: State, snd: SendSequenceSpace, seg: TcpHeaderFields) -> (
    State,
    SendSequenceSpace,
    bool,
) {
    if !seg.ack {
        (state, snd, false)
    } else {
        // SND.UNA advances only for SND.UNA < SEG.ACK <= SND.NXT.
        let una2 = if seq_lt(snd.una, seg.ackn) && seq_le(seg.ackn, snd.nxt) {
            seg.ackn
        } else {
            snd.una
        };
        // The window updates only from a segment at least as new as the last
        // update: SND.UNA <= SEG.ACK and (WL1 < SEG.SEQ, or WL1 = SEG.SEQ and
        // WL2 <= SEG.ACK).
        let snd2 = if seq_le(una2, seg.ackn) && (seq_lt(snd.wl1, seg.seq) || (snd.wl1 == seg.seq
            && seq_le(snd.wl2, seg.ackn))) {
            SendSequenceSpace {
                una: una2,
                wnd: seg.wnd,
                wl1: seg.seq,
                wl2: seg.ackn,
                ..snd
            }
        } else {
            SendSequenceSpace { una: una2, ..snd }
        };
        // Our FIN is acknowledged when everything sent, the FIN included, is.
        let fin_acked = seg.ackn == snd.nxt;
        match state {
            State::FinWait1 => if fin_acked {
                (State::FinWait2, snd2, false)
            } else {
                (state, snd2, false)
            },
            State::Closing => if fin_acked {
                (State::TimeWait, snd2, false)
            } else {
                (state, snd2, false)
            },
            State::LastAck => if fin_acked {
                (State::Closed, snd2, true)
            } else {
                (state, snd2, false)
            },
            _ => (state, snd2, false),
        }
    }
}

/// How many payload bytes of a segment starting at `seq` are accepted: the
/// bytes from `RCV.NXT` on (earlier bytes are duplicates, later ones are out
/// of order), trimmed to the receive window.
pub open spec fn spec_deliver_count(rcv: ReceiveSequenceSpace, seq: u32, plen: nat) -> nat {
    let offset = wsub(rcv.nxt, seq) as nat;
    if offset < plen {
        if plen - offset <= rcv.wnd as nat {
            (plen - offset) as nat
        } else {
            rcv.wnd as nat
        }
    } else {
        0
    }
}

/// The payload bytes appended to the receive stream.
pub open spec fn spec_delivered(rcv: ReceiveSequenceSpace, seq: u32, payload: Seq<u8>) -> Seq<u8> {
    let offset = wsub(rcv.nxt, seq) as int;
    let count = spec_deliver_count(rcv, seq, payload.len()) as int;
    if count > 0 {
        payload.subrange(offset, offset + count)
    } else {
        Seq::empty()
    }
}

/// The effect of one inbound segment on a connection (RFC 793 §3.9, reduced
/// to the transitions this layer realizes):
///
/// * An out-of-window segment changes nothing; unless it carries RST it is
///   answered with a pure ACK of the current `RCV.NXT` so the peer can
///   resynchronize.
/// * An in-window RST tears the connection down.
/// * In SYN-RECEIVED, an ACK of `ISS + 1` completes the handshake.
/// * In the synchronized states, an ACK may advance `SND.UNA`, update the
///   send window, and acknowledge our FIN; in-order payload (ESTABLISHED
///   only) is appended to the receive stream and advances `RCV.NXT`; an
///   in-order FIN advances `RCV.NXT` and takes the close transitions. Any
///   segment that occupied sequence space is answered with an ACK.
pub open spec fn step_spec(c: Connection, seg: TcpHeaderFields, payload: Seq<u8>) -> StepOutcome {
    let slen = spec_seg_len(payload.len(), seg.syn, seg.fin);
    if !spec_acceptable(c.recv.nxt, c.recv.wnd, seg.seq, slen) {
        StepOutcome {
            state: c.state,
            send: c.send,
            recv: c.recv,
            delivered: Seq::empty(),
            reply: if seg.rst {
                None
            } else {
                Some(spec_ack_intent(c.send, c.recv))
            },
            remove: false,
        }
    } else if seg.rst {
        StepOutcome {
            state: State::Closed,
            send: c.send,
            recv: c.recv,
            delivered: Seq::empty(),
            reply: None,
            remove: true,
        }
    } else {
        match c.state {
            State::Closed | State::Listen => StepOutcome {
                state: c.state,
                send: c.send,
                recv: c.recv,
                delivered: Seq::empty(),
                reply: None,
                remove: false,
            },
            State::SynRcvd => if seg.ack && seg.ackn == wadd(c.send.iss, 1) {
                StepOutcome {
                    state: State::Estab,
                    send: SendSequenceSpace {
                        una: seg.ackn,
                        wnd: seg.wnd,
                        wl1: seg.seq,
                        wl2: seg.ackn,
                        ..c.send
                    },
                    recv: c.recv,
                    delivered: Seq::empty(),
                    reply: None,
                    remove: false,
                }
            } else {
                StepOutcome {
                    state: c.state,
                    send: c.send,
                    recv: c.recv,
                    delivered: Seq::empty(),
                    reply: None,
                    remove: false,
                }
            },
            _ => if seg.syn {
                // An in-window SYN on a synchronized connection has no row in
                // the transition table; the segment is dropped.
                StepOutcome {
                    state: c.state,
                    send: c.send,
                    recv: c.recv,
                    delivered: Seq::empty(),
                    reply: None,
                    remove: false,
                }
            } else {
                let (st1, snd1, removed) = spec_ack_step(c.state, c.send, seg);
                if removed {
                    StepOutcome {
                        state: st1,
                        send: snd1,
                        recv: c.recv,
                        delivered: Seq::empty(),
                        reply: None,
                        remove: true,
                    }
                } else {
                    let delivered = if st1 == State::Estab {
                        spec_delivered(c.recv, seg.seq, payload)
                    } else {
                        Seq::empty()
                    };
                    let rcv1 = ReceiveSequenceSpace {
                        nxt: wadd(c.recv.nxt, delivered.len() as u32),
                        ..c.recv
                    };
                    // The FIN is processed only once it is the next expected
                    // sequence number, i.e. all payload before it has been
                    // received.
                    let fin_here = seg.fin && wadd(seg.seq, payload.len() as u32) == rcv1.nxt
                        && (st1 == State::Estab || st1 == State::FinWait1 || st1
                        == State::FinWait2);
                    let rcv2 = if fin_here {
                        ReceiveSequenceSpace { nxt: wadd(rcv1.nxt, 1), ..rcv1 }
                    } else {
                        rcv1
                    };
                    let st2 = if fin_here {
                        match st1 {
                            State::Estab => State::CloseWait,
                            State::FinWait1 => State::Closing,
                            _ => State::TimeWait,
                        }
                    } else {
                        st1
                    };
                    StepOutcome {
                        state: st2,
                        send: snd1,
                        recv: rcv2,
                        delivered: delivered,
                        reply: if payload.len() > 0 || fin_here {
                            Some(spec_ack_intent(snd1, rcv2))
                        } else {
                            None
                        },
                        remove: false,
                    }
                }
            },
        }
    }
}

/// Duplicate-ACK tolerance: redelivering an acknowledgment that is already
/// covered (`SEG.ACK` at or before `SND.UNA`) to an established connection
/// changes neither `SND.UNA`, nor `SND.NXT`, nor the state, and does not
/// remove the connection — however often it is redelivered.
pub proof fn lemma_duplicate_ack_idempotent(c: Connection, seg: TcpHeaderFields)
    requires
        c.state == State::Estab,
        seg.ack,
        !seg.syn,
        !seg.fin,
        !seg.rst,
        seq_le(seg.ackn, c.send.una),
    ensures
        ({
            let o = step_spec(c, seg, Seq::empty());
            o.state == c.state && o.send.una == c.send.una && o.send.nxt == c.send.nxt
                && o.recv.nxt == c.recv.nxt && o.delivered.len() == 0 && !o.remove
        }),
{
}

/// An out-of-window segment is dropped whole: whatever it carries, it
/// changes nothing of the connection — in particular `RCV.NXT` does not
/// advance — and, unless it carries RST, it is answered with a pure ACK of
/// the current `RCV.NXT`.
pub proof fn lemma_unacceptable_segment_dropped(c: Connection, seg: TcpHeaderFields, payload: Seq<
    u8,
>)
    requires
        !spec_acceptable(c.recv.nxt, c.recv.wnd, seg.seq, spec_seg_len(payload.len(), seg.syn, seg.fin)),
    ensures
        ({
            let o = step_spec(c, seg, payload);
            o.state == c.state && o.send == c.send && o.recv == c.recv && o.delivered.len() == 0
                && !o.remove && (!seg.rst ==> o.reply == Some(spec_ack_intent(c.send, c.recv)))
                && (seg.rst ==> o.reply is None)
        }),
{
}

/// `ISS` and `IRS` are chosen once at connection creation and never mutated:
/// no inbound segment changes them.
pub proof fn lemma_initial_numbers_never_change(c: Connection, seg: TcpHeaderFields, payload: Seq<
    u8,
>)
    ensures
        step_spec(c, seg, payload).send.iss == c.send.iss,
        step_spec(c, seg, payload).recv.irs == c.recv.irs,
{
}

/// `RCV.NXT` never regresses: an inbound segment advances it by at most the
/// sequence space the segment itself occupies (so by nothing at all when the
/// segment carries nothing).
pub proof fn lemma_recv_nxt_only_advances(c: Connection, seg: TcpHeaderFields, payload: Seq<u8>)
    requires
        payload.len() <= 0xFFFF,
    ensures
        ({
            let o = step_spec(c, seg, payload);
            wsub(o.recv.nxt, c.recv.nxt) <= spec_seg_len(payload.len(), seg.syn, seg.fin)
        }),
{
}

impl Connection {
    /// Well-formedness of the send sequence space relative to the protocol
    /// state. This layer sends no payload of its own, so at most one
    /// sequence number (the SYN or the FIN) is ever in flight:
    /// in SYN-RECEIVED the unacknowledged SYN sits at `ISS`; in the states
    /// where a FIN of ours is outstanding, `SND.NXT = SND.UNA + 1`; in every
    /// other synchronized state everything sent has been acknowledged.
    pub open spec fn wf(self) -> bool {
        match self.state {
            State::Closed | State::Listen => true,
            State::SynRcvd => self.send.una == self.send.iss && self.send.nxt == wadd(
                self.send.iss,
                1,
            ),
            State::Estab | State::FinWait2 | State::CloseWait | State::TimeWait => self.send.una
                == self.send.nxt,
            State::FinWait1 | State::Closing | State::LastAck => self.send.nxt == wadd(
                self.send.una,
                1,
            ),
        }
    }

    /// Passive open (RFC 793 §3.4): a SYN for a 4-tuple with no existing
    /// connection creates one in SYN-RECEIVED and answers with SYN+ACK.
    ///
    /// `iss` is the initial send sequence number chosen by the caller (a
    /// counter- or clock-derived value); `local_wnd` is the locally offered
    /// receive window. Any segment that is not a plain SYN is refused.
    pub fn accept(seg: &TcpHeaderFields, iss: u32, local_wnd: u16) -> (r: Option<
        (Connection, SegmentIntent),
    >)
        ensures
            r is Some <==> spec_syn_valid(*seg),
            r matches Some((c, intent)) ==> c.state == State::SynRcvd && c.send
                == (SendSequenceSpace {
                iss,
                una: iss,
                nxt: wadd(iss, 1),
                wnd: seg.wnd,
                up: false,
                wl1: seg.seq,
                wl2: 0,
            }) && c.recv == (ReceiveSequenceSpace {
                irs: seg.seq,
                nxt: wadd(seg.seq, 1),
                wnd: local_wnd,
                up: false,
            }) && c.incoming@ == Seq::<u8>::empty() && intent == (SegmentIntent {
                seq: iss,
                ackn: wadd(seg.seq, 1),
                wnd: local_wnd,
                syn: true,
                ack: true,
                fin: false,
                rst: false,
            }) && c.wf(),
    {
        if !(seg.syn && !seg.ack && !seg.fin && !seg.rst) {
            return None;
        }
        let connection = Connection {
            state: State::SynRcvd,
            send: SendSequenceSpace {
                iss,
                una: iss,
                nxt: seq_add(iss, 1),
                wnd: seg.wnd,
                up: false,
                wl1: seg.seq,
                wl2: 0,
            },
            recv: ReceiveSequenceSpace {
                irs: seg.seq,
                nxt: seq_add(seg.seq, 1),
                wnd: local_wnd,
                up: false,
            },
            incoming: Vec::new(),
        };
        let syn_ack = SegmentIntent {
            seq: iss,
            ackn: connection.recv.nxt,
            wnd: local_wnd,
            syn: true,
            ack: true,
            fin: false,
            rst: false,
        };
        Some((connection, syn_ack))
    }

    /// Process one inbound segment. The whole effect — successor state,
    /// sequence spaces, bytes appended to the receive stream, the reply, and
    /// removal — is exactly [`step_spec`] on the old connection.
    #[verifier::rlimit(60)]
    pub fn on_packet(&mut self, seg: &TcpHeaderFields, payload: &[u8]) -> (r: Action)
        requires
            old(self).wf(),
            payload@.len() <= 0xFFFF,
        ensures
            final(self).wf(),
            ({
                let o = step_spec(*old(self), *seg, payload@);
                final(self).state == o.state && final(self).send == o.send && final(self).recv
                    == o.recv && final(self).incoming@ == old(self).incoming@ + o.delivered
                    && r.reply == o.reply && r.remove == o.remove
            }),
    {
        let plen = payload.len();
        let slen: u32 = plen as u32 + (if seg.syn {
            1
        } else {
            0
        }) + (if seg.fin {
            1
        } else {
            0
        });
        if !segment_acceptable(self.recv.nxt, self.recv.wnd, seg.seq, slen) {
            // Dropped; a non-RST out-of-window segment is answered with an
            // ACK of the current RCV.NXT so the peer can resynchronize.
            if seg.rst {
                return Action { reply: None, remove: false };
            }
            return Action { reply: Some(self.ack_intent()), remove: false };
        }
        if seg.rst {
            self.state = State::Closed;
            return Action { reply: None, remove: true };
        }
        match self.state {
            State::Closed | State::Listen => Action { reply: None, remove: false },
            State::SynRcvd => {
                if seg.ack && seg.ackn == seq_add(self.send.iss, 1) {
                    self.send.una = seg.ackn;
                    self.send.wnd = seg.wnd;
                    self.send.wl1 = seg.seq;
                    self.send.wl2 = seg.ackn;
                    self.state = State::Estab;
                }
                Action { reply: None, remove: false }
            },
            _ => {
                if seg.syn {
                    return Action { reply: None, remove: false };
                }
                if seg.ack {
                    if seq_before(self.send.una, seg.ackn) && !seq_before(self.send.nxt, seg.ackn) {
                        self.send.una = seg.ackn;
                    }
                    if !seq_before(seg.ackn, self.send.una) && (seq_before(self.send.wl1, seg.seq)
                        || (self.send.wl1 == seg.seq && !seq_before(seg.ackn, self.send.wl2))) {
                        self.send.wnd = seg.wnd;
                        self.send.wl1 = seg.seq;
                        self.send.wl2 = seg.ackn;
                    }
                    let fin_acked = seg.ackn == self.send.nxt;
                    if fin_acked && self.state == State::FinWait1 {
                        self.state = State::FinWait2;
                    } else if fin_acked && self.state == State::Closing {
                        self.state = State::TimeWait;
                    } else if fin_acked && self.state == State::LastAck {
                        self.state = State::Closed;
                        return Action { reply: None, remove: true };
                    }
                }
                let mut delivered: usize = 0;
                if self.state == State::Estab && plen > 0 {
                    let offset32 = seq_sub(self.recv.nxt, seg.seq);
                    if offset32 < plen as u32 {
                        let offset = offset32 as usize;
                        let room = self.recv.wnd as usize;
                        let count = if plen - offset <= room {
                            plen - offset
                        } else {
                            room
                        };
                        let ghost pre = self.incoming@;
                        let ghost pre_state = self.state;
                        let ghost pre_send = self.send;
                        let ghost pre_recv = self.recv;
                        let mut i: usize = 0;
                        while i < count
                            invariant
                                0 <= i <= count,
                                offset + count <= plen,
                                plen == payload@.len(),
                                self.incoming@ == pre + payload@.subrange(
                                    offset as int,
                                    offset as int + i as int,
                                ),
                                self.state == pre_state,
                                self.send == pre_send,
                                self.recv == pre_recv,
                            decreases count - i,
                        {
                            self.incoming.push(payload[offset + i]);
                            i = i + 1;
                        }
                        self.recv.nxt = seq_add(self.recv.nxt, count as u32);
                        delivered = count;
                    }
                }
                let mut fin_here = false;
                if seg.fin && (self.state == State::Estab || self.state == State::FinWait1
                    || self.state == State::FinWait2) {
                    if seq_add(seg.seq, plen as u32) == self.recv.nxt {
                        fin_here = true;
                        self.recv.nxt = seq_add(self.recv.nxt, 1);
                        self.state = if self.state == State::Estab {
                            State::CloseWait
                        } else if self.state == State::FinWait1 {
                            State::Closing
                        } else {
                            State::TimeWait
                        };
                    }
                }
                if plen > 0 || fin_here {
                    Action { reply: Some(self.ack_intent()), remove: false }
                } else {
                    Action { reply: None, remove: false }
                }
            },
        }
    }

    /// A pure ACK of the current receive state.
    fn ack_intent(&self) -> (r: SegmentIntent)
        ensures
            r == spec_ack_intent(self.send, self.recv),
    {
        SegmentIntent {
            seq: self.send.nxt,
            ackn: self.recv.nxt,
            wnd: self.recv.wnd,
            syn: false,
            ack: true,
            fin: false,
            rst: false,
        }
    }

    /// Local close: send a FIN. From ESTABLISHED the connection enters
    /// FIN-WAIT-1; from CLOSE-WAIT it enters LAST-ACK. In any other state a
    /// close request does nothing.
    pub fn close(&mut self) -> (r: Option<SegmentIntent>)
        requires
            old(self).wf(),
        ensures
            final(self).wf(),
            old(self).state == State::Estab || old(self).state == State::CloseWait ==> r
                == Some(SegmentIntent {
                seq: old(self).send.nxt,
                ackn: old(self).recv.nxt,
                wnd: old(self).recv.wnd,
                syn: false,
                ack: true,
                fin: true,
                rst: false,
            }) && final(self).send == (SendSequenceSpace {
                nxt: wadd(old(self).send.nxt, 1),
                ..old(self).send
            }) && final(self).recv == old(self).recv
                && final(self).incoming@ == old(self).incoming@
                && final(self).state == (if old(self).state == State::Estab {
                State::FinWait1
            } else {
                State::LastAck
            }),
            !(old(self).state == State::Estab || old(self).state == State::CloseWait) ==> r is None
                && *final(self) == *old(self),
    {
        if self.state == State::Estab || self.state == State::CloseWait {
            let fin = SegmentIntent {
                seq: self.send.nxt,
                ackn: self.recv.nxt,
                wnd: self.recv.wnd,
                syn: false,
                ack: true,
                fin: true,
                rst: false,
            };
            self.send.nxt = seq_add(self.send.nxt, 1);
            self.state = if self.state == State::Estab {
                State::FinWait1
            } else {
                State::LastAck
            };
            Some(fin)
        } else {
            None
        }
    }

    /// Expiry of the TIME-WAIT timer (2×MSL): the connection reaches its
    /// terminal state and must leave the table. In any other state the
    /// expiry is spurious and does nothing.
    pub fn timer_expired(&mut self) -> (r: bool)
        requires
            old(self).wf(),
        ensures
            final(self).wf(),
            old(self).state == State::TimeWait ==> r
                && final(self).state == State::Closed
                && final(self).send == old(self).send
                && final(self).recv == old(self).recv
                && final(self).incoming@ == old(self).incoming@,
            old(self).state != State::TimeWait ==> !r && *final(self) == *old(self),
    {
        if self.state == State::TimeWait {
            self.state = State::Closed;
            true
        } else {
            false
        }
    }
}

} // verus!
