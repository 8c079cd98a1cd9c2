//! Scenario tests for the sequence-number arithmetic, the acceptability
//! test, and the connection state machine.
use usertcp::segment::TcpHeaderFields;
use usertcp::seqnum::seq_before;
use usertcp::seqnum::segment_acceptable;
use usertcp::tcp::Connection;
use usertcp::tcp::State;

fn seg(seq: u32, ackn: u32, wnd: u16) -> TcpHeaderFields {
    TcpHeaderFields {
        src_port: 4000,
        dst_port: 80,
        seq,
        ackn,
        wnd,
        syn: false,
        ack: false,
        fin: false,
        rst: false,
        header_len: 20,
    }
}

fn syn(seq: u32, wnd: u16) -> TcpHeaderFields {
    let mut s = seg(seq, 0, wnd);
    s.syn = true;
    s
}

fn ack(seq: u32, ackn: u32, wnd: u16) -> TcpHeaderFields {
    let mut s = seg(seq, ackn, wnd);
    s.ack = true;
    s
}

/// Accept a SYN (seq 1000, window 5000) and complete the handshake.
fn established() -> Connection {
    let (mut c, syn_ack) = Connection::accept(&syn(1000, 5000), 77, 1024).unwrap();
    assert_eq!(c.state, State::SynRcvd);
    assert_eq!(syn_ack.seq, 77);
    assert_eq!(syn_ack.ackn, 1001);
    assert!(syn_ack.syn && syn_ack.ack);
    let a = c.on_packet(&ack(1001, 78, 5000), &[]);
    assert_eq!(c.state, State::Estab);
    assert!(a.reply.is_none());
    assert!(!a.remove);
    c
}

#[test]
fn wraparound_comparison_agrees_with_signed_distance() {
    // the wrap point itself
    assert!(seq_before(0xFFFFFFFF, 0x00000001));
    assert!(!seq_before(0x00000001, 0xFFFFFFFF));
    // a sweep of pairs: seq_before must agree with the sign of the wrapped
    // 32-bit difference
    let samples: [u32; 8] = [
        0,
        1,
        0x7FFFFFFF,
        0x80000000,
        0x80000001,
        0xFFFFFFFE,
        0xFFFFFFFF,
        12345,
    ];
    for &a in samples.iter() {
        for &b in samples.iter() {
            let signed = (a.wrapping_sub(b)) as i32;
            assert_eq!(seq_before(a, b), signed < 0, "a={:#x} b={:#x}", a, b);
        }
    }
}

#[test]
fn acceptability_window_edges() {
    // RCV.NXT = 100, RCV.WND = 50
    assert!(segment_acceptable(100, 50, 149, 0));
    assert!(!segment_acceptable(100, 50, 150, 0));
    // overlapping segment extends past the right window edge yet is accepted
    assert!(segment_acceptable(100, 50, 140, 20));
    // entirely before the window
    assert!(!segment_acceptable(100, 50, 80, 20));
    // first byte before the window but last byte inside
    assert!(segment_acceptable(100, 50, 90, 20));
}

#[test]
fn acceptability_zero_window() {
    assert!(segment_acceptable(100, 0, 100, 0));
    assert!(!segment_acceptable(100, 0, 101, 0));
    assert!(!segment_acceptable(100, 0, 100, 1));
}

#[test]
fn acceptability_across_wrap() {
    // window straddles the wrap point: [0xFFFFFFF0, 0x10)
    assert!(segment_acceptable(0xFFFFFFF0, 32, 0x00000005, 0));
    assert!(!segment_acceptable(0xFFFFFFF0, 32, 0x00000010, 0));
}

#[test]
fn handshake_reaches_established() {
    let c = established();
    assert_eq!(c.send.una, 78);
    assert_eq!(c.send.nxt, 78);
    assert_eq!(c.recv.nxt, 1001);
    assert_eq!(c.recv.irs, 1000);
    assert_eq!(c.send.iss, 77);
}

#[test]
fn accept_refuses_non_syn() {
    assert!(Connection::accept(&seg(5, 0, 100), 1, 100).is_none());
    assert!(Connection::accept(&ack(5, 9, 100), 1, 100).is_none());
    let mut rst_syn = syn(5, 100);
    rst_syn.rst = true;
    assert!(Connection::accept(&rst_syn, 1, 100).is_none());
}

#[test]
fn duplicate_ack_changes_nothing() {
    let mut c = established();
    let before = (c.state, c.send.una, c.send.nxt, c.recv.nxt);
    // redeliver the very ACK that completed the handshake
    let a = c.on_packet(&ack(1001, 78, 5000), &[]);
    assert!(a.reply.is_none());
    assert!(!a.remove);
    assert_eq!((c.state, c.send.una, c.send.nxt, c.recv.nxt), before);
    // and once more
    c.on_packet(&ack(1001, 78, 5000), &[]);
    assert_eq!((c.state, c.send.una, c.send.nxt, c.recv.nxt), before);
}

#[test]
fn payload_is_delivered_in_order_and_acked() {
    let mut c = established();
    let mut data = ack(1001, 78, 5000);
    data.ack = true;
    let a = c.on_packet(&data, b"hello");
    assert_eq!(c.recv.nxt, 1006);
    assert_eq!(c.incoming, b"hello".to_vec());
    let reply = a.reply.unwrap();
    assert!(reply.ack && !reply.syn && !reply.fin);
    assert_eq!(reply.ackn, 1006);
    assert_eq!(reply.seq, 78);
}

#[test]
fn overlapping_retransmission_delivers_only_new_bytes() {
    let mut c = established();
    c.on_packet(&ack(1001, 78, 5000), b"hello");
    assert_eq!(c.recv.nxt, 1006);
    // retransmission of "hello" plus two new bytes, starting at 1001
    let a = c.on_packet(&ack(1001, 78, 5000), b"hello!!");
    assert_eq!(c.recv.nxt, 1008);
    assert_eq!(c.incoming, b"hello!!".to_vec());
    assert_eq!(a.reply.unwrap().ackn, 1008);
}

#[test]
fn out_of_order_payload_is_not_delivered_but_acked() {
    let mut c = established();
    // bytes starting beyond RCV.NXT = 1001: in the window, but not next
    let a = c.on_packet(&ack(1005, 78, 5000), b"late");
    assert_eq!(c.recv.nxt, 1001);
    assert!(c.incoming.is_empty());
    // a duplicate ACK resynchronizes the peer
    assert_eq!(a.reply.unwrap().ackn, 1001);
}

#[test]
fn out_of_window_segment_in_syn_rcvd_is_dropped() {
    let (mut c, _) = Connection::accept(&syn(1000, 5000), 77, 1024).unwrap();
    let before_nxt = c.recv.nxt;
    // way outside [1001, 1001 + 1024)
    let a = c.on_packet(&ack(5000, 78, 5000), &[]);
    assert_eq!(c.state, State::SynRcvd);
    assert_eq!(c.recv.nxt, before_nxt);
    assert!(!a.remove);
    // the drop is answered with an ACK of the current RCV.NXT
    let reply = a.reply.unwrap();
    assert_eq!(reply.ackn, 1001);
    assert!(reply.ack && !reply.syn && !reply.fin && !reply.rst);
}

#[test]
fn rst_in_window_tears_down() {
    let mut c = established();
    let mut r = seg(1001, 0, 5000);
    r.rst = true;
    let a = c.on_packet(&r, &[]);
    assert_eq!(c.state, State::Closed);
    assert!(a.remove);
    assert!(a.reply.is_none());
}

#[test]
fn rst_out_of_window_is_ignored() {
    let mut c = established();
    let mut r = seg(9000, 0, 5000);
    r.rst = true;
    let a = c.on_packet(&r, &[]);
    assert_eq!(c.state, State::Estab);
    assert!(!a.remove);
    assert!(a.reply.is_none());
}

#[test]
fn local_close_full_sequence() {
    let mut c = established();
    // local close: FIN goes out, state FIN-WAIT-1
    let fin = c.close().unwrap();
    assert!(fin.fin && fin.ack);
    assert_eq!(fin.seq, 78);
    assert_eq!(c.state, State::FinWait1);
    assert_eq!(c.send.nxt, 79);
    // peer acknowledges our FIN
    let a = c.on_packet(&ack(1001, 79, 5000), &[]);
    assert_eq!(c.state, State::FinWait2);
    assert_eq!(c.send.una, 79);
    assert!(a.reply.is_none());
    // peer sends its own FIN
    let mut f = ack(1001, 79, 5000);
    f.fin = true;
    let a = c.on_packet(&f, &[]);
    assert_eq!(c.state, State::TimeWait);
    assert_eq!(c.recv.nxt, 1002);
    let reply = a.reply.unwrap();
    assert!(reply.ack);
    assert_eq!(reply.ackn, 1002);
    // timer expiry closes the connection
    let mut c2 = c;
    assert!(c2.timer_expired());
    assert_eq!(c2.state, State::Closed);
}

#[test]
fn simultaneous_close_goes_through_closing() {
    let mut c = established();
    c.close().unwrap();
    assert_eq!(c.state, State::FinWait1);
    // peer's FIN arrives before its ACK of ours
    let mut f = seg(1001, 0, 5000);
    f.fin = true;
    let a = c.on_packet(&f, &[]);
    assert_eq!(c.state, State::Closing);
    assert_eq!(a.reply.unwrap().ackn, 1002);
    // now the ACK of our FIN
    c.on_packet(&ack(1002, 79, 5000), &[]);
    assert_eq!(c.state, State::TimeWait);
}

#[test]
fn passive_close_through_close_wait_and_last_ack() {
    let mut c = established();
    // peer closes first
    let mut f = ack(1001, 78, 5000);
    f.fin = true;
    let a = c.on_packet(&f, &[]);
    assert_eq!(c.state, State::CloseWait);
    assert_eq!(a.reply.unwrap().ackn, 1002);
    // local close sends our FIN
    let fin = c.close().unwrap();
    assert!(fin.fin);
    assert_eq!(c.state, State::LastAck);
    // the ACK of our FIN closes the connection
    let a = c.on_packet(&ack(1002, 79, 5000), &[]);
    assert_eq!(c.state, State::Closed);
    assert!(a.remove);
}

#[test]
fn payload_larger_than_window_is_trimmed() {
    let mut c = established();
    // 2000 bytes offered against a 1024-byte receive window, FIN behind them
    let data = vec![0x61u8; 2000];
    let mut f = ack(1001, 78, 5000);
    f.fin = true;
    let a = c.on_packet(&f, &data);
    assert_eq!(c.incoming.len(), 1024);
    assert_eq!(c.recv.nxt, 1001 + 1024);
    assert_eq!(a.reply.unwrap().ackn, 1001 + 1024);
    // the FIN sits beyond the trimmed payload and is not yet processed
    assert_eq!(c.state, State::Estab);
}

#[test]
fn window_update_rule_rejects_stale_update() {
    let mut c = established();
    // a fresh ACK carries a new window
    c.on_packet(&ack(1001, 78, 3000), &[]);
    assert_eq!(c.send.wnd, 3000);
    // an older duplicate (same SEG.SEQ, older SEG.ACK) must not revert it
    c.on_packet(&ack(1001, 77, 9999), &[]);
    assert_eq!(c.send.wnd, 3000);
    // an out-of-window segment must not touch it either
    c.on_packet(&ack(900, 78, 9999), &[]);
    assert_eq!(c.send.wnd, 3000);
}
