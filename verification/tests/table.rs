//! Scenario tests for the connection table: 4-tuple isolation, lifecycle,
//! and removal.
use usertcp::segment::TcpHeaderFields;
use usertcp::table::ConnectionTable;
use usertcp::table::Quad;
use usertcp::tcp::State;

fn quad(src_port: u16) -> Quad {
    Quad { src_ip: 0x0A000002, src_port, dst_ip: 0x0A000001, dst_port: 80 }
}

fn syn(seq: u32, wnd: u16) -> TcpHeaderFields {
    TcpHeaderFields {
        src_port: 4000,
        dst_port: 80,
        seq,
        ackn: 0,
        wnd,
        syn: true,
        ack: false,
        fin: false,
        rst: false,
        header_len: 20,
    }
}

fn ack(seq: u32, ackn: u32, wnd: u16) -> TcpHeaderFields {
    TcpHeaderFields {
        src_port: 4000,
        dst_port: 80,
        seq,
        ackn,
        wnd,
        syn: false,
        ack: true,
        fin: false,
        rst: false,
        header_len: 20,
    }
}

#[test]
fn syn_creates_connection_and_syn_ack() {
    let mut t = ConnectionTable::new(1024, 9);
    let reply = t.process_segment(quad(4000), &syn(1000, 5000), &[]).unwrap();
    assert!(reply.syn && reply.ack);
    assert_eq!(reply.seq, 9);
    assert_eq!(reply.ackn, 1001);
    assert_eq!(reply.wnd, 1024);
    let c = t.get(&quad(4000)).unwrap();
    assert_eq!(c.state, State::SynRcvd);
    assert_eq!(c.send.iss, 9);
}

#[test]
fn non_syn_to_unknown_quad_is_dropped() {
    let mut t = ConnectionTable::new(1024, 9);
    assert!(t.process_segment(quad(4000), &ack(1000, 55, 5000), &[]).is_none());
    assert!(t.get(&quad(4000)).is_none());
}

#[test]
fn second_syn_does_not_replace_connection() {
    let mut t = ConnectionTable::new(1024, 9);
    t.process_segment(quad(4000), &syn(1000, 5000), &[]);
    let irs_before = t.get(&quad(4000)).unwrap().recv.irs;
    // a SYN for the same 4-tuple reaches the existing connection and must
    // not reset its spaces
    t.process_segment(quad(4000), &syn(4242, 5000), &[]);
    let c = t.get(&quad(4000)).unwrap();
    assert_eq!(c.recv.irs, irs_before);
    assert_eq!(c.send.iss, 9);
}

#[test]
fn four_tuple_isolation() {
    let mut t = ConnectionTable::new(1024, 9);
    // two connections differing only in source port
    t.process_segment(quad(4000), &syn(1000, 5000), &[]);
    t.process_segment(quad(4001), &syn(7777, 300), &[]);
    // complete only the first handshake, with payload afterwards
    t.process_segment(quad(4000), &ack(1001, 10, 5000), &[]);
    t.process_segment(quad(4000), &ack(1001, 10, 5000), b"abc");
    let a = t.get(&quad(4000)).unwrap();
    let b = t.get(&quad(4001)).unwrap();
    assert_eq!(a.state, State::Estab);
    assert_eq!(a.recv.nxt, 1004);
    assert_eq!(a.incoming, b"abc".to_vec());
    // the second connection's spaces are untouched
    assert_eq!(b.state, State::SynRcvd);
    assert_eq!(b.recv.irs, 7777);
    assert_eq!(b.recv.nxt, 7778);
    assert!(b.incoming.is_empty());
    assert_eq!(b.send.iss, 10);
}

#[test]
fn close_and_expire_remove_from_table() {
    let mut t = ConnectionTable::new(1024, 9);
    t.process_segment(quad(4000), &syn(1000, 5000), &[]);
    t.process_segment(quad(4000), &ack(1001, 10, 5000), &[]);
    assert_eq!(t.get(&quad(4000)).unwrap().state, State::Estab);
    // local close: FIN out, FIN-WAIT-1
    let fin = t.close_connection(quad(4000)).unwrap();
    assert!(fin.fin);
    assert_eq!(t.get(&quad(4000)).unwrap().state, State::FinWait1);
    // ACK of our FIN
    t.process_segment(quad(4000), &ack(1001, 11, 5000), &[]);
    assert_eq!(t.get(&quad(4000)).unwrap().state, State::FinWait2);
    // peer's FIN
    let mut f = ack(1001, 11, 5000);
    f.fin = true;
    let reply = t.process_segment(quad(4000), &f, &[]).unwrap();
    assert_eq!(reply.ackn, 1002);
    assert_eq!(t.get(&quad(4000)).unwrap().state, State::TimeWait);
    // a spurious expiry on an unknown quad does nothing
    assert!(!t.expire(quad(5000)));
    // timer expiry removes the connection
    assert!(t.expire(quad(4000)));
    assert!(t.get(&quad(4000)).is_none());
}

#[test]
fn rst_removes_connection() {
    let mut t = ConnectionTable::new(1024, 9);
    t.process_segment(quad(4000), &syn(1000, 5000), &[]);
    let mut r = ack(1001, 10, 5000);
    r.ack = false;
    r.rst = true;
    assert!(t.process_segment(quad(4000), &r, &[]).is_none());
    assert!(t.get(&quad(4000)).is_none());
}

#[test]
fn close_on_unknown_quad_is_none() {
    let mut t = ConnectionTable::new(1024, 9);
    assert!(t.close_connection(quad(4000)).is_none());
}
