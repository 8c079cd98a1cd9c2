//! The header-codec boundary: parsing and building of IPv4/TCP headers is
//! delegated to the `etherparse` crate behind trusted wrappers.
//!
//! The parsing contracts are exact: they say, over the raw bytes, when a
//! header is accepted and which big-endian fields of the byte sequence each
//! returned value is. The datagram builder's output is named by an
//! uninterpreted function, since its byte layout (checksums included) is
//! `etherparse`'s business; its length is pinned.
use crate::segment::IpHeaderFields;
use crate::segment::SegmentIntent;
use crate::segment::TcpHeaderFields;
use vstd::prelude::*;

verus! {

/// The big-endian 16-bit value at offset `i`.
pub open spec fn be16_at(b: Seq<u8>, i: int) -> u16 {
    (b[i] * 0x100 + b[i + 1]) as u16
}

/// The big-endian 32-bit value at offset `i`.
pub open spec fn be32_at(b: Seq<u8>, i: int) -> u32 {
    (b[i] * 0x1000000 + b[i + 1] * 0x10000 + b[i + 2] * 0x100 + b[i + 3]) as u32
}

/// Length in bytes of the IPv4 header: the low nibble of the first byte
/// (the "internet header length", in 32-bit words) times 4.
pub open spec fn spec_ipv4_header_len(b: Seq<u8>) -> int {
    (b[0] % 16) * 4
}

/// When the IPv4 header parser accepts a slice: at least 20 bytes, version
/// nibble 4, header length of at least 5 words, and the slice long enough to
/// hold the whole header.
pub open spec fn spec_ipv4_ok(b: Seq<u8>) -> bool {
    b.len() >= 20 && b[0] / 16 == 4 && b[0] % 16 >= 5 && b.len() >= spec_ipv4_header_len(b)
}

/// Length in bytes of the TCP header: the high nibble of byte 12 (the "data
/// offset", in 32-bit words) times 4.
pub open spec fn spec_tcp_header_len(b: Seq<u8>) -> int {
    (b[12] / 16) * 4
}

/// When the TCP header parser accepts a slice: at least 20 bytes, a data
/// offset of at least 5 words, and the slice long enough to hold the whole
/// header.
pub open spec fn spec_tcp_ok(b: Seq<u8>) -> bool {
    b.len() >= 20 && b[12] / 16 >= 5 && b.len() >= spec_tcp_header_len(b)
}

/// The IPv4 header fields as read from the raw bytes.
pub open spec fn spec_ipv4_fields(b: Seq<u8>) -> IpHeaderFields {
    IpHeaderFields {
        src: be32_at(b, 12),
        dst: be32_at(b, 16),
        protocol: b[9],
        header_len: spec_ipv4_header_len(b) as usize,
    }
}

/// The TCP header fields as read from the raw bytes. The flag bits live in
/// byte 13: FIN is bit 0, SYN bit 1, RST bit 2, ACK bit 4.
pub open spec fn spec_tcp_fields(b: Seq<u8>) -> TcpHeaderFields {
    TcpHeaderFields {
        src_port: be16_at(b, 0),
        dst_port: be16_at(b, 2),
        seq: be32_at(b, 4),
        ackn: be32_at(b, 8),
        wnd: be16_at(b, 14),
        fin: b[13] % 2 == 1,
        syn: (b[13] / 2) % 2 == 1,
        rst: (b[13] / 4) % 2 == 1,
        ack: (b[13] / 16) % 2 == 1,
        header_len: spec_tcp_header_len(b) as usize,
    }
}

/// Relies on `etherparse::Ipv4HeaderSlice::from_slice`: it accepts exactly
/// the slices admitted by `spec_ipv4_ok` (length, version nibble, header
/// length checks) and reads addresses at offsets 12 and 16, the protocol at
/// offset 9, and the header length from the low nibble of byte 0.
#[verifier::external_body]
pub(crate) fn parse_ipv4(buf: &[u8]) -> (r: Option<IpHeaderFields>)
    ensures
        r is Some <==> spec_ipv4_ok(buf@),
        r matches Some(h) ==> h == spec_ipv4_fields(buf@),
{
    match etherparse::Ipv4HeaderSlice::from_slice(buf) {
        Ok(h) => Some(IpHeaderFields {
            src: u32::from_be_bytes(h.source()),
            dst: u32::from_be_bytes(h.destination()),
            protocol: h.protocol().0,
            header_len: h.slice().len(),
        }),
        Err(_) => None,
    }
}

/// Relies on `etherparse::TcpHeaderSlice::from_slice`: it accepts exactly
/// the slices admitted by `spec_tcp_ok` (length and data-offset checks) and
/// reads ports, sequence and acknowledgment numbers, window and flag bits at
/// their fixed big-endian offsets.
#[verifier::external_body]
pub(crate) fn parse_tcp(buf: &[u8]) -> (r: Option<TcpHeaderFields>)
    ensures
        r is Some <==> spec_tcp_ok(buf@),
        r matches Some(h) ==> h == spec_tcp_fields(buf@),
{
    match etherparse::TcpHeaderSlice::from_slice(buf) {
        Ok(h) => Some(TcpHeaderFields {
            src_port: h.source_port(), dst_port: h.destination_port(),
            seq: h.sequence_number(), ackn: h.acknowledgment_number(),
            wnd: h.window_size(),
            fin: h.fin(), syn: h.syn(), rst: h.rst(), ack: h.ack(),
            header_len: h.slice().len(),
        }),
        Err(_) => None,
    }
}

/// The bytes of a payload-free IPv4+TCP datagram with the given addresses,
/// ports, sequence numbers, flags, window and TTL, as `etherparse` writes
/// them. The layout (the checksums in particular) is the codec's business;
/// the builder's contract pins only this name and the total length.
pub uninterp spec fn spec_datagram_bytes(
    src: u32,
    dst: u32,
    src_port: u16,
    dst_port: u16,
    seq: u32,
    ackn: u32,
    syn: bool,
    ack: bool,
    fin: bool,
    rst: bool,
    wnd: u16,
    ttl: u8,
) -> Seq<u8>;

/// Relies on `etherparse::Ipv4Header::new` / `write` and
/// `etherparse::TcpHeader::new` / `write`: both headers are written without
/// options, 20 bytes each, and the output is a function of the arguments
/// alone. `Ipv4Header::new` cannot fail here, since the payload length (the
/// 20-byte TCP header) is far below its limit.
#[verifier::external_body]
pub(crate) fn build_datagram(
    src: u32,
    dst: u32,
    src_port: u16,
    dst_port: u16,
    intent: &SegmentIntent,
    ttl: u8,
) -> (r: Vec<u8>)
    ensures
        r@ == spec_datagram_bytes(
            src,
            dst,
            src_port,
            dst_port,
            intent.seq,
            intent.ackn,
            intent.syn,
            intent.ack,
            intent.fin,
            intent.rst,
            intent.wnd,
            ttl,
        ),
        r@.len() == 40,
{
    let mut tcp = etherparse::TcpHeader::new(src_port, dst_port, intent.seq, intent.wnd);
    tcp.acknowledgment_number = intent.ackn;
    tcp.syn = intent.syn; tcp.ack = intent.ack; tcp.fin = intent.fin; tcp.rst = intent.rst;
    let ip = etherparse::Ipv4Header::new(
        tcp.header_len_u16(), ttl, etherparse::IpNumber::TCP,
        src.to_be_bytes(), dst.to_be_bytes(),
    ).unwrap();
    let mut out: Vec<u8> = Vec::new();
    ip.write(&mut out).unwrap();
    tcp.write(&mut out).unwrap();
    out
}

} // verus!
