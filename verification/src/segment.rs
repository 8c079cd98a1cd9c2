//! Plain-value views of TCP segments.
//!
//! The connection layer never looks at raw header bytes itself: the header
//! codec hands it the fields of an inbound segment as a `TcpHeaderFields`
//! (plus an `IpHeaderFields` for the addresses), and the state machine hands
//! back its outbound intent as a `SegmentIntent`, which the codec turns into
//! a datagram.
use vstd::prelude::*;

verus! {

/// The fields of a parsed IPv4 header that the connection layer reads.
/// Addresses are big-endian 32-bit values.
#[derive(Clone, Copy, PartialEq, Eq, Structural, Debug)]
pub struct IpHeaderFields {
    /// Source address.
    pub src: u32,
    /// Destination address.
    pub dst: u32,
    /// The protocol field (6 for TCP).
    pub protocol: u8,
    /// Length in bytes of the IPv4 header including options.
    pub header_len: usize,
}

/// The fields of a parsed TCP header that the connection layer reads.
#[derive(Clone, Copy, PartialEq, Eq, Structural, Debug)]
pub struct TcpHeaderFields {
    /// Source port.
    pub src_port: u16,
    /// Destination port.
    pub dst_port: u16,
    /// Sequence number of the first payload byte (or of the SYN, if set).
    pub seq: u32,
    /// Acknowledgment number (meaningful only when `ack` is set).
    pub ackn: u32,
    /// Advertised receive window of the sender.
    pub wnd: u16,
    /// SYN flag.
    pub syn: bool,
    /// ACK flag.
    pub ack: bool,
    /// FIN flag.
    pub fin: bool,
    /// RST flag.
    pub rst: bool,
    /// Length in bytes of the TCP header including options.
    pub header_len: usize,
}

/// What a connection wants sent back: the TCP header fields of one outbound
/// segment. Outbound segments of this layer never carry payload.
#[derive(Clone, Copy, PartialEq, Eq, Structural, Debug)]
pub struct SegmentIntent {
    /// Sequence number.
    pub seq: u32,
    /// Acknowledgment number.
    pub ackn: u32,
    /// Advertised receive window.
    pub wnd: u16,
    /// SYN flag.
    pub syn: bool,
    /// ACK flag.
    pub ack: bool,
    /// FIN flag.
    pub fin: bool,
    /// RST flag.
    pub rst: bool,
}

/// The sequence-space length of a segment: its payload bytes, plus one for
/// SYN and one for FIN, each of which occupies a sequence number.
pub open spec fn spec_seg_len(payload_len: nat, syn: bool, fin: bool) -> nat {
    payload_len + (if syn { 1nat } else { 0nat }) + (if fin { 1nat } else { 0nat })
}

} // verus!
