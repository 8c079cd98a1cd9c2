//! 32-bit TCP sequence-number arithmetic (RFC 793 §3.3).
//!
//! Sequence numbers live in a space that wraps modulo 2^32, so ordinary
//! unsigned comparison is wrong near the wrap point. All comparisons here go
//! through the modular distance `wsub(a, b)`: `a` is *before* `b` exactly when
//! that distance, read as a signed 32-bit quantity, is negative.
use vstd::prelude::*;

verus! {

/// `a + n` modulo 2^32.
pub open spec fn wadd(a: u32, n: u32) -> u32 {
    vstd::wrapping::u32_specs::wrapping_add(a, n)
}

/// `a - b` modulo 2^32: the distance from `b` up to `a` in the sequence space.
pub open spec fn wsub(a: u32, b: u32) -> u32 {
    vstd::wrapping::u32_specs::wrapping_sub(a, b)
}

/// `a` is strictly before `b` in sequence order: the wrapped difference
/// `a - b`, interpreted as a signed 32-bit value, is negative.
pub open spec fn seq_lt(a: u32, b: u32) -> bool {
    wsub(a, b) >= 0x8000_0000
}

/// `a` is at or before `b` in sequence order.
pub open spec fn seq_le(a: u32, b: u32) -> bool {
    !seq_lt(b, a)
}

/// `x` lies in the half-open wrapped interval `[start, start + len)`.
pub open spec fn in_range(start: u32, len: u32, x: u32) -> bool {
    wsub(x, start) < len
}

/// Executable wrapped addition.
pub fn seq_add(a: u32, n: u32) -> (r: u32)
    ensures
        r == wadd(a, n),
{
    a.wrapping_add(n)
}

/// Executable wrapped subtraction (modular distance).
pub fn seq_sub(a: u32, b: u32) -> (r: u32)
    ensures
        r == wsub(a, b),
{
    a.wrapping_sub(b)
}

/// Wraparound "strictly before" comparison: true iff the wrapped difference
/// `a - b` is negative as a signed 32-bit value. This is the only comparison
/// the connection layer ever applies to sequence numbers.
pub fn seq_before(a: u32, b: u32) -> (r: bool)
    ensures
        r == seq_lt(a, b),
{
    a.wrapping_sub(b) >= 0x8000_0000
}

/// The segment-acceptability test (RFC 793 §3.3): does a segment starting at
/// `seq` and occupying `len` sequence numbers overlap the receive window
/// `[rcv_nxt, rcv_nxt + rcv_wnd)`?
///
/// * A zero window accepts only a zero-length segment sitting exactly at
///   `rcv_nxt`.
/// * A zero-length segment is acceptable iff its sequence number lies in the
///   window.
/// * A non-empty segment is acceptable iff its first or its last occupied
///   sequence number lies in the window.
pub open spec fn spec_acceptable(rcv_nxt: u32, rcv_wnd: u16, seq: u32, len: nat) -> bool {
    if rcv_wnd == 0 {
        len == 0 && seq == rcv_nxt
    } else if len == 0 {
        in_range(rcv_nxt, rcv_wnd as u32, seq)
    } else {
        in_range(rcv_nxt, rcv_wnd as u32, seq) || in_range(
            rcv_nxt,
            rcv_wnd as u32,
            wadd(seq, (len - 1) as u32),
        )
    }
}

/// Executable segment-acceptability test.
pub fn segment_acceptable(rcv_nxt: u32, rcv_wnd: u16, seq: u32, len: u32) -> (r: bool)
    ensures
        r == spec_acceptable(rcv_nxt, rcv_wnd, seq, len as nat),
{
    if rcv_wnd == 0 {
        len == 0 && seq == rcv_nxt
    } else if len == 0 {
        seq_sub(seq, rcv_nxt) < rcv_wnd as u32
    } else {
        seq_sub(seq, rcv_nxt) < rcv_wnd as u32 || seq_sub(seq_add(seq, len - 1), rcv_nxt)
            < rcv_wnd as u32
    }
}

} // verus!
