//! A user-space TCP connection layer: sequence-number arithmetic, the
//! segment-acceptability test, the per-connection state machine, and the
//! connection table, all verified. Raw IP datagrams come in from a virtual
//! network interface; parsing and building of IP/TCP headers is delegated
//! to the `etherparse` crate behind trusted wrappers.
use vstd::prelude::*;

pub mod codec;
pub mod segment;
pub mod seqnum;
pub mod table;
pub mod tcp;

verus! {

} // verus!
