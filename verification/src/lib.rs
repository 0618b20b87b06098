//! A node process for a simulated distributed-systems harness.
//!
//! The node exchanges JSON envelopes over a line-oriented transport.  This
//! library holds the verified core: the envelope codec, the correlation
//! context, the workloads (echo, unique-id generation, gossip broadcast),
//! and the dispatch state machine.  Transport I/O lives outside.

pub mod codec;
pub mod dispatch;
pub mod json;
pub mod protocol;
pub mod workloads;

use vstd::prelude::*;

verus! {

/// A correlation number carried in message bodies.
pub type MsgId = i64;

} // verus!
