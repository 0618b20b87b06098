//! The selectable node behaviors and the correlation state they share.

pub mod echo;
pub mod gossip;
pub mod init;
pub mod unique_id;

use vstd::prelude::*;
use crate::MsgId;

verus! {

/// Process-wide dispatch state: the outbound message-id counter, this
/// node's identity, and its neighbour list.
pub struct Context {
    /// The correlation number the next outbound message will carry.
    pub next_id: MsgId,
    /// This node's own identifier, set once by the init handshake.
    pub node_id: String,
    /// The neighbour list, set by a topology message.
    pub neighbours: Vec<String>,
}

impl Context {
    /// A fresh context, before the init handshake.
    pub fn new() -> (r: Context)
        ensures
            r.next_id == 0,
            r.node_id@ == Seq::<char>::empty(),
            r.neighbours@ =~= Seq::<String>::empty(),
    {
        Context { next_id: 0, node_id: String::new(), neighbours: Vec::new() }
    }
}

} // verus!
