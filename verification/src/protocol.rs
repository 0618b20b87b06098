//! The envelope and body carried by every wire record, and the failure
//! taxonomy of the node.

use vstd::prelude::*;
use crate::MsgId;

verus! {

/// The correlation-bearing, tagged-payload portion of an envelope.
pub struct Body<P> {
    /// The sender's correlation number for this message, if any.
    pub id: Option<MsgId>,
    /// The correlation number of the message this one answers, if any.
    pub in_reply_to: Option<MsgId>,
    /// The workload-specific payload.
    pub payload: P,
}

/// One wire record: source node, destination node, and a body.
pub struct Message<P> {
    pub src: String,
    pub dst: String,
    pub body: Body<P>,
}

/// Why the node refuses a record or gives up.
#[derive(Clone, Copy, Debug, PartialEq, Eq, Structural)]
pub enum Error {
    /// The record is not an object of the expected shape.
    Malformed,
    /// The record arrived in a state that cannot accept it, such as a
    /// non-init message before the handshake.
    UnexpectedMessage,
    /// A topology message whose mapping omits this node's own identifier.
    TopologyMissingSelf,
    /// The clock cannot be related to the epoch.
    ClockBeforeEpoch,
}

impl<P> Message<P> {
    /// A reply travels back along the request's path and answers its
    /// correlation number; its own number is the given outbound id.
    pub open spec fn is_reply_to<Q>(self, req: Message<Q>, next_id: MsgId) -> bool {
        &&& self.src@ == req.dst@
        &&& self.dst@ == req.src@
        &&& self.body.id == Some(next_id)
        &&& self.body.in_reply_to == req.body.id
    }
}

} // verus!
