//! The dispatch loop's state machine: one init handshake, then one reply
//! per inbound record, fed to the workload selected at startup.
//!
//! The surrounding process reads one line, parses it to a JSON tree, hands
//! it to [`Dispatcher::step`], and writes the reply; every decision in
//! between is made here.

use vstd::prelude::*;
use crate::codec::{body_entries, decode_header, has_tag, header_matches, opt_i64_entry, tag_is};
use crate::json::{lookup, Json};
use crate::protocol::{Error, Message};
use crate::workloads::echo::{
    decode_echo, echo_decodable, encode_echo_ok, EchoNode,
};
use crate::workloads::gossip::{
    decode_incoming, encode_outgoing, incoming_decodable, incoming_matches, topo_lookup,
    u64s_match, GossipNode, Incoming,
};
use crate::workloads::init::{decode_init, init_decodable, init_matches, encode_init_ok, InitNode};
use crate::workloads::unique_id::{
    decode_generate, encode_generate_ok, generate_decodable, id_chars, UniqueIdNode,
};
use crate::workloads::Context;

verus! {

/// The source node named by a record.
pub open spec fn src_view(j: Json) -> Seq<char> {
    match j {
        Json::Obj(es) => match lookup(es@, "src"@) {
            Some(Json::Str(s)) => s@,
            _ => Seq::empty(),
        },
        _ => Seq::empty(),
    }
}

/// The destination node named by a record.
pub open spec fn dst_view(j: Json) -> Seq<char> {
    match j {
        Json::Obj(es) => match lookup(es@, "dest"@) {
            Some(Json::Str(s)) => s@,
            _ => Seq::empty(),
        },
        _ => Seq::empty(),
    }
}

/// The correlation number a record carries, where it carries one.
pub open spec fn id_view(j: Json) -> Option<i64> {
    match opt_i64_entry(body_entries(j), "msg_id"@) {
        Some(x) => x,
        None => None,
    }
}

/// The string payload field under `k`, where there is one.
pub open spec fn str_field_view(bs: Seq<(String, Json)>, k: Seq<char>) -> Seq<char> {
    match lookup(bs, k) {
        Some(Json::Str(s)) => s@,
        _ => Seq::empty(),
    }
}

/// The one workload this process runs, fixed at startup.
pub enum WorkloadKind {
    Echo(EchoNode),
    UniqueId(UniqueIdNode),
    Gossip(GossipNode),
}

impl WorkloadKind {
    /// The active workload's own invariant.
    pub open spec fn wf(self) -> bool {
        match self {
            WorkloadKind::Echo(_) => true,
            WorkloadKind::UniqueId(u) => u.wf(),
            WorkloadKind::Gossip(g) => g.wf(),
        }
    }
}

/// The node: correlation context, handshake state, and the one workload.
pub struct Dispatcher {
    /// The shared correlation context.
    pub ctx: Context,
    /// The handshake handler, holding the assigned identity.
    pub init: InitNode,
    /// The workload selected at startup.
    pub kind: WorkloadKind,
    /// Whether the init handshake has completed.
    pub initialized: bool,
}

/// The correlation number the next reply will carry: the handshake answers
/// with its own counter, every later reply with a fresh running one.
pub open spec fn reply_id(pre: Dispatcher) -> i64 {
    if !pre.initialized {
        pre.ctx.next_id
    } else {
        (pre.ctx.next_id + 1) as i64
    }
}

/// What one gossip request does to the node and what the reply says.
pub open spec fn gossip_outcome(
    g: GossipNode,
    m: Message<Incoming>,
    post: Dispatcher,
    node: Seq<char>,
    r: Result<Json, Error>,
) -> bool {
    match m.body.payload {
        Incoming::Broadcast { message } => r is Ok && (post.kind matches WorkloadKind::Gossip(g2)
            && g2.store@.to_set() == g.store@.to_set().insert(message)),
        Incoming::Read {  } => r matches Ok(jr) && tag_is(body_entries(jr), "read_ok"@) && (lookup(
            body_entries(jr),
            "messages"@,
        ) matches Some(Json::Arr(a)) && u64s_match(a@, g.store@)) && (
        post.kind matches WorkloadKind::Gossip(g2) && g2 == g),
        Incoming::Topology { topology } => match topo_lookup(topology@, node) {
            Some(ns) => r matches Ok(jr) && tag_is(body_entries(jr), "topology_ok"@) && (
            post.kind matches WorkloadKind::Gossip(g2) && g2.neighbours@ == ns@ && g2.store
                == g.store),
            None => r matches Err(e) && e == Error::TopologyMissingSelf,
        },
    }
}

impl Dispatcher {
    /// The node's invariant.
    pub open spec fn wf(self) -> bool {
        self.kind.wf()
    }

    /// A fresh, uninitialized node around the given workload.
    pub fn new(kind: WorkloadKind) -> (r: Dispatcher)
        requires
            kind.wf(),
        ensures
            r.wf(),
            !r.initialized,
            r.ctx.next_id == 0,
            r.kind == kind,
    {
        Dispatcher { ctx: Context::new(), init: InitNode::new(), kind, initialized: false }
    }

    /// Feeds one inbound record to the node and forms the reply.
    ///
    /// Before the handshake only an init message is accepted; it assigns
    /// the node's identity and moves to running.  While running, the active
    /// workload answers, with a fresh outbound correlation number per reply.
    pub fn step(&mut self, j: &Json) -> (r: Result<Json, Error>)
        requires
            old(self).wf(),
            old(self).ctx.next_id < i64::MAX,
        ensures
            final(self).wf(),
            final(self).ctx.next_id <= old(self).ctx.next_id + 1,
            // every reply travels the request's path backwards and answers
            // its correlation number with a fresh outbound one
            r matches Ok(jr) ==> header_matches(
                jr,
                dst_view(*j),
                src_view(*j),
                Some(reply_id(*old(self))),
                id_view(*j),
            ),
            r matches Ok(jr) ==> final(self).initialized,
            r is Err ==> *final(self) == *old(self),
            !old(self).initialized ==> {
                &&& (r is Ok <==> init_decodable(*j))
                &&& (r matches Err(e) ==> (e == Error::UnexpectedMessage <==> (
                    crate::codec::header_decodable(*j) && !tag_is(body_entries(*j), "init"@))))
                &&& (r matches Ok(jr) ==> tag_is(body_entries(jr), "init_ok"@) && (exists|
                    m: Message<crate::workloads::init::Init>,
                |
                    init_matches(*j, m) && final(self).ctx.node_id@ == m.body.payload.this@)
                    && final(self).ctx.next_id == old(self).ctx.next_id && final(self).kind == old(
                    self,
                ).kind)
            },
            old(self).initialized ==> {
                &&& final(self).initialized
                &&& (r matches Ok(_) ==> final(self).ctx.next_id == old(self).ctx.next_id + 1
                    && final(self).ctx.node_id == old(self).ctx.node_id)
                &&& match old(self).kind {
                    WorkloadKind::Echo(_) => {
                        &&& (r is Ok <==> echo_decodable(*j))
                        &&& (r matches Ok(jr) ==> tag_is(body_entries(jr), "echo_ok"@)
                            && str_field_view(body_entries(jr), "echo"@) == str_field_view(
                            body_entries(*j),
                            "echo"@,
                        ) && final(self).kind == old(self).kind)
                    },
                    WorkloadKind::UniqueId(u) => {
                        &&& (r is Ok ==> generate_decodable(*j))
                        &&& (!generate_decodable(*j) ==> (r matches Err(e) && e == Error::Malformed))
                        &&& (r matches Ok(jr) ==> tag_is(body_entries(jr), "generate_ok"@) && (
                        final(self).kind matches WorkloadKind::UniqueId(u2) && (exists|now: u64|
                            u2.timestamp == u.step_ts(now) && u2.counter == u.step_counter(now))
                            && str_field_view(body_entries(jr), "id"@) == id_chars(
                            u2.timestamp,
                            old(self).ctx.node_id@,
                            u2.counter,
                        )))
                    },
                    WorkloadKind::Gossip(g) => {
                        &&& (r is Ok ==> incoming_decodable(*j))
                        &&& (!incoming_decodable(*j) ==> (r matches Err(e) && e == Error::Malformed))
                        &&& (incoming_decodable(*j) ==> exists|m: Message<Incoming>|
                            incoming_matches(*j, m) && gossip_outcome(
                                g,
                                m,
                                *final(self),
                                old(self).ctx.node_id@,
                                r,
                            ))
                    },
                }
            },
    {
        if !self.initialized {
            match decode_header(j) {
                Ok((_h, bs)) => {
                    if !has_tag(bs, "init") {
                        // a well-formed record of another type before the
                        // handshake is a protocol sequencing violation
                        return Err(Error::UnexpectedMessage);
                    }
                },
                Err(e) => {
                    return Err(e);
                },
            }
            let msg = match decode_init(j) {
                Ok(m) => m,
                Err(e) => {
                    return Err(e);
                },
            };
            let ghost gm = msg;
            let reply = match self.init.process(&mut self.ctx, msg) {
                Ok(x) => x,
                Err(_) => {
                    proof {
                        assert(false);
                    }
                    return Err(Error::Malformed);
                },
            };
            self.initialized = true;
            let jr = encode_init_ok(&reply);
            proof {
                assert(init_matches(*j, gm));
            }
            Ok(jr)
        } else {
            match &mut self.kind {
                WorkloadKind::Echo(n) => {
                    let msg = match decode_echo(j) {
                        Ok(m) => m,
                        Err(e) => {
                            return Err(e);
                        },
                    };
                    self.ctx.next_id = self.ctx.next_id + 1;
                    let reply = match n.process(&mut self.ctx, msg) {
                        Ok(x) => x,
                        Err(_) => {
                            proof {
                                assert(false);
                            }
                            return Err(Error::Malformed);
                        },
                    };
                    Ok(encode_echo_ok(&reply))
                },
                WorkloadKind::UniqueId(n) => {
                    let msg = match decode_generate(j) {
                        Ok(m) => m,
                        Err(e) => {
                            return Err(e);
                        },
                    };
                    self.ctx.next_id = self.ctx.next_id + 1;
                    let reply = match n.process(&mut self.ctx, msg) {
                        Ok(x) => x,
                        Err(e) => {
                            self.ctx.next_id = self.ctx.next_id - 1;
                            return Err(e);
                        },
                    };
                    Ok(encode_generate_ok(&reply))
                },
                WorkloadKind::Gossip(n) => {
                    let msg = match decode_incoming(j) {
                        Ok(m) => m,
                        Err(e) => {
                            return Err(e);
                        },
                    };
                    let ghost gm = msg;
                    self.ctx.next_id = self.ctx.next_id + 1;
                    let reply = match n.process(&mut self.ctx, msg) {
                        Ok(x) => x,
                        Err(e) => {
                            self.ctx.next_id = self.ctx.next_id - 1;
                            proof {
                                assert(incoming_matches(*j, gm));
                            }
                            return Err(e);
                        },
                    };
                    let jr = encode_outgoing(&reply);
                    proof {
                        assert(incoming_matches(*j, gm));
                    }
                    Ok(jr)
                },
            }
        }
    }
}

} // verus!
