//! The init handshake: the first message assigns this node its identity.

use vstd::prelude::*;
use vstd::string::StringExecFns;
use crate::codec::{
    body_entries, build_envelope, decode_header, has_tag, header_decodable, header_matches,
    lemma_lookup_hit, lemma_lookup_skip, tag_is,
};
use crate::json::{lookup, obj_get, Json};
use crate::protocol::{Body, Error, Message};
use crate::workloads::Context;

verus! {

/// The init workload: remembers the identity the handshake assigned.
pub struct InitNode {
    /// This node's own identifier.
    pub this: String,
    /// The identifiers of every node in the cluster.
    pub others: Vec<String>,
}

/// An inbound init request.
pub struct Init {
    /// This node's own identifier.
    pub this: String,
    /// The identifiers of every node in the cluster.
    pub others: Vec<String>,
}

/// The reply to an init request.
pub struct InitOk {}

/// Every element is a JSON string.
pub open spec fn all_strings(a: Seq<Json>) -> bool {
    forall|i: int| 0 <= i < a.len() ==> #[trigger] a[i] matches Json::Str(_)
}

/// The strings denote the same texts, element for element.
pub open spec fn strings_match(a: Seq<Json>, v: Seq<String>) -> bool {
    &&& a.len() == v.len()
    &&& forall|i: int| 0 <= i < a.len() ==> (#[trigger] a[i] matches Json::Str(s) && s@ == v[i]@)
}

/// The record is a well-formed `init` request.
pub open spec fn init_decodable(j: Json) -> bool {
    &&& header_decodable(j)
    &&& tag_is(body_entries(j), "init"@)
    &&& lookup(body_entries(j), "node_id"@) matches Some(Json::Str(_))
    &&& lookup(body_entries(j), "node_ids"@) matches Some(Json::Arr(a)) && all_strings(a@)
}

/// The record denotes exactly the given `init` message.
pub open spec fn init_matches(j: Json, m: Message<Init>) -> bool {
    &&& header_matches(j, m.src@, m.dst@, m.body.id, m.body.in_reply_to)
    &&& tag_is(body_entries(j), "init"@)
    &&& lookup(body_entries(j), "node_id"@) matches Some(Json::Str(s)) && s@
        == m.body.payload.this@
    &&& lookup(body_entries(j), "node_ids"@) matches Some(Json::Arr(a)) && strings_match(
        a@,
        m.body.payload.others@,
    )
}

/// The record is a well-formed `init_ok` reply.
pub open spec fn init_ok_decodable(j: Json) -> bool {
    &&& header_decodable(j)
    &&& tag_is(body_entries(j), "init_ok"@)
}

/// The record denotes exactly the given `init_ok` message.
pub open spec fn init_ok_matches(j: Json, m: Message<InitOk>) -> bool {
    &&& header_matches(j, m.src@, m.dst@, m.body.id, m.body.in_reply_to)
    &&& tag_is(body_entries(j), "init_ok"@)
}

/// Copies a JSON array of strings into owned strings.
pub fn decode_strings(a: &Vec<Json>) -> (r: Option<Vec<String>>)
    ensures
        match r {
            Some(v) => strings_match(a@, v@),
            None => !all_strings(a@),
        },
{
    let mut v: Vec<String> = Vec::new();
    let n = a.len();
    let mut i: usize = 0;
    while i < n
        invariant
            n == a@.len(),
            i <= n,
            v@.len() == i,
            forall|t: int| 0 <= t < i ==> (#[trigger] a@[t] matches Json::Str(s) && s@ == v@[t]@),
        decreases n - i,
    {
        match &a[i] {
            Json::Str(s) => v.push(s.clone()),
            _ => {
                return None;
            },
        }
        i = i + 1;
    }
    Some(v)
}

/// Builds a JSON array holding the given strings.
pub fn encode_strings(v: &Vec<String>) -> (a: Vec<Json>)
    ensures
        strings_match(a@, v@),
        all_strings(a@),
{
    let mut a: Vec<Json> = Vec::new();
    let n = v.len();
    let mut i: usize = 0;
    while i < n
        invariant
            n == v@.len(),
            i <= n,
            a@.len() == i,
            forall|t: int| 0 <= t < i ==> (#[trigger] a@[t] matches Json::Str(s) && s@ == v@[t]@),
        decreases n - i,
    {
        a.push(Json::Str(v[i].clone()));
        i = i + 1;
    }
    a
}

/// Decodes an `init` request.
pub fn decode_init(j: &Json) -> (r: Result<Message<Init>, Error>)
    ensures
        r matches Ok(m) ==> init_matches(*j, m),
        r is Ok <==> init_decodable(*j),
        r matches Err(e) ==> e == Error::Malformed,
{
    let (h, bs) = match decode_header(j) {
        Ok(x) => x,
        Err(e) => {
            return Err(e);
        },
    };
    if !has_tag(bs, "init") {
        return Err(Error::Malformed);
    }
    let this = match obj_get(bs, &String::from_str("node_id")) {
        Some(Json::Str(s)) => s.clone(),
        _ => {
            return Err(Error::Malformed);
        },
    };
    let others = match obj_get(bs, &String::from_str("node_ids")) {
        Some(Json::Arr(a)) => match decode_strings(a) {
            Some(v) => v,
            None => {
                return Err(Error::Malformed);
            },
        },
        _ => {
            return Err(Error::Malformed);
        },
    };
    Ok(Message {
        src: h.src,
        dst: h.dst,
        body: Body { id: h.id, in_reply_to: h.in_reply_to, payload: Init { this, others } },
    })
}

/// Decodes an `init_ok` reply.
pub fn decode_init_ok(j: &Json) -> (r: Result<Message<InitOk>, Error>)
    ensures
        r matches Ok(m) ==> init_ok_matches(*j, m),
        r is Ok <==> init_ok_decodable(*j),
        r matches Err(e) ==> e == Error::Malformed,
{
    let (h, bs) = match decode_header(j) {
        Ok(x) => x,
        Err(e) => {
            return Err(e);
        },
    };
    if !has_tag(bs, "init_ok") {
        return Err(Error::Malformed);
    }
    Ok(Message {
        src: h.src,
        dst: h.dst,
        body: Body { id: h.id, in_reply_to: h.in_reply_to, payload: InitOk {} },
    })
}

/// Encodes an `init` request.
pub fn encode_init(m: &Message<Init>) -> (j: Json)
    ensures
        init_matches(j, *m),
        init_decodable(j),
{
    let mut extra: Vec<(String, Json)> = Vec::new();
    extra.push((String::from_str("node_id"), Json::Str(m.body.payload.this.clone())));
    extra.push((String::from_str("node_ids"), Json::Arr(encode_strings(&m.body.payload.others))));
    proof {
        reveal_strlit("node_id");
        reveal_strlit("node_ids");
        reveal_strlit("type");
        reveal_strlit("msg_id");
        reveal_strlit("in_reply_to");
        assert(extra@[0].0@ == "node_id"@ && extra@[1].0@ == "node_ids"@);
        assert("node_id"@.len() == 7 && "node_ids"@.len() == 8 && "type"@.len() == 4
            && "msg_id"@.len() == 6 && "in_reply_to"@.len() == 11);
    }
    let ghost extra0 = extra@;
    let j = build_envelope(&m.src, &m.dst, m.body.id, m.body.in_reply_to, "init", extra);
    proof {
        lemma_lookup_hit(extra0, "node_id"@);
        lemma_lookup_skip(extra0, "node_ids"@);
        let t1 = extra0.subrange(1, extra0.len() as int);
        assert(t1[0] == extra0[1]);
        lemma_lookup_hit(t1, "node_ids"@);
    }
    j
}

/// Encodes an `init_ok` reply.
pub fn encode_init_ok(m: &Message<InitOk>) -> (j: Json)
    ensures
        init_ok_matches(j, *m),
        init_ok_decodable(j),
{
    build_envelope(&m.src, &m.dst, m.body.id, m.body.in_reply_to, "init_ok", Vec::new())
}

/// The two string lists spell the same texts.
pub open spec fn string_views_eq(a: Seq<String>, b: Seq<String>) -> bool {
    &&& a.len() == b.len()
    &&& forall|i: int| 0 <= i < a.len() ==> a[i]@ == b[i]@
}

/// Round trip: decoding an encoded `init` envelope gives the original back.
pub fn init_round_trip(m: Message<Init>) -> (r: Message<Init>)
    ensures
        r.src@ == m.src@,
        r.dst@ == m.dst@,
        r.body.id == m.body.id,
        r.body.in_reply_to == m.body.in_reply_to,
        r.body.payload.this@ == m.body.payload.this@,
        string_views_eq(r.body.payload.others@, m.body.payload.others@),
{
    let j = encode_init(&m);
    match decode_init(&j) {
        Ok(r) => {
            proof {
                assert(string_views_eq(r.body.payload.others@, m.body.payload.others@)) by {
                    if let Some(Json::Arr(a)) = lookup(body_entries(j), "node_ids"@) {
                        assert(strings_match(a@, r.body.payload.others@));
                        assert(strings_match(a@, m.body.payload.others@));
                        assert forall|i: int| 0 <= i < r.body.payload.others@.len()
                            implies r.body.payload.others@[i]@ == m.body.payload.others@[i]@ by {
                            assert(a@[i] matches Json::Str(s) && s@
                                == r.body.payload.others@[i]@);
                            assert(a@[i] matches Json::Str(s) && s@
                                == m.body.payload.others@[i]@);
                        }
                    }
                }
            }
            r
        },
        Err(_) => {
            proof {
                assert(false);
            }
            m
        },
    }
}

/// Round trip: decoding an encoded `init_ok` envelope gives the original
/// back.
pub fn init_ok_round_trip(m: Message<InitOk>) -> (r: Message<InitOk>)
    ensures
        r.src@ == m.src@,
        r.dst@ == m.dst@,
        r.body.id == m.body.id,
        r.body.in_reply_to == m.body.in_reply_to,
{
    let j = encode_init_ok(&m);
    match decode_init_ok(&j) {
        Ok(r) => r,
        Err(_) => {
            proof {
                assert(false);
            }
            m
        },
    }
}

impl InitNode {
    /// A node with no identity yet.
    pub fn new() -> (r: InitNode)
        ensures
            r.this@ == Seq::<char>::empty(),
            r.others@ =~= Seq::<String>::empty(),
    {
        InitNode { this: String::new(), others: Vec::new() }
    }

    /// Adopts the identity the handshake assigns, records it in the
    /// correlation context, and acknowledges; never fails.
    pub fn process(&mut self, ctx: &mut Context, msg: Message<Init>) -> (r: Result<
        Message<InitOk>,
        Error,
    >)
        ensures
            final(self).this@ == msg.body.payload.this@,
            final(self).others@ == msg.body.payload.others@,
            final(ctx).node_id@ == msg.body.payload.this@,
            final(ctx).next_id == old(ctx).next_id,
            final(ctx).neighbours == old(ctx).neighbours,
            r matches Ok(m) && m.is_reply_to(msg, old(ctx).next_id),
    {
        ctx.node_id = msg.body.payload.this.clone();
        self.this = msg.body.payload.this;
        self.others = msg.body.payload.others;
        Ok(Message {
            src: msg.dst,
            dst: msg.src,
            body: Body { id: Some(ctx.next_id), in_reply_to: msg.body.id, payload: InitOk {} },
        })
    }
}

} // verus!
