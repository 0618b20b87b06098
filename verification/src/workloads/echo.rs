//! The echo workload: each request is answered with the same string.

use vstd::prelude::*;
use vstd::string::StringExecFns;
use crate::codec::{
    body_entries, build_envelope, decode_header, has_tag, header_matches, lemma_lookup_hit,
    tag_is,
};
use crate::json::{lookup, obj_get, Json};
use crate::protocol::{Body, Error, Message};
use crate::workloads::Context;

verus! {

/// The echo workload: stateless.
pub struct EchoNode;

/// An inbound echo request.
pub struct Echo {
    pub echo: String,
}

/// The reply to an echo request.
pub struct EchoOk {
    pub echo: String,
}

/// The record is a well-formed `echo` request.
pub open spec fn echo_decodable(j: Json) -> bool {
    &&& crate::codec::header_decodable(j)
    &&& tag_is(body_entries(j), "echo"@)
    &&& lookup(body_entries(j), "echo"@) matches Some(Json::Str(_))
}

/// The record denotes exactly the given `echo` message.
pub open spec fn echo_matches(j: Json, m: Message<Echo>) -> bool {
    &&& header_matches(j, m.src@, m.dst@, m.body.id, m.body.in_reply_to)
    &&& tag_is(body_entries(j), "echo"@)
    &&& lookup(body_entries(j), "echo"@) matches Some(Json::Str(e)) && e@ == m.body.payload.echo@
}

/// The record is a well-formed `echo_ok` reply.
pub open spec fn echo_ok_decodable(j: Json) -> bool {
    &&& crate::codec::header_decodable(j)
    &&& tag_is(body_entries(j), "echo_ok"@)
    &&& lookup(body_entries(j), "echo"@) matches Some(Json::Str(_))
}

/// The record denotes exactly the given `echo_ok` message.
pub open spec fn echo_ok_matches(j: Json, m: Message<EchoOk>) -> bool {
    &&& header_matches(j, m.src@, m.dst@, m.body.id, m.body.in_reply_to)
    &&& tag_is(body_entries(j), "echo_ok"@)
    &&& lookup(body_entries(j), "echo"@) matches Some(Json::Str(e)) && e@ == m.body.payload.echo@
}

/// Reads the `echo` payload field shared by requests and replies.
fn get_echo_field(bs: &Vec<(String, Json)>) -> (r: Option<String>)
    ensures
        match r {
            Some(s) => lookup(bs@, "echo"@) matches Some(Json::Str(e)) && e@ == s@,
            None => !(lookup(bs@, "echo"@) matches Some(Json::Str(_))),
        },
{
    let k = String::from_str("echo");
    match obj_get(bs, &k) {
        Some(Json::Str(s)) => Some(s.clone()),
        _ => None,
    }
}

/// Decodes an `echo` request.
pub fn decode_echo(j: &Json) -> (r: Result<Message<Echo>, Error>)
    ensures
        r matches Ok(m) ==> echo_matches(*j, m),
        r is Ok <==> echo_decodable(*j),
        r matches Err(e) ==> e == Error::Malformed,
{
    let (h, bs) = match decode_header(j) {
        Ok(x) => x,
        Err(e) => {
            return Err(e);
        },
    };
    if !has_tag(bs, "echo") {
        return Err(Error::Malformed);
    }
    let echo = match get_echo_field(bs) {
        Some(s) => s,
        None => {
            return Err(Error::Malformed);
        },
    };
    Ok(Message {
        src: h.src,
        dst: h.dst,
        body: Body { id: h.id, in_reply_to: h.in_reply_to, payload: Echo { echo } },
    })
}

/// Decodes an `echo_ok` reply.
pub fn decode_echo_ok(j: &Json) -> (r: Result<Message<EchoOk>, Error>)
    ensures
        r matches Ok(m) ==> echo_ok_matches(*j, m),
        r is Ok <==> echo_ok_decodable(*j),
        r matches Err(e) ==> e == Error::Malformed,
{
    let (h, bs) = match decode_header(j) {
        Ok(x) => x,
        Err(e) => {
            return Err(e);
        },
    };
    if !has_tag(bs, "echo_ok") {
        return Err(Error::Malformed);
    }
    let echo = match get_echo_field(bs) {
        Some(s) => s,
        None => {
            return Err(Error::Malformed);
        },
    };
    Ok(Message {
        src: h.src,
        dst: h.dst,
        body: Body { id: h.id, in_reply_to: h.in_reply_to, payload: EchoOk { echo } },
    })
}

/// Builds the body entry carrying an echoed string.
fn echo_extra(echo: &String) -> (extra: Vec<(String, Json)>)
    ensures
        extra@.len() == 1,
        extra@[0].0@ == "echo"@,
        extra@[0].1 matches Json::Str(e) && e@ == echo@,
        "echo"@ != "type"@ && "echo"@ != "msg_id"@ && "echo"@ != "in_reply_to"@,
{
    let mut extra: Vec<(String, Json)> = Vec::new();
    extra.push((String::from_str("echo"), Json::Str(echo.clone())));
    proof {
        reveal_strlit("echo");
        reveal_strlit("type");
        reveal_strlit("msg_id");
        reveal_strlit("in_reply_to");
        assert("echo"@ != "type"@) by {
            assert("echo"@[0] == 'e' && "type"@[0] == 't');
        }
    }
    extra
}

/// Encodes an `echo` request.
pub fn encode_echo(m: &Message<Echo>) -> (j: Json)
    ensures
        echo_matches(j, *m),
        echo_decodable(j),
{
    let extra = echo_extra(&m.body.payload.echo);
    let ghost extra0 = extra@;
    let j = build_envelope(&m.src, &m.dst, m.body.id, m.body.in_reply_to, "echo", extra);
    proof {
        lemma_lookup_hit(extra0, "echo"@);
    }
    j
}

/// Encodes an `echo_ok` reply.
pub fn encode_echo_ok(m: &Message<EchoOk>) -> (j: Json)
    ensures
        echo_ok_matches(j, *m),
        echo_ok_decodable(j),
{
    let extra = echo_extra(&m.body.payload.echo);
    let ghost extra0 = extra@;
    let j = build_envelope(&m.src, &m.dst, m.body.id, m.body.in_reply_to, "echo_ok", extra);
    proof {
        lemma_lookup_hit(extra0, "echo"@);
    }
    j
}

/// Round trip: decoding an encoded `echo` envelope gives the original back.
pub fn echo_round_trip(m: Message<Echo>) -> (r: Message<Echo>)
    ensures
        r.src@ == m.src@,
        r.dst@ == m.dst@,
        r.body.id == m.body.id,
        r.body.in_reply_to == m.body.in_reply_to,
        r.body.payload.echo@ == m.body.payload.echo@,
{
    let j = encode_echo(&m);
    match decode_echo(&j) {
        Ok(r) => r,
        Err(_) => {
            proof {
                assert(false);
            }
            m
        },
    }
}

/// Round trip: decoding an encoded `echo_ok` envelope gives the original
/// back.
pub fn echo_ok_round_trip(m: Message<EchoOk>) -> (r: Message<EchoOk>)
    ensures
        r.src@ == m.src@,
        r.dst@ == m.dst@,
        r.body.id == m.body.id,
        r.body.in_reply_to == m.body.in_reply_to,
        r.body.payload.echo@ == m.body.payload.echo@,
{
    let j = encode_echo_ok(&m);
    match decode_echo_ok(&j) {
        Ok(r) => r,
        Err(_) => {
            proof {
                assert(false);
            }
            m
        },
    }
}

impl EchoNode {
    /// Answers an echo request with the same string, correlated to the
    /// request; never fails and changes no state.
    pub fn process(&mut self, ctx: &mut Context, msg: Message<Echo>) -> (r: Result<
        Message<EchoOk>,
        Error,
    >)
        ensures
            *final(ctx) == *old(ctx),
            r matches Ok(m) && m.is_reply_to(msg, old(ctx).next_id)
                && m.body.payload.echo@ == msg.body.payload.echo@,
    {
        Ok(Message {
            src: msg.dst,
            dst: msg.src,
            body: Body {
                id: Some(ctx.next_id),
                in_reply_to: msg.body.id,
                payload: EchoOk { echo: msg.body.payload.echo },
            },
        })
    }
}

} // verus!
