//! The envelope codec: between the JSON tree shape and the typed messages.
//!
//! Every wire record is an object `{src, dest, body}`, and the body an object
//! carrying a `type` tag, the optional correlation numbers `msg_id` and
//! `in_reply_to`, and the payload's own fields.  Decoding resolves a key to
//! the first entry that carries it and ignores entries it does not know,
//! as the surrounding JSON parsers do; encoding writes one entry per field.

use vstd::prelude::*;
use vstd::string::StringExecFns;
use crate::json::{lookup, obj_get, Json};
use crate::protocol::Error;
use crate::MsgId;

verus! {

/// The correlation fields shared by every body, regardless of payload.
pub struct Header {
    pub src: String,
    pub dst: String,
    pub id: Option<MsgId>,
    pub in_reply_to: Option<MsgId>,
}

/// The optional signed integer bound to `k`: `None` when the entry is
/// present but not an integer, `Some(None)` when absent or null.
pub open spec fn opt_i64_entry(es: Seq<(String, Json)>, k: Seq<char>) -> Option<Option<i64>> {
    match lookup(es, k) {
        None => Some(None),
        Some(v) => match v {
            Json::Null => Some(None),
            _ => match v.spec_as_i64() {
                Some(i) => Some(Some(i)),
                None => None,
            },
        },
    }
}

/// The body's `type` entry names the given tag.
pub open spec fn tag_is(bs: Seq<(String, Json)>, tag: Seq<char>) -> bool {
    lookup(bs, "type"@) matches Some(Json::Str(t)) && t@ == tag
}

/// The entry list of the record's body object, where there is one.
pub open spec fn body_entries(j: Json) -> Seq<(String, Json)> {
    match j {
        Json::Obj(es) => match lookup(es@, "body"@) {
            Some(Json::Obj(bs)) => bs@,
            _ => Seq::empty(),
        },
        _ => Seq::empty(),
    }
}

/// The record carries the envelope fields every message needs: string
/// source and destination, an object body, and well-typed correlation
/// numbers.
pub open spec fn header_decodable(j: Json) -> bool {
    &&& j matches Json::Obj(es)
    &&& lookup(es@, "src"@) matches Some(Json::Str(_))
    &&& lookup(es@, "dest"@) matches Some(Json::Str(_))
    &&& lookup(es@, "body"@) matches Some(Json::Obj(_))
    &&& opt_i64_entry(body_entries(j), "msg_id"@) is Some
    &&& opt_i64_entry(body_entries(j), "in_reply_to"@) is Some
}

/// The record's envelope fields denote exactly the given values.
pub open spec fn header_matches(
    j: Json,
    src: Seq<char>,
    dst: Seq<char>,
    id: Option<i64>,
    irt: Option<i64>,
) -> bool {
    &&& header_decodable(j)
    &&& j matches Json::Obj(es)
    &&& lookup(es@, "src"@) matches Some(Json::Str(s)) && s@ == src
    &&& lookup(es@, "dest"@) matches Some(Json::Str(d)) && d@ == dst
    &&& opt_i64_entry(body_entries(j), "msg_id"@) == Some(id)
    &&& opt_i64_entry(body_entries(j), "in_reply_to"@) == Some(irt)
}

/// A key absent from every entry is not found.
pub proof fn lemma_lookup_absent(es: Seq<(String, Json)>, k: Seq<char>)
    requires
        forall|i: int| 0 <= i < es.len() ==> (#[trigger] es[i]).0@ != k,
    ensures
        lookup(es, k) is None,
    decreases es.len(),
{
    if es.len() > 0 {
        lemma_lookup_absent(es.subrange(1, es.len() as int), k);
    }
}

/// Entries whose keys all differ from `k` do not affect its lookup.
pub proof fn lemma_lookup_append(es1: Seq<(String, Json)>, es2: Seq<(String, Json)>, k: Seq<char>)
    requires
        forall|i: int| 0 <= i < es1.len() ==> (#[trigger] es1[i]).0@ != k,
    ensures
        lookup(es1 + es2, k) == lookup(es2, k),
    decreases es1.len(),
{
    if es1.len() == 0 {
        assert(es1 + es2 =~= es2);
    } else {
        assert((es1 + es2)[0] == es1[0]);
        assert((es1 + es2).subrange(1, (es1 + es2).len() as int)
            =~= es1.subrange(1, es1.len() as int) + es2);
        lemma_lookup_append(es1.subrange(1, es1.len() as int), es2, k);
    }
}

/// A lookup that misses the first entry's key continues past it.
pub proof fn lemma_lookup_skip(es: Seq<(String, Json)>, k: Seq<char>)
    requires
        es.len() > 0,
        es[0].0@ != k,
    ensures
        lookup(es, k) == lookup(es.subrange(1, es.len() as int), k),
{
}

/// A lookup that meets its key in the first entry stops there.
pub proof fn lemma_lookup_hit(es: Seq<(String, Json)>, k: Seq<char>)
    requires
        es.len() > 0,
        es[0].0@ == k,
    ensures
        lookup(es, k) == Some(es[0].1),
{
}

/// An owned copy of a literal key.
fn key(s: &str) -> (r: String)
    ensures
        r@ == s@,
{
    String::from_str(s)
}

/// The optional correlation number under `k`, or `None` when ill-typed.
fn get_opt_i64(bs: &Vec<(String, Json)>, k: &String) -> (r: Option<Option<i64>>)
    ensures
        r == opt_i64_entry(bs@, k@),
{
    match obj_get(bs, k) {
        None => Some(None),
        Some(v) => match v {
            Json::Null => Some(None),
            _ => match v.as_i64() {
                Some(i) => Some(Some(i)),
                None => None,
            },
        },
    }
}

/// Checks the body's `type` tag.
pub fn has_tag(bs: &Vec<(String, Json)>, tag: &str) -> (r: bool)
    ensures
        r == tag_is(bs@, tag@),
{
    let k = String::from_str("type");
    let expected = String::from_str(tag);
    match obj_get(bs, &k) {
        Some(Json::Str(t)) => *t == expected,
        _ => false,
    }
}

/// Splits a record into its envelope fields and its body entries.
pub fn decode_header<'a>(j: &'a Json) -> (r: Result<(Header, &'a Vec<(String, Json)>), Error>)
    ensures
        r matches Ok((h, bs)) ==> header_matches(*j, h.src@, h.dst@, h.id, h.in_reply_to)
            && bs@ == body_entries(*j),
        r is Ok <==> header_decodable(*j),
        r matches Err(e) ==> e == Error::Malformed,
{
    let es = match j {
        Json::Obj(es) => es,
        _ => {
            return Err(Error::Malformed);
        },
    };
    let src = match obj_get(es, &key("src")) {
        Some(Json::Str(s)) => s.clone(),
        _ => {
            return Err(Error::Malformed);
        },
    };
    let dst = match obj_get(es, &key("dest")) {
        Some(Json::Str(s)) => s.clone(),
        _ => {
            return Err(Error::Malformed);
        },
    };
    let bs = match obj_get(es, &key("body")) {
        Some(Json::Obj(b)) => b,
        _ => {
            return Err(Error::Malformed);
        },
    };
    let id = match get_opt_i64(bs, &key("msg_id")) {
        Some(x) => x,
        None => {
            return Err(Error::Malformed);
        },
    };
    let in_reply_to = match get_opt_i64(bs, &key("in_reply_to")) {
        Some(x) => x,
        None => {
            return Err(Error::Malformed);
        },
    };
    Ok((Header { src, dst, id, in_reply_to }, bs))
}

/// Builds a record around the given payload fields, which must not reuse
/// the reserved body keys.
pub fn build_envelope(
    src: &String,
    dst: &String,
    id: Option<MsgId>,
    in_reply_to: Option<MsgId>,
    tag: &str,
    extra: Vec<(String, Json)>,
) -> (j: Json)
    requires
        forall|i: int| 0 <= i < extra@.len() ==> (#[trigger] extra@[i]).0@ != "type"@
            && extra@[i].0@ != "msg_id"@ && extra@[i].0@ != "in_reply_to"@,
    ensures
        header_matches(j, src@, dst@, id, in_reply_to),
        tag_is(body_entries(j), tag@),
        forall|k: Seq<char>| k != "type"@ && k != "msg_id"@ && k != "in_reply_to"@
            ==> #[trigger] lookup(body_entries(j), k) == lookup(extra@, k),
{
    let ghost extra0 = extra@;
    let mut extra = extra;
    let mut bs: Vec<(String, Json)> = Vec::new();
    bs.push((key("type"), Json::Str(String::from_str(tag))));
    let id_json = match id {
        Some(i) => Json::Int(i),
        None => Json::Null,
    };
    bs.push((key("msg_id"), id_json));
    let irt_json = match in_reply_to {
        Some(i) => Json::Int(i),
        None => Json::Null,
    };
    bs.push((key("in_reply_to"), irt_json));
    let ghost pre = bs@;
    bs.append(&mut extra);
    proof {
        reveal_strlit("type");
        reveal_strlit("msg_id");
        reveal_strlit("in_reply_to");
        assert(bs@ =~= pre + extra0);
        assert(bs@[0] == pre[0] && bs@[1] == pre[1] && bs@[2] == pre[2]);
        assert(pre[0].0@ == "type"@ && pre[1].0@ == "msg_id"@ && pre[2].0@ == "in_reply_to"@);
        assert("type"@ != "msg_id"@ && "type"@ != "in_reply_to"@ && "msg_id"@
            != "in_reply_to"@);
        // The tag is the first entry.
        lemma_lookup_hit(bs@, "type"@);
        // The correlation entries stand right after the tag.
        let tail1 = bs@.subrange(1, bs@.len() as int);
        assert(tail1 =~= pre.subrange(1, 3) + extra0);
        assert(tail1[0] == pre[1] && tail1[1] == pre[2]);
        lemma_lookup_skip(bs@, "msg_id"@);
        lemma_lookup_hit(tail1, "msg_id"@);
        assert(lookup(bs@, "msg_id"@) == Some(pre[1].1));
        let tail2 = tail1.subrange(1, tail1.len() as int);
        assert(tail2 =~= pre.subrange(2, 3) + extra0);
        assert(tail2[0] == pre[2]);
        lemma_lookup_skip(bs@, "in_reply_to"@);
        lemma_lookup_skip(tail1, "in_reply_to"@);
        lemma_lookup_hit(tail2, "in_reply_to"@);
        assert(lookup(bs@, "in_reply_to"@) == Some(pre[2].1));
        assert forall|k: Seq<char>| k != "type"@ && k != "msg_id"@ && k != "in_reply_to"@
            implies #[trigger] lookup(bs@, k) == lookup(extra0, k) by {
            lemma_lookup_append(pre, extra0, k);
        }
    }
    let ghost bsv = bs@;
    let mut es: Vec<(String, Json)> = Vec::new();
    es.push((key("src"), Json::Str(src.clone())));
    es.push((key("dest"), Json::Str(dst.clone())));
    es.push((key("body"), Json::Obj(bs)));
    let j = Json::Obj(es);
    proof {
        reveal_strlit("src");
        reveal_strlit("dest");
        reveal_strlit("body");
        assert(es@[0].0@ == "src"@ && es@[1].0@ == "dest"@ && es@[2].0@ == "body"@);
        assert("src"@.len() == 3 && "dest"@.len() == 4 && "body"@.len() == 4);
        assert("dest"@ != "body"@) by {
            assert("dest"@[0] == 'd' && "body"@[0] == 'b');
        }
        lemma_lookup_hit(es@, "src"@);
        let t1 = es@.subrange(1, es@.len() as int);
        assert(t1[0] == es@[1] && t1[1] == es@[2]);
        lemma_lookup_skip(es@, "dest"@);
        lemma_lookup_hit(t1, "dest"@);
        let t2 = t1.subrange(1, t1.len() as int);
        assert(t2[0] == es@[2]);
        lemma_lookup_skip(es@, "body"@);
        lemma_lookup_skip(t1, "body"@);
        lemma_lookup_hit(t2, "body"@);
        assert(lookup(es@, "body"@) == Some(es@[2].1));
        assert(body_entries(j) == bsv);
    }
    j
}

} // verus!
