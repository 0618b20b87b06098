//! The unique-id workload: identifier strings built from the millisecond
//! clock, this node's identifier, and a per-millisecond counter.
//!
//! An identifier is the timestamp as 16 upper-case hex digits, the node
//! identifier left-padded with `-` to width 5, and the counter modulo 2^32
//! as 8 hex digits, the three parts joined by `-`.

use vstd::prelude::*;
use vstd::arithmetic::div_mod::lemma_fundamental_div_mod;
use vstd::string::{StrSliceExecFns, StringExecFns};
use crate::codec::{
    body_entries, build_envelope, decode_header, has_tag, header_decodable, header_matches,
    lemma_lookup_hit, tag_is,
};
use crate::json::{lookup, obj_get, Json};
use crate::protocol::{Body, Error, Message};
use crate::workloads::Context;

verus! {

/// The counter wraps at 2^32: only its low 32 bits reach the identifier.
pub const COUNTER_MODULUS: u64 = 0x1_0000_0000;

/// The upper-case hex digit of a nibble.
pub open spec fn hex_char(d: nat) -> char {
    if d == 0 {
        '0'
    } else if d == 1 {
        '1'
    } else if d == 2 {
        '2'
    } else if d == 3 {
        '3'
    } else if d == 4 {
        '4'
    } else if d == 5 {
        '5'
    } else if d == 6 {
        '6'
    } else if d == 7 {
        '7'
    } else if d == 8 {
        '8'
    } else if d == 9 {
        '9'
    } else if d == 10 {
        'A'
    } else if d == 11 {
        'B'
    } else if d == 12 {
        'C'
    } else if d == 13 {
        'D'
    } else if d == 14 {
        'E'
    } else {
        'F'
    }
}

/// The low `k` hex digits of `n`, most significant first.
pub open spec fn hex_seq(n: nat, k: nat) -> Seq<char>
    decreases k,
{
    if k == 0 {
        Seq::empty()
    } else {
        hex_seq(n / 16, (k - 1) as nat) + seq![hex_char(n % 16)]
    }
}

/// Sixteen to the `k`th power.
pub open spec fn pow16(k: nat) -> nat
    decreases k,
{
    if k == 0 {
        1
    } else {
        16 * pow16((k - 1) as nat)
    }
}

/// `k` fill dashes.
pub open spec fn dashes(k: nat) -> Seq<char> {
    Seq::new(k, |i: int| '-')
}

/// The node identifier left-padded with `-` to width 5.
pub open spec fn padded(node: Seq<char>) -> Seq<char> {
    if node.len() >= 5 {
        node
    } else {
        dashes((5 - node.len()) as nat) + node
    }
}

/// The identifier string for a timestamp, node, and counter.
pub open spec fn id_chars(ts: u64, node: Seq<char>, counter: u64) -> Seq<char> {
    hex_seq(ts as nat, 16) + seq!['-'] + padded(node) + seq!['-'] + hex_seq(counter as nat, 8)
}

/// A hex digit determines its nibble.
pub proof fn lemma_hex_char_injective(a: nat, b: nat)
    requires
        a < 16,
        b < 16,
        hex_char(a) == hex_char(b),
    ensures
        a == b,
{
}

/// A hex string has one character per digit.
pub proof fn lemma_hex_seq_len(n: nat, k: nat)
    ensures
        hex_seq(n, k).len() == k,
    decreases k,
{
    if k > 0 {
        lemma_hex_seq_len(n / 16, (k - 1) as nat);
    }
}

/// Within its width, a hex string determines its value.
pub proof fn lemma_hex_seq_injective(a: nat, b: nat, k: nat)
    requires
        a < pow16(k),
        b < pow16(k),
        hex_seq(a, k) == hex_seq(b, k),
    ensures
        a == b,
    decreases k,
{
    if k == 0 {
    } else {
        let k1 = (k - 1) as nat;
        let sa = hex_seq(a / 16, k1);
        let sb = hex_seq(b / 16, k1);
        lemma_hex_seq_len(a / 16, k1);
        lemma_hex_seq_len(b / 16, k1);
        assert(hex_seq(a, k)[k - 1] == hex_char(a % 16));
        assert(hex_seq(b, k)[k - 1] == hex_char(b % 16));
        lemma_hex_char_injective(a % 16, b % 16);
        assert(sa =~= sb) by {
            assert forall|i: int| 0 <= i < k1 implies sa[i] == sb[i] by {
                assert(hex_seq(a, k)[i] == sa[i]);
                assert(hex_seq(b, k)[i] == sb[i]);
            }
        }
        lemma_fundamental_div_mod(a as int, 16);
        lemma_fundamental_div_mod(b as int, 16);
        assert(a / 16 < pow16(k1));
        assert(b / 16 < pow16(k1));
        lemma_hex_seq_injective(a / 16, b / 16, k1);
    }
}

/// The padded node identifier determines the identifier, as long as node
/// identifiers carry no `-` of their own.
pub proof fn lemma_padded_injective(a: Seq<char>, b: Seq<char>)
    requires
        !a.contains('-'),
        !b.contains('-'),
        padded(a) == padded(b),
    ensures
        a == b,
{
    if a.len() >= 5 && b.len() >= 5 {
    } else if a.len() >= 5 && b.len() < 5 {
        assert(padded(b)[0] == '-');
        assert(padded(a)[0] == a[0]);
        assert(a.contains('-')) by {
            assert(a[0] == '-');
        }
    } else if a.len() < 5 && b.len() >= 5 {
        assert(padded(a)[0] == '-');
        assert(padded(b)[0] == b[0]);
        assert(b.contains('-')) by {
            assert(b[0] == '-');
        }
    } else {
        assert(padded(a).len() == 5 && padded(b).len() == 5);
        if a.len() == b.len() {
            let pad = 5 - a.len();
            assert(a =~= b) by {
                assert forall|i: int| 0 <= i < a.len() implies a[i] == b[i] by {
                    assert(padded(a)[pad + i] == a[i]);
                    assert(padded(b)[pad + i] == b[i]);
                }
            }
        } else if a.len() < b.len() {
            let w = 5 - b.len();
            assert(padded(b)[w] == b[0]);
            assert(padded(a)[w] == '-');
            assert(b.contains('-')) by {
                assert(b[0] == '-');
            }
        } else {
            let w = 5 - a.len();
            assert(padded(a)[w] == a[0]);
            assert(padded(b)[w] == '-');
            assert(a.contains('-')) by {
                assert(a[0] == '-');
            }
        }
    }
}

/// An identifier string determines the timestamp, the node, and the
/// counter that formed it, for dash-free node identifiers and in-range
/// counters.  Two nodes with different identifiers, or one node at two
/// different (timestamp, counter) points, can therefore never emit the
/// same identifier.
pub proof fn lemma_id_chars_injective(
    ts1: u64,
    n1: Seq<char>,
    c1: u64,
    ts2: u64,
    n2: Seq<char>,
    c2: u64,
)
    requires
        !n1.contains('-'),
        !n2.contains('-'),
        c1 < COUNTER_MODULUS,
        c2 < COUNTER_MODULUS,
        id_chars(ts1, n1, c1) == id_chars(ts2, n2, c2),
    ensures
        ts1 == ts2,
        n1 == n2,
        c1 == c2,
{
    let s1 = id_chars(ts1, n1, c1);
    let s2 = id_chars(ts2, n2, c2);
    lemma_hex_seq_len(ts1 as nat, 16);
    lemma_hex_seq_len(ts2 as nat, 16);
    lemma_hex_seq_len(c1 as nat, 8);
    lemma_hex_seq_len(c2 as nat, 8);
    let p1 = padded(n1).len() as int;
    let p2 = padded(n2).len() as int;
    assert(s1.len() == 26 + p1);
    assert(s2.len() == 26 + p2);
    assert(p1 == p2);
    // the timestamp digits occupy the first 16 positions
    assert(hex_seq(ts1 as nat, 16) =~= hex_seq(ts2 as nat, 16)) by {
        assert forall|i: int| 0 <= i < 16 implies hex_seq(ts1 as nat, 16)[i] == hex_seq(
            ts2 as nat,
            16,
        )[i] by {
            assert(s1[i] == hex_seq(ts1 as nat, 16)[i]);
            assert(s2[i] == hex_seq(ts2 as nat, 16)[i]);
        }
    }
    assert(pow16(16) == 0x10000000000000000) by {
        reveal_with_fuel(pow16, 17);
    }
    lemma_hex_seq_injective(ts1 as nat, ts2 as nat, 16);
    // the counter digits occupy the last 8 positions
    assert(hex_seq(c1 as nat, 8) =~= hex_seq(c2 as nat, 8)) by {
        assert forall|i: int| 0 <= i < 8 implies hex_seq(c1 as nat, 8)[i] == hex_seq(
            c2 as nat,
            8,
        )[i] by {
            assert(s1[18 + p1 + i] == hex_seq(c1 as nat, 8)[i]);
            assert(s2[18 + p2 + i] == hex_seq(c2 as nat, 8)[i]);
        }
    }
    assert(pow16(8) == 0x100000000) by {
        reveal_with_fuel(pow16, 9);
    }
    lemma_hex_seq_injective(c1 as nat, c2 as nat, 8);
    // the padded node occupies the middle
    assert(padded(n1) =~= padded(n2)) by {
        assert forall|i: int| 0 <= i < p1 implies padded(n1)[i] == padded(n2)[i] by {
            assert(s1[17 + i] == padded(n1)[i]);
            assert(s2[17 + i] == padded(n2)[i]);
        }
    }
    lemma_padded_injective(n1, n2);
}

/// One upper-case hex digit as text.
fn hex_digit_str(d: u64) -> (r: &'static str)
    requires
        d < 16,
    ensures
        r@ == seq![hex_char(d as nat)],
{
    let r: &'static str = match d {
        0 => "0",
        1 => "1",
        2 => "2",
        3 => "3",
        4 => "4",
        5 => "5",
        6 => "6",
        7 => "7",
        8 => "8",
        9 => "9",
        10 => "A",
        11 => "B",
        12 => "C",
        13 => "D",
        14 => "E",
        _ => "F",
    };
    proof {
        reveal_strlit("0");
        reveal_strlit("1");
        reveal_strlit("2");
        reveal_strlit("3");
        reveal_strlit("4");
        reveal_strlit("5");
        reveal_strlit("6");
        reveal_strlit("7");
        reveal_strlit("8");
        reveal_strlit("9");
        reveal_strlit("A");
        reveal_strlit("B");
        reveal_strlit("C");
        reveal_strlit("D");
        reveal_strlit("E");
        reveal_strlit("F");
        assert(r@ =~= seq![hex_char(d as nat)]);
    }
    r
}

/// The low `k` hex digits of `n`, most significant first.
fn hex_string(n: u64, k: usize) -> (s: String)
    ensures
        s@ == hex_seq(n as nat, k as nat),
    decreases k,
{
    if k == 0 {
        String::new()
    } else {
        let mut s = hex_string(n / 16, k - 1);
        s.append(hex_digit_str(n % 16));
        s
    }
}

/// Builds one identifier string from its three parts.
pub fn make_id(ts: u64, node: &String, counter: u64) -> (s: String)
    ensures
        s@ == id_chars(ts, node@, counter),
{
    let mut s = hex_string(ts, 16);
    s.append("-");
    proof {
        reveal_strlit("-");
    }
    let node_len = node.as_str().unicode_len();
    let mut p: usize = node_len;
    while p < 5
        invariant
            node_len == node@.len(),
            p >= node_len,
            node_len >= 5 ==> p == node_len,
            node_len < 5 ==> p <= 5,
            s@ =~= hex_seq(ts as nat, 16) + seq!['-'] + dashes((p - node_len) as nat),
        decreases 5 - p,
    {
        s.append("-");
        p = p + 1;
        proof {
            reveal_strlit("-");
            assert(s@ =~= hex_seq(ts as nat, 16) + seq!['-'] + dashes((p - node_len) as nat));
        }
    }
    s.append(node.as_str());
    proof {
        reveal_strlit("-");
        assert(dashes(0) =~= Seq::<char>::empty());
        assert(s@ =~= hex_seq(ts as nat, 16) + seq!['-'] + padded(node@));
    }
    s.append("-");
    let c = hex_string(counter, 8);
    s.append(c.as_str());
    proof {
        reveal_strlit("-");
        assert(s@ =~= id_chars(ts, node@, counter));
    }
    s
}

/// The unique-id workload state.
pub struct UniqueIdNode {
    /// The per-millisecond counter, already reduced modulo 2^32.
    pub counter: u64,
    /// The last-seen millisecond timestamp.
    pub timestamp: u64,
}

/// An inbound generate request.
pub struct Generate {}

/// The reply to a generate request.
pub struct GenerateOk {
    /// The freshly generated identifier.
    pub id: String,
}

impl UniqueIdNode {
    /// The counter stays below its modulus.
    pub open spec fn wf(self) -> bool {
        self.counter < COUNTER_MODULUS
    }

    /// The timestamp after seeing the clock read `now`: it only advances.
    pub open spec fn step_ts(self, now: u64) -> u64 {
        if now > self.timestamp {
            now
        } else {
            self.timestamp
        }
    }

    /// The counter after seeing the clock read `now`: reset on a fresh
    /// millisecond, incremented (modulo 2^32) within the same one.
    pub open spec fn step_counter(self, now: u64) -> u64 {
        if now > self.timestamp {
            0
        } else {
            (((self.counter + 1) % (COUNTER_MODULUS as int)) as u64)
        }
    }

    /// A fresh workload whose last-seen timestamp is the given clock value.
    pub fn new(now: u64) -> (r: UniqueIdNode)
        ensures
            r.wf(),
            r.counter == 0,
            r.timestamp == now,
    {
        UniqueIdNode { counter: 0, timestamp: now }
    }

    /// Advances the state for one clock reading and forms the identifier.
    pub fn generate(&mut self, now: u64, node: &String) -> (id: String)
        requires
            old(self).wf(),
        ensures
            final(self).wf(),
            final(self).timestamp == old(self).step_ts(now),
            final(self).counter == old(self).step_counter(now),
            id@ == id_chars(final(self).timestamp, node@, final(self).counter),
    {
        if now > self.timestamp {
            self.timestamp = now;
            self.counter = 0;
        } else {
            self.counter = (self.counter + 1) % COUNTER_MODULUS;
        }
        make_id(self.timestamp, node, self.counter)
    }
}

/// Two successive generate calls on one node, whatever the clock read each
/// time, never form the same identifier: a fresh millisecond changes the
/// timestamp digits, and the same millisecond steps the counter digits.
pub proof fn lemma_successive_ids_distinct(s: UniqueIdNode, now1: u64, now2: u64, node: Seq<char>)
    requires
        s.wf(),
    ensures
        ({
            let s1 = UniqueIdNode { timestamp: s.step_ts(now1), counter: s.step_counter(now1) };
            let s2 = UniqueIdNode { timestamp: s1.step_ts(now2), counter: s1.step_counter(now2) };
            id_chars(s1.timestamp, node, s1.counter) != id_chars(s2.timestamp, node, s2.counter)
        }),
{
    let s1 = UniqueIdNode { timestamp: s.step_ts(now1), counter: s.step_counter(now1) };
    let s2 = UniqueIdNode { timestamp: s1.step_ts(now2), counter: s1.step_counter(now2) };
    let id1 = id_chars(s1.timestamp, node, s1.counter);
    let id2 = id_chars(s2.timestamp, node, s2.counter);
    if id1 == id2 {
        lemma_hex_seq_len(s1.timestamp as nat, 16);
        lemma_hex_seq_len(s2.timestamp as nat, 16);
        lemma_hex_seq_len(s1.counter as nat, 8);
        lemma_hex_seq_len(s2.counter as nat, 8);
        let p = padded(node).len() as int;
        // same node, so the segments align; extract timestamp and counter
        assert(hex_seq(s1.timestamp as nat, 16) =~= hex_seq(s2.timestamp as nat, 16)) by {
            assert forall|i: int| 0 <= i < 16 implies hex_seq(s1.timestamp as nat, 16)[i]
                == hex_seq(s2.timestamp as nat, 16)[i] by {
                assert(id1[i] == hex_seq(s1.timestamp as nat, 16)[i]);
                assert(id2[i] == hex_seq(s2.timestamp as nat, 16)[i]);
            }
        }
        assert(pow16(16) == 0x10000000000000000) by {
            reveal_with_fuel(pow16, 17);
        }
        lemma_hex_seq_injective(s1.timestamp as nat, s2.timestamp as nat, 16);
        assert(hex_seq(s1.counter as nat, 8) =~= hex_seq(s2.counter as nat, 8)) by {
            assert forall|i: int| 0 <= i < 8 implies hex_seq(s1.counter as nat, 8)[i] == hex_seq(
                s2.counter as nat,
                8,
            )[i] by {
                assert(id1[18 + p + i] == hex_seq(s1.counter as nat, 8)[i]);
                assert(id2[18 + p + i] == hex_seq(s2.counter as nat, 8)[i]);
            }
        }
        assert(pow16(8) == 0x100000000) by {
            reveal_with_fuel(pow16, 9);
        }
        lemma_hex_seq_injective(s1.counter as nat, s2.counter as nat, 8);
        // now the two states agree, which the step relation forbids
        assert(s1.timestamp == s2.timestamp && s1.counter == s2.counter);
        assert(false);
    }
}

/// Along a run whose clock never runs backwards and whose counter does not
/// wrap within one millisecond, the (timestamp, counter) pair strictly
/// increases from one call to the next; together with the identifier's
/// injectivity this separates every pair of identifiers in the run, not
/// only neighbouring ones.
pub proof fn lemma_generate_key_increases(s: UniqueIdNode, now: u64)
    requires
        s.wf(),
        now >= s.timestamp,
        s.counter + 1 < COUNTER_MODULUS,
    ensures
        s.step_ts(now) > s.timestamp || (s.step_ts(now) == s.timestamp && s.step_counter(now)
            > s.counter),
{
}

/// The record is a well-formed `generate` request.
pub open spec fn generate_decodable(j: Json) -> bool {
    &&& header_decodable(j)
    &&& tag_is(body_entries(j), "generate"@)
}

/// The record denotes exactly the given `generate` message.
pub open spec fn generate_matches(j: Json, m: Message<Generate>) -> bool {
    &&& header_matches(j, m.src@, m.dst@, m.body.id, m.body.in_reply_to)
    &&& tag_is(body_entries(j), "generate"@)
}

/// The record is a well-formed `generate_ok` reply.
pub open spec fn generate_ok_decodable(j: Json) -> bool {
    &&& header_decodable(j)
    &&& tag_is(body_entries(j), "generate_ok"@)
    &&& lookup(body_entries(j), "id"@) matches Some(Json::Str(_))
}

/// The record denotes exactly the given `generate_ok` message.
pub open spec fn generate_ok_matches(j: Json, m: Message<GenerateOk>) -> bool {
    &&& header_matches(j, m.src@, m.dst@, m.body.id, m.body.in_reply_to)
    &&& tag_is(body_entries(j), "generate_ok"@)
    &&& lookup(body_entries(j), "id"@) matches Some(Json::Str(s)) && s@ == m.body.payload.id@
}

/// Decodes a `generate` request.
pub fn decode_generate(j: &Json) -> (r: Result<Message<Generate>, Error>)
    ensures
        r matches Ok(m) ==> generate_matches(*j, m),
        r is Ok <==> generate_decodable(*j),
        r matches Err(e) ==> e == Error::Malformed,
{
    let (h, bs) = match decode_header(j) {
        Ok(x) => x,
        Err(e) => {
            return Err(e);
        },
    };
    if !has_tag(bs, "generate") {
        return Err(Error::Malformed);
    }
    Ok(Message {
        src: h.src,
        dst: h.dst,
        body: Body { id: h.id, in_reply_to: h.in_reply_to, payload: Generate {} },
    })
}

/// Decodes a `generate_ok` reply.
pub fn decode_generate_ok(j: &Json) -> (r: Result<Message<GenerateOk>, Error>)
    ensures
        r matches Ok(m) ==> generate_ok_matches(*j, m),
        r is Ok <==> generate_ok_decodable(*j),
        r matches Err(e) ==> e == Error::Malformed,
{
    let (h, bs) = match decode_header(j) {
        Ok(x) => x,
        Err(e) => {
            return Err(e);
        },
    };
    if !has_tag(bs, "generate_ok") {
        return Err(Error::Malformed);
    }
    let id = match obj_get(bs, &String::from_str("id")) {
        Some(Json::Str(s)) => s.clone(),
        _ => {
            return Err(Error::Malformed);
        },
    };
    Ok(Message {
        src: h.src,
        dst: h.dst,
        body: Body { id: h.id, in_reply_to: h.in_reply_to, payload: GenerateOk { id } },
    })
}

/// Encodes a `generate` request.
pub fn encode_generate(m: &Message<Generate>) -> (j: Json)
    ensures
        generate_matches(j, *m),
        generate_decodable(j),
{
    build_envelope(&m.src, &m.dst, m.body.id, m.body.in_reply_to, "generate", Vec::new())
}

/// Encodes a `generate_ok` reply.
pub fn encode_generate_ok(m: &Message<GenerateOk>) -> (j: Json)
    ensures
        generate_ok_matches(j, *m),
        generate_ok_decodable(j),
{
    let mut extra: Vec<(String, Json)> = Vec::new();
    extra.push((String::from_str("id"), Json::Str(m.body.payload.id.clone())));
    proof {
        reveal_strlit("id");
        reveal_strlit("type");
        reveal_strlit("msg_id");
        reveal_strlit("in_reply_to");
        assert(extra@[0].0@ == "id"@);
        assert("id"@.len() == 2 && "type"@.len() == 4 && "msg_id"@.len() == 6
            && "in_reply_to"@.len() == 11);
    }
    let ghost extra0 = extra@;
    let j = build_envelope(&m.src, &m.dst, m.body.id, m.body.in_reply_to, "generate_ok", extra);
    proof {
        lemma_lookup_hit(extra0, "id"@);
    }
    j
}

/// Round trip: decoding an encoded `generate` envelope gives the original
/// back.
pub fn generate_round_trip(m: Message<Generate>) -> (r: Message<Generate>)
    ensures
        r.src@ == m.src@,
        r.dst@ == m.dst@,
        r.body.id == m.body.id,
        r.body.in_reply_to == m.body.in_reply_to,
{
    let j = encode_generate(&m);
    match decode_generate(&j) {
        Ok(r) => r,
        Err(_) => {
            proof {
                assert(false);
            }
            m
        },
    }
}

/// Round trip: decoding an encoded `generate_ok` envelope gives the
/// original back.
pub fn generate_ok_round_trip(m: Message<GenerateOk>) -> (r: Message<GenerateOk>)
    ensures
        r.src@ == m.src@,
        r.dst@ == m.dst@,
        r.body.id == m.body.id,
        r.body.in_reply_to == m.body.in_reply_to,
        r.body.payload.id@ == m.body.payload.id@,
{
    let j = encode_generate_ok(&m);
    match decode_generate_ok(&j) {
        Ok(r) => r,
        Err(_) => {
            proof {
                assert(false);
            }
            m
        },
    }
}

/// Relies on std::time::SystemTime::now and SystemTime::duration_since:
/// the wall clock as milliseconds since the Unix epoch, or nothing when
/// the clock reads earlier than the epoch.
#[verifier::external_body]
fn now_millis() -> (r: Option<u64>) {
    match std::time::SystemTime::now().duration_since(std::time::UNIX_EPOCH) {
        Ok(d) => Some(d.as_millis() as u64),
        Err(_) => None,
    }
}

impl UniqueIdNode {
    /// Answers a generate request with a fresh identifier read off the
    /// clock, this node's identifier, and the counter; fails only when the
    /// clock cannot be related to the epoch.
    pub fn process(&mut self, ctx: &mut Context, msg: Message<Generate>) -> (r: Result<
        Message<GenerateOk>,
        Error,
    >)
        requires
            old(self).wf(),
        ensures
            final(self).wf(),
            *final(ctx) == *old(ctx),
            r matches Ok(m) ==> m.is_reply_to(msg, old(ctx).next_id) && (exists|now: u64|
                final(self).timestamp == old(self).step_ts(now) && final(self).counter == old(
                    self,
                ).step_counter(now)) && m.body.payload.id@ == id_chars(
                final(self).timestamp,
                old(ctx).node_id@,
                final(self).counter,
            ),
            r matches Err(e) ==> e == Error::ClockBeforeEpoch && *final(self) == *old(self),
    {
        let now = match now_millis() {
            Some(t) => t,
            None => {
                return Err(Error::ClockBeforeEpoch);
            },
        };
        let id = self.generate(now, &ctx.node_id);
        Ok(Message {
            src: msg.dst,
            dst: msg.src,
            body: Body {
                id: Some(ctx.next_id),
                in_reply_to: msg.body.id,
                payload: GenerateOk { id },
            },
        })
    }
}

} // verus!
