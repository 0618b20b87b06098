//! The gossip broadcast workload: a replicated, grow-only dedup set, the
//! topology-derived neighbour list, and the propagation schedule that lets
//! the set converge across nodes.
//!
//! Every value accepted from the harness or a peer is recorded once, and a
//! forward to each neighbour is scheduled until that neighbour acknowledges
//! the value.  The driving invariant: each (value, neighbour) pair is either
//! pending or acknowledged, so no neighbour is ever silently skipped.

use vstd::prelude::*;
use vstd::string::StringExecFns;
use crate::codec::{
    body_entries, build_envelope, decode_header, has_tag, header_decodable, header_matches,
    lemma_lookup_hit, tag_is,
};
use crate::json::{lookup, obj_get, Json};
use crate::protocol::{Body, Error, Message};
use crate::workloads::init::{all_strings, decode_strings, encode_strings, strings_match};
use crate::workloads::Context;

verus! {

/// The list of pairs holds `(n, v)` somewhere.
pub open spec fn pair_in(s: Seq<(String, u64)>, n: Seq<char>, v: u64) -> bool {
    exists|t: int| 0 <= t < s.len() && #[trigger] s[t].0@ == n && s[t].1 == v
}

/// A pair present in a prefix is present in the whole.
pub proof fn lemma_pair_in_prefix(s: Seq<(String, u64)>, t: Seq<(String, u64)>, n: Seq<char>, v: u64)
    requires
        s.is_prefix_of(t),
        pair_in(s, n, v),
    ensures
        pair_in(t, n, v),
{
    let w = choose|w: int| 0 <= w < s.len() && #[trigger] s[w].0@ == n && s[w].1 == v;
    assert(t[w] == s[w]);
}

/// The value bound to `k` in the topology mapping, first entry first.
pub open spec fn topo_lookup(t: Seq<(String, Vec<String>)>, k: Seq<char>) -> Option<Vec<String>>
    decreases t.len(),
{
    if t.len() == 0 {
        None
    } else if t[0].0@ == k {
        Some(t[0].1)
    } else {
        topo_lookup(t.subrange(1, t.len() as int), k)
    }
}

/// Looks a node's neighbour list up in a topology mapping.
pub fn topo_get<'a>(t: &'a Vec<(String, Vec<String>)>, k: &String) -> (r: Option<&'a Vec<String>>)
    ensures
        match r {
            Some(ns) => topo_lookup(t@, k@) == Some(*ns),
            None => topo_lookup(t@, k@) is None,
        },
{
    let n = t.len();
    let mut i: usize = 0;
    proof {
        assert(t@.subrange(0, n as int) =~= t@);
    }
    while i < n
        invariant
            n == t@.len(),
            i <= n,
            topo_lookup(t@, k@) == topo_lookup(t@.subrange(i as int, n as int), k@),
        decreases n - i,
    {
        proof {
            assert(t@.subrange(i as int, n as int)[0] == t@[i as int]);
        }
        if t[i].0 == *k {
            return Some(&t[i].1);
        }
        proof {
            assert(t@.subrange(i as int, n as int).subrange(
                1,
                t@.subrange(i as int, n as int).len() as int,
            ) =~= t@.subrange(i + 1, n as int));
        }
        i = i + 1;
    }
    None
}

/// Copies a list of node identifiers.
pub fn clone_strings(v: &Vec<String>) -> (r: Vec<String>)
    ensures
        r@ == v@,
{
    let mut r: Vec<String> = Vec::new();
    let n = v.len();
    let mut i: usize = 0;
    while i < n
        invariant
            n == v@.len(),
            i <= n,
            r@ =~= v@.subrange(0, i as int),
        decreases n - i,
    {
        r.push(v[i].clone());
        i = i + 1;
    }
    proof {
        assert(r@ =~= v@);
    }
    r
}

/// Whether `(n, v)` stands in the list of pairs.
fn has_pair(list: &Vec<(String, u64)>, n: &String, v: u64) -> (r: bool)
    ensures
        r == pair_in(list@, n@, v),
{
    let len = list.len();
    let mut i: usize = 0;
    while i < len
        invariant
            len == list@.len(),
            i <= len,
            forall|t: int| 0 <= t < i ==> !(#[trigger] list@[t].0@ == n@ && list@[t].1 == v),
        decreases len - i,
    {
        if list[i].0 == *n && list[i].1 == v {
            return true;
        }
        i = i + 1;
    }
    false
}

/// The gossip workload state.
pub struct GossipNode {
    /// Every value ever observed, each exactly once; it only grows.
    pub store: Vec<u64>,
    /// The neighbour list the topology assigned this node.
    pub neighbours: Vec<String>,
    /// Forwards not yet acknowledged: the value still owed to the neighbour.
    pub pending: Vec<(String, u64)>,
    /// Forwards a neighbour has acknowledged, or values it evidently holds
    /// because it sent them here.
    pub acked: Vec<(String, u64)>,
}

/// An inbound gossip request.
pub enum Incoming {
    Broadcast { message: u64 },
    Read {},
    Topology { topology: Vec<(String, Vec<String>)> },
}

/// An outbound gossip reply.
pub enum Outgoing {
    BroadcastOk {},
    ReadOk { messages: Vec<u64> },
    TopologyOk {},
}

impl GossipNode {
    /// The set of delivered values.
    pub open spec fn store_set(self) -> Set<u64> {
        self.store@.to_set()
    }

    /// The dedup set holds each value at most once.
    pub open spec fn store_unique(self) -> bool {
        forall|i: int, j: int| 0 <= i < j < self.store@.len()
            ==> self.store@[i] != self.store@[j]
    }

    /// Every (value, neighbour) pair is scheduled for forwarding or already
    /// acknowledged: the propagation schedule leaves no neighbour out.
    pub open spec fn covered(self) -> bool {
        forall|i: int, k: int| 0 <= i < self.store@.len() && 0 <= k < self.neighbours@.len()
            ==> pair_in(self.pending@, #[trigger] self.neighbours@[k]@, #[trigger] self.store@[i])
                || pair_in(self.acked@, self.neighbours@[k]@, self.store@[i])
    }

    /// The workload's invariant.
    pub open spec fn wf(self) -> bool {
        &&& self.store_unique()
        &&& self.covered()
    }

    /// A fresh gossip node with nothing delivered and no neighbours.
    pub fn new() -> (r: GossipNode)
        ensures
            r.wf(),
            r.store@ =~= Seq::<u64>::empty(),
            r.neighbours@ =~= Seq::<String>::empty(),
            r.pending@ =~= Seq::<(String, u64)>::empty(),
    {
        GossipNode {
            store: Vec::new(),
            neighbours: Vec::new(),
            pending: Vec::new(),
            acked: Vec::new(),
        }
    }

    /// Whether the value has been delivered before.
    pub fn contains(&self, v: u64) -> (r: bool)
        ensures
            r == self.store@.contains(v),
    {
        let n = self.store.len();
        let mut i: usize = 0;
        while i < n
            invariant
                n == self.store@.len(),
                i <= n,
                forall|t: int| 0 <= t < i ==> self.store@[t] != v,
            decreases n - i,
        {
            if self.store[i] == v {
                return true;
            }
            i = i + 1;
        }
        false
    }

    /// Delivers a broadcast value: inserts it into the dedup set, and on
    /// first sight schedules a forward to every neighbour except the sender,
    /// who evidently holds the value already.  Idempotent: a repeated value
    /// changes nothing.
    pub fn deliver(&mut self, src: &String, v: u64)
        requires
            old(self).wf(),
        ensures
            final(self).wf(),
            final(self).store_set() == old(self).store_set().insert(v),
            final(self).neighbours == old(self).neighbours,
            old(self).store@.contains(v) ==> *final(self) == *old(self),
            !old(self).store@.contains(v) ==> final(self).store@ == old(self).store@.push(v),
    {
        if self.contains(v) {
            proof {
                assert(old(self).store_set() =~= old(self).store_set().insert(v));
            }
            return;
        }
        self.store.push(v);
        self.acked.push((src.clone(), v));
        let ghost mid = *self;
        let n = self.neighbours.len();
        let mut k: usize = 0;
        while k < n
            invariant
                n == self.neighbours@.len(),
                k <= n,
                self.store == mid.store,
                self.neighbours == mid.neighbours,
                self.acked == mid.acked,
                mid.pending@.is_prefix_of(self.pending@),
                forall|t: int| 0 <= t < k && (#[trigger] self.neighbours@[t])@ != src@
                    ==> pair_in(self.pending@, self.neighbours@[t]@, v),
            decreases n - k,
        {
            if self.neighbours[k] != *src {
                let nb = self.neighbours[k].clone();
                let ghost before = self.pending@;
                self.pending.push((nb, v));
                proof {
                    assert(self.pending@[before.len() as int].0@ == self.neighbours@[k as int]@);
                    assert(before.is_prefix_of(self.pending@));
                    assert forall|t: int| 0 <= t < k + 1 && (#[trigger] self.neighbours@[t])@
                        != src@ implies pair_in(self.pending@, self.neighbours@[t]@, v) by {
                        if t < k {
                            lemma_pair_in_prefix(before, self.pending@, self.neighbours@[t]@, v);
                        }
                    }
                }
            }
            k = k + 1;
        }
        proof {
            let olds = *old(self);
            let news = *self;
            // the set view: pushing an absent value inserts it
            assert(news.store_set() =~= olds.store_set().insert(v)) by {
                assert forall|x: u64| news.store@.contains(x)
                    implies olds.store@.contains(x) || x == v by {
                    let w = choose|w: int| 0 <= w < news.store@.len() && news.store@[w] == x;
                    if w < olds.store@.len() {
                        assert(olds.store@[w] == x);
                    }
                }
                assert(news.store@.contains(v)) by {
                    assert(news.store@[news.store@.len() - 1] == v);
                }
                assert forall|x: u64| olds.store@.contains(x) implies news.store@.contains(x) by {
                    let w = choose|w: int| 0 <= w < olds.store@.len() && olds.store@[w] == x;
                    assert(news.store@[w] == x);
                }
            }
            // uniqueness: the new value was absent
            assert(news.store_unique()) by {
                assert forall|i: int, j: int| 0 <= i < j < news.store@.len()
                    implies news.store@[i] != news.store@[j] by {
                    if j == news.store@.len() - 1 {
                        assert(olds.store@[i] == news.store@[i]);
                        assert(!olds.store@.contains(v));
                    }
                }
            }
            // coverage: old pairs persist; the new value is pending to every
            // neighbour but the sender, and acknowledged for the sender
            assert(news.covered()) by {
                assert forall|i: int, k2: int| 0 <= i < news.store@.len() && 0 <= k2
                    < news.neighbours@.len() implies pair_in(
                    news.pending@,
                    #[trigger] news.neighbours@[k2]@,
                    #[trigger] news.store@[i],
                ) || pair_in(news.acked@, news.neighbours@[k2]@, news.store@[i]) by {
                    if i < olds.store@.len() {
                        assert(olds.store@[i] == news.store@[i]);
                        if pair_in(olds.pending@, news.neighbours@[k2]@, news.store@[i]) {
                            assert(olds.pending@.is_prefix_of(mid.pending@));
                            lemma_pair_in_prefix(
                                olds.pending@,
                                news.pending@,
                                news.neighbours@[k2]@,
                                news.store@[i],
                            );
                        } else {
                            assert(pair_in(olds.acked@, news.neighbours@[k2]@, news.store@[i]));
                            lemma_pair_in_prefix(
                                olds.acked@,
                                news.acked@,
                                news.neighbours@[k2]@,
                                news.store@[i],
                            );
                        }
                    } else {
                        assert(news.store@[i] == v);
                        if news.neighbours@[k2]@ == src@ {
                            assert(news.acked@[news.acked@.len() - 1].0@ == src@);
                        }
                    }
                }
            }
        }
    }

    /// A fresh copy of the full current membership.
    pub fn read(&self) -> (r: Vec<u64>)
        ensures
            r@ == self.store@,
    {
        let mut r: Vec<u64> = Vec::new();
        let n = self.store.len();
        let mut i: usize = 0;
        while i < n
            invariant
                n == self.store@.len(),
                i <= n,
                r@ =~= self.store@.subrange(0, i as int),
            decreases n - i,
        {
            r.push(self.store[i]);
            i = i + 1;
        }
        proof {
            assert(r@ =~= self.store@);
        }
        r
    }

    /// Adopts a new neighbour list and schedules every stored value for
    /// forwarding to each new neighbour that has not acknowledged it.
    pub fn set_topology(&mut self, neighbours: Vec<String>)
        requires
            old(self).wf(),
        ensures
            final(self).wf(),
            final(self).store == old(self).store,
            final(self).neighbours == neighbours,
            final(self).acked == old(self).acked,
    {
        self.neighbours = neighbours;
        let nn = self.neighbours.len();
        let mut k: usize = 0;
        while k < nn
            invariant
                nn == self.neighbours@.len(),
                k <= nn,
                self.store == old(self).store,
                self.neighbours == neighbours,
                self.acked == old(self).acked,
                self.store_unique(),
                forall|t: int, i: int| 0 <= t < k && 0 <= i < self.store@.len() ==> pair_in(
                    self.pending@,
                    #[trigger] self.neighbours@[t]@,
                    #[trigger] self.store@[i],
                ) || pair_in(self.acked@, self.neighbours@[t]@, self.store@[i]),
            decreases nn - k,
        {
            let ns = self.store.len();
            let mut i: usize = 0;
            while i < ns
                invariant
                    nn == self.neighbours@.len(),
                    k < nn,
                    ns == self.store@.len(),
                    i <= ns,
                    self.store == old(self).store,
                    self.neighbours == neighbours,
                    self.acked == old(self).acked,
                    self.store_unique(),
                    forall|t: int, i2: int| 0 <= t < k && 0 <= i2 < self.store@.len() ==> pair_in(
                        self.pending@,
                        #[trigger] self.neighbours@[t]@,
                        #[trigger] self.store@[i2],
                    ) || pair_in(self.acked@, self.neighbours@[t]@, self.store@[i2]),
                    forall|i2: int| 0 <= i2 < i ==> pair_in(
                        self.pending@,
                        self.neighbours@[k as int]@,
                        #[trigger] self.store@[i2],
                    ) || pair_in(self.acked@, self.neighbours@[k as int]@, self.store@[i2]),
                decreases ns - i,
            {
                let v = self.store[i];
                let ghost before = self.pending@;
                if !has_pair(&self.pending, &self.neighbours[k], v) && !has_pair(
                    &self.acked,
                    &self.neighbours[k],
                    v,
                ) {
                    let nb = self.neighbours[k].clone();
                    self.pending.push((nb, v));
                    proof {
                        assert(self.pending@[before.len() as int].0@
                            == self.neighbours@[k as int]@);
                        assert(before.is_prefix_of(self.pending@));
                        assert forall|t: int, i2: int| 0 <= t < k && 0 <= i2
                            < self.store@.len() && !pair_in(
                            self.acked@,
                            #[trigger] self.neighbours@[t]@,
                            #[trigger] self.store@[i2],
                        ) implies pair_in(
                            self.pending@,
                            self.neighbours@[t]@,
                            self.store@[i2],
                        ) by {
                            lemma_pair_in_prefix(
                                before,
                                self.pending@,
                                self.neighbours@[t]@,
                                self.store@[i2],
                            );
                        }
                        assert forall|i2: int| 0 <= i2 < i && !pair_in(
                            self.acked@,
                            self.neighbours@[k as int]@,
                            #[trigger] self.store@[i2],
                        ) implies pair_in(
                            self.pending@,
                            self.neighbours@[k as int]@,
                            self.store@[i2],
                        ) by {
                            lemma_pair_in_prefix(
                                before,
                                self.pending@,
                                self.neighbours@[k as int]@,
                                self.store@[i2],
                            );
                        }
                    }
                }
                i = i + 1;
            }
            k = k + 1;
        }
    }

    /// Records a neighbour's acknowledgement of a value, discharging the
    /// matching pending forwards.
    pub fn acknowledge(&mut self, n: &String, v: u64)
        requires
            old(self).wf(),
        ensures
            final(self).wf(),
            final(self).store == old(self).store,
            final(self).neighbours == old(self).neighbours,
            pair_in(final(self).acked@, n@, v),
            // discharged: nothing for (n, v) is pending any more
            !pair_in(final(self).pending@, n@, v),
    {
        self.acked.push((n.clone(), v));
        let ghost acked1 = self.acked@;
        let mut remaining: Vec<(String, u64)> = Vec::new();
        let len = self.pending.len();
        let mut i: usize = 0;
        while i < len
            invariant
                len == self.pending@.len(),
                i <= len,
                self.store == old(self).store,
                self.neighbours == old(self).neighbours,
                self.acked@ == acked1,
                forall|t: int| 0 <= t < remaining@.len() ==> !(#[trigger] remaining@[t].0@ == n@
                    && remaining@[t].1 == v),
                forall|m: Seq<char>, w: u64| pair_in(remaining@, m, w) ==> pair_in(
                    self.pending@,
                    m,
                    w,
                ),
                forall|m: Seq<char>, w: u64| #[trigger] pair_in(self.pending@.subrange(0, i as int), m, w)
                    && !(m == n@ && w == v) ==> pair_in(remaining@, m, w),
            decreases len - i,
        {
            let keep = !(self.pending[i].0 == *n && self.pending[i].1 == v);
            if keep {
                let ghost rem0 = remaining@;
                let item = (self.pending[i].0.clone(), self.pending[i].1);
                remaining.push(item);
                proof {
                    assert(remaining@[rem0.len() as int].0@ == self.pending@[i as int].0@);
                    assert forall|m: Seq<char>, w: u64| pair_in(remaining@, m, w) implies pair_in(
                        self.pending@,
                        m,
                        w,
                    ) by {
                        let t = choose|t: int| 0 <= t < remaining@.len()
                            && #[trigger] remaining@[t].0@ == m && remaining@[t].1 == w;
                        if t < rem0.len() {
                            assert(pair_in(rem0, m, w));
                        } else {
                            assert(self.pending@[i as int].0@ == m
                                && self.pending@[i as int].1 == w);
                        }
                    }
                    assert forall|m: Seq<char>, w: u64| #[trigger] pair_in(
                        self.pending@.subrange(0, i + 1),
                        m,
                        w,
                    ) && !(m == n@ && w == v) implies pair_in(remaining@, m, w) by {
                        let t = choose|t: int| 0 <= t < i + 1
                            && #[trigger] self.pending@.subrange(0, i + 1)[t].0@ == m
                            && self.pending@.subrange(0, i + 1)[t].1 == w;
                        if t < i {
                            assert(self.pending@.subrange(0, i as int)[t]
                                == self.pending@.subrange(0, i + 1)[t]);
                            assert(pair_in(self.pending@.subrange(0, i as int), m, w));
                            lemma_pair_in_prefix(rem0, remaining@, m, w);
                        } else {
                            assert(remaining@[rem0.len() as int].0@ == m);
                        }
                    }
                }
            } else {
                proof {
                    assert forall|m: Seq<char>, w: u64| #[trigger] pair_in(
                        self.pending@.subrange(0, i + 1),
                        m,
                        w,
                    ) && !(m == n@ && w == v) implies pair_in(remaining@, m, w) by {
                        let t = choose|t: int| 0 <= t < i + 1
                            && #[trigger] self.pending@.subrange(0, i + 1)[t].0@ == m
                            && self.pending@.subrange(0, i + 1)[t].1 == w;
                        if t < i {
                            assert(self.pending@.subrange(0, i as int)[t]
                                == self.pending@.subrange(0, i + 1)[t]);
                            assert(pair_in(self.pending@.subrange(0, i as int), m, w));
                        } else {
                            assert(self.pending@[i as int].0@ == n@
                                && self.pending@[i as int].1 == v);
                        }
                    }
                }
            }
            i = i + 1;
        }
        proof {
            assert(self.pending@.subrange(0, len as int) =~= self.pending@);
        }
        self.pending = remaining;
        proof {
            let news = *self;
            assert(news.acked@[news.acked@.len() - 1].0@ == n@);
            assert(news.covered()) by {
                assert forall|i2: int, k2: int| 0 <= i2 < news.store@.len() && 0 <= k2
                    < news.neighbours@.len() implies pair_in(
                    news.pending@,
                    #[trigger] news.neighbours@[k2]@,
                    #[trigger] news.store@[i2],
                ) || pair_in(news.acked@, news.neighbours@[k2]@, news.store@[i2]) by {
                    let m = news.neighbours@[k2]@;
                    let w = news.store@[i2];
                    if pair_in(old(self).acked@, m, w) {
                        lemma_pair_in_prefix(old(self).acked@, news.acked@, m, w);
                    } else {
                        assert(pair_in(old(self).pending@, m, w));
                        if m == n@ && w == v {
                            assert(pair_in(news.acked@, m, w));
                        }
                    }
                }
            }
        }
    }

    /// The forwards still owed: each entry names a neighbour and the value
    /// to re-send to it.
    pub fn pending_forwards(&self) -> (r: &Vec<(String, u64)>)
        ensures
            r@ == self.pending@,
    {
        &self.pending
    }

    /// Answers one gossip request: delivers a broadcast, reads the current
    /// membership, or adopts a topology.  A topology that omits this node's
    /// own identifier is a fatal protocol violation and changes nothing.
    pub fn process(&mut self, ctx: &mut Context, msg: Message<Incoming>) -> (r: Result<
        Message<Outgoing>,
        Error,
    >)
        requires
            old(self).wf(),
        ensures
            final(self).wf(),
            *final(ctx) == *old(ctx),
            match msg.body.payload {
                Incoming::Broadcast { message } => {
                    &&& r matches Ok(m) && m.is_reply_to(msg, old(ctx).next_id) && (
                    m.body.payload matches Outgoing::BroadcastOk {  })
                    &&& final(self).store_set() == old(self).store_set().insert(message)
                    &&& final(self).neighbours == old(self).neighbours
                },
                Incoming::Read {  } => {
                    &&& r matches Ok(m) && m.is_reply_to(msg, old(ctx).next_id) && (
                    m.body.payload matches Outgoing::ReadOk { messages } && messages@
                        == old(self).store@)
                    &&& *final(self) == *old(self)
                },
                Incoming::Topology { topology } => {
                    match topo_lookup(topology@, old(ctx).node_id@) {
                        Some(ns) => {
                            &&& r matches Ok(m) && m.is_reply_to(msg, old(ctx).next_id) && (
                            m.body.payload matches Outgoing::TopologyOk {  })
                            &&& final(self).neighbours@ == ns@
                            &&& final(self).store == old(self).store
                        },
                        None => {
                            &&& r matches Err(e) && e == Error::TopologyMissingSelf
                            &&& *final(self) == *old(self)
                        },
                    }
                },
            },
    {
        let Message { src, dst, body } = msg;
        let reply_to = body.id;
        let payload = match body.payload {
            Incoming::Broadcast { message } => {
                self.deliver(&src, message);
                Outgoing::BroadcastOk {  }
            },
            Incoming::Read {  } => {
                let messages = self.read();
                Outgoing::ReadOk { messages }
            },
            Incoming::Topology { topology } => {
                let ns = match topo_get(&topology, &ctx.node_id) {
                    Some(ns) => clone_strings(ns),
                    None => {
                        return Err(Error::TopologyMissingSelf);
                    },
                };
                self.set_topology(ns);
                Outgoing::TopologyOk {  }
            },
        };
        Ok(Message {
            src: dst,
            dst: src,
            body: Body { id: Some(ctx.next_id), in_reply_to: reply_to, payload },
        })
    }
}

/// Delivering the same value twice leaves the same membership as delivering
/// it once: insertion into the dedup set is idempotent, so the read result
/// after a duplicated broadcast equals the one after a single broadcast.
pub proof fn lemma_broadcast_idempotent(s: Set<u64>, v: u64)
    ensures
        s.insert(v).insert(v) == s.insert(v),
{
    assert(s.insert(v).insert(v) =~= s.insert(v));
}

/// Once the pending queue has drained, every neighbour has acknowledged
/// every delivered value: the propagation schedule stops re-sending only
/// when the whole neighbourhood holds the full set.
pub proof fn lemma_quiescence_means_acknowledged(g: GossipNode, i: int, k: int)
    requires
        g.wf(),
        g.pending@.len() == 0,
        0 <= i < g.store@.len(),
        0 <= k < g.neighbours@.len(),
    ensures
        pair_in(g.acked@, g.neighbours@[k]@, g.store@[i]),
{
    assert(!pair_in(g.pending@, g.neighbours@[k]@, g.store@[i]));
}

/// Every element denotes an unsigned 64-bit integer.
pub open spec fn all_u64s(a: Seq<Json>) -> bool {
    forall|i: int| 0 <= i < a.len() ==> (#[trigger] a[i]).spec_as_u64() is Some
}

/// The JSON numbers denote the values, element for element.
pub open spec fn u64s_match(a: Seq<Json>, v: Seq<u64>) -> bool {
    &&& a.len() == v.len()
    &&& forall|i: int| 0 <= i < a.len() ==> (#[trigger] a[i]).spec_as_u64() == Some(v[i])
}

/// The JSON object denotes the topology mapping, entry for entry.
pub open spec fn topology_json(o: Seq<(String, Json)>, t: Seq<(String, Vec<String>)>) -> bool {
    &&& o.len() == t.len()
    &&& forall|i: int| 0 <= i < o.len() ==> (#[trigger] o[i]).0@ == t[i].0@
        && (o[i].1 matches Json::Arr(a) && strings_match(a@, t[i].1@))
}

/// Every entry of the JSON object is an array of strings.
pub open spec fn topology_payload_decodable(o: Seq<(String, Json)>) -> bool {
    forall|i: int| 0 <= i < o.len() ==> ((#[trigger] o[i]).1 matches Json::Arr(a)
        && all_strings(a@))
}

/// The record is a well-formed gossip request of some variant.
pub open spec fn incoming_decodable(j: Json) -> bool {
    &&& header_decodable(j)
    &&& {
        ||| tag_is(body_entries(j), "broadcast"@) && (lookup(body_entries(j), "message"@)
            matches Some(v) && v.spec_as_u64() is Some)
        ||| tag_is(body_entries(j), "read"@)
        ||| tag_is(body_entries(j), "topology"@) && (lookup(body_entries(j), "topology"@)
            matches Some(Json::Obj(o)) && topology_payload_decodable(o@))
    }
}

/// The record denotes exactly the given gossip request.
pub open spec fn incoming_matches(j: Json, m: Message<Incoming>) -> bool {
    &&& header_matches(j, m.src@, m.dst@, m.body.id, m.body.in_reply_to)
    &&& match m.body.payload {
        Incoming::Broadcast { message } => tag_is(body_entries(j), "broadcast"@) && (lookup(
            body_entries(j),
            "message"@,
        ) matches Some(v) && v.spec_as_u64() == Some(message)),
        Incoming::Read {  } => tag_is(body_entries(j), "read"@),
        Incoming::Topology { topology } => tag_is(body_entries(j), "topology"@) && (lookup(
            body_entries(j),
            "topology"@,
        ) matches Some(Json::Obj(o)) && topology_json(o@, topology@)),
    }
}

/// The record is a well-formed gossip reply of some variant.
pub open spec fn outgoing_decodable(j: Json) -> bool {
    &&& header_decodable(j)
    &&& {
        ||| tag_is(body_entries(j), "broadcast_ok"@)
        ||| tag_is(body_entries(j), "read_ok"@) && (lookup(body_entries(j), "messages"@)
            matches Some(Json::Arr(a)) && all_u64s(a@))
        ||| tag_is(body_entries(j), "topology_ok"@)
    }
}

/// The record denotes exactly the given gossip reply.
pub open spec fn outgoing_matches(j: Json, m: Message<Outgoing>) -> bool {
    &&& header_matches(j, m.src@, m.dst@, m.body.id, m.body.in_reply_to)
    &&& match m.body.payload {
        Outgoing::BroadcastOk {  } => tag_is(body_entries(j), "broadcast_ok"@),
        Outgoing::ReadOk { messages } => tag_is(body_entries(j), "read_ok"@) && (lookup(
            body_entries(j),
            "messages"@,
        ) matches Some(Json::Arr(a)) && u64s_match(a@, messages@)),
        Outgoing::TopologyOk {  } => tag_is(body_entries(j), "topology_ok"@),
    }
}

/// Copies a JSON array of numbers into values.
pub fn decode_u64s(a: &Vec<Json>) -> (r: Option<Vec<u64>>)
    ensures
        match r {
            Some(v) => u64s_match(a@, v@),
            None => !all_u64s(a@),
        },
{
    let mut v: Vec<u64> = Vec::new();
    let n = a.len();
    let mut i: usize = 0;
    while i < n
        invariant
            n == a@.len(),
            i <= n,
            v@.len() == i,
            forall|t: int| 0 <= t < i ==> (#[trigger] a@[t]).spec_as_u64() == Some(v@[t]),
        decreases n - i,
    {
        match a[i].as_u64() {
            Some(u) => v.push(u),
            None => {
                return None;
            },
        }
        i = i + 1;
    }
    Some(v)
}

/// Builds a JSON array holding the given values.
pub fn encode_u64s(v: &Vec<u64>) -> (a: Vec<Json>)
    ensures
        u64s_match(a@, v@),
        all_u64s(a@),
{
    let mut a: Vec<Json> = Vec::new();
    let n = v.len();
    let mut i: usize = 0;
    while i < n
        invariant
            n == v@.len(),
            i <= n,
            a@.len() == i,
            forall|t: int| 0 <= t < i ==> (#[trigger] a@[t]).spec_as_u64() == Some(v@[t]),
        decreases n - i,
    {
        a.push(Json::UInt(v[i]));
        i = i + 1;
    }
    a
}

/// Copies a JSON object of string arrays into a topology mapping.
pub fn decode_topology_entries(o: &Vec<(String, Json)>) -> (r: Option<
    Vec<(String, Vec<String>)>,
>)
    ensures
        match r {
            Some(t) => topology_json(o@, t@),
            None => !topology_payload_decodable(o@),
        },
{
    let mut t: Vec<(String, Vec<String>)> = Vec::new();
    let n = o.len();
    let mut i: usize = 0;
    while i < n
        invariant
            n == o@.len(),
            i <= n,
            t@.len() == i,
            forall|w: int| 0 <= w < i ==> (#[trigger] o@[w]).0@ == t@[w].0@
                && (o@[w].1 matches Json::Arr(a) && strings_match(a@, t@[w].1@)),
        decreases n - i,
    {
        match &o[i].1 {
            Json::Arr(a) => match decode_strings(a) {
                Some(v) => t.push((o[i].0.clone(), v)),
                None => {
                    return None;
                },
            },
            _ => {
                return None;
            },
        }
        i = i + 1;
    }
    Some(t)
}

/// Builds a JSON object holding the given topology mapping.
pub fn encode_topology_entries(t: &Vec<(String, Vec<String>)>) -> (o: Vec<(String, Json)>)
    ensures
        topology_json(o@, t@),
        topology_payload_decodable(o@),
{
    let mut o: Vec<(String, Json)> = Vec::new();
    let n = t.len();
    let mut i: usize = 0;
    while i < n
        invariant
            n == t@.len(),
            i <= n,
            o@.len() == i,
            forall|w: int| 0 <= w < i ==> (#[trigger] o@[w]).0@ == t@[w].0@
                && (o@[w].1 matches Json::Arr(a) && strings_match(a@, t@[w].1@)
                    && all_strings(a@)),
        decreases n - i,
    {
        o.push((t[i].0.clone(), Json::Arr(encode_strings(&t[i].1))));
        i = i + 1;
    }
    o
}

/// The gossip tags differ pairwise from each other and from the reserved
/// body keys.
proof fn lemma_gossip_keys_distinct()
    ensures
        "broadcast"@.len() == 9,
        "read"@.len() == 4,
        "topology"@.len() == 8,
        "message"@.len() == 7,
        "messages"@.len() == 8,
        "broadcast_ok"@.len() == 12,
        "read_ok"@.len() == 7,
        "topology_ok"@.len() == 11,
        "type"@.len() == 4,
        "msg_id"@.len() == 6,
        "in_reply_to"@.len() == 11,
        "read"@ != "type"@,
        "messages"@ != "topology"@,
        "message"@ != "read_ok"@,
        "topology_ok"@ != "in_reply_to"@,
{
    reveal_strlit("broadcast");
    reveal_strlit("read");
    reveal_strlit("topology");
    reveal_strlit("message");
    reveal_strlit("messages");
    reveal_strlit("broadcast_ok");
    reveal_strlit("read_ok");
    reveal_strlit("topology_ok");
    reveal_strlit("type");
    reveal_strlit("msg_id");
    reveal_strlit("in_reply_to");
    assert("read"@ != "type"@) by {
        assert("read"@[0] == 'r' && "type"@[0] == 't');
    }
    assert("messages"@ != "topology"@) by {
        assert("messages"@[0] == 'm' && "topology"@[0] == 't');
    }
    assert("message"@ != "read_ok"@) by {
        assert("message"@[0] == 'm' && "read_ok"@[0] == 'r');
    }
    assert("topology_ok"@ != "in_reply_to"@) by {
        assert("topology_ok"@[0] == 't' && "in_reply_to"@[0] == 'i');
    }
}

/// Decodes a gossip request of any variant.
pub fn decode_incoming(j: &Json) -> (r: Result<Message<Incoming>, Error>)
    ensures
        r matches Ok(m) ==> incoming_matches(*j, m),
        r is Ok <==> incoming_decodable(*j),
        r matches Err(e) ==> e == Error::Malformed,
{
    proof {
        lemma_gossip_keys_distinct();
    }
    let (h, bs) = match decode_header(j) {
        Ok(x) => x,
        Err(e) => {
            return Err(e);
        },
    };
    let payload = if has_tag(bs, "broadcast") {
        let message = match obj_get(bs, &String::from_str("message")) {
            Some(v) => match v.as_u64() {
                Some(u) => u,
                None => {
                    return Err(Error::Malformed);
                },
            },
            None => {
                return Err(Error::Malformed);
            },
        };
        Incoming::Broadcast { message }
    } else if has_tag(bs, "read") {
        Incoming::Read {  }
    } else if has_tag(bs, "topology") {
        let topology = match obj_get(bs, &String::from_str("topology")) {
            Some(Json::Obj(o)) => match decode_topology_entries(o) {
                Some(t) => t,
                None => {
                    return Err(Error::Malformed);
                },
            },
            _ => {
                return Err(Error::Malformed);
            },
        };
        Incoming::Topology { topology }
    } else {
        return Err(Error::Malformed);
    };
    Ok(Message {
        src: h.src,
        dst: h.dst,
        body: Body { id: h.id, in_reply_to: h.in_reply_to, payload },
    })
}

/// Decodes a gossip reply of any variant.
pub fn decode_outgoing(j: &Json) -> (r: Result<Message<Outgoing>, Error>)
    ensures
        r matches Ok(m) ==> outgoing_matches(*j, m),
        r is Ok <==> outgoing_decodable(*j),
        r matches Err(e) ==> e == Error::Malformed,
{
    proof {
        lemma_gossip_keys_distinct();
    }
    let (h, bs) = match decode_header(j) {
        Ok(x) => x,
        Err(e) => {
            return Err(e);
        },
    };
    let payload = if has_tag(bs, "broadcast_ok") {
        Outgoing::BroadcastOk {  }
    } else if has_tag(bs, "read_ok") {
        let messages = match obj_get(bs, &String::from_str("messages")) {
            Some(Json::Arr(a)) => match decode_u64s(a) {
                Some(v) => v,
                None => {
                    return Err(Error::Malformed);
                },
            },
            _ => {
                return Err(Error::Malformed);
            },
        };
        Outgoing::ReadOk { messages }
    } else if has_tag(bs, "topology_ok") {
        Outgoing::TopologyOk {  }
    } else {
        return Err(Error::Malformed);
    };
    Ok(Message {
        src: h.src,
        dst: h.dst,
        body: Body { id: h.id, in_reply_to: h.in_reply_to, payload },
    })
}

/// Encodes a gossip request.
pub fn encode_incoming(m: &Message<Incoming>) -> (j: Json)
    ensures
        incoming_matches(j, *m),
        incoming_decodable(j),
{
    proof {
        lemma_gossip_keys_distinct();
    }
    match &m.body.payload {
        Incoming::Broadcast { message } => {
            let mut extra: Vec<(String, Json)> = Vec::new();
            extra.push((String::from_str("message"), Json::UInt(*message)));
            let ghost extra0 = extra@;
            let j = build_envelope(&m.src, &m.dst, m.body.id, m.body.in_reply_to, "broadcast", extra);
            proof {
                lemma_lookup_hit(extra0, "message"@);
            }
            j
        },
        Incoming::Read {  } => build_envelope(
            &m.src,
            &m.dst,
            m.body.id,
            m.body.in_reply_to,
            "read",
            Vec::new(),
        ),
        Incoming::Topology { topology } => {
            let mut extra: Vec<(String, Json)> = Vec::new();
            extra.push((String::from_str("topology"), Json::Obj(encode_topology_entries(topology))));
            let ghost extra0 = extra@;
            let j = build_envelope(&m.src, &m.dst, m.body.id, m.body.in_reply_to, "topology", extra);
            proof {
                lemma_lookup_hit(extra0, "topology"@);
            }
            j
        },
    }
}

/// The two topology mappings spell the same entries.
pub open spec fn topo_views_eq(
    a: Seq<(String, Vec<String>)>,
    b: Seq<(String, Vec<String>)>,
) -> bool {
    &&& a.len() == b.len()
    &&& forall|i: int| 0 <= i < a.len() ==> (#[trigger] a[i]).0@ == b[i].0@
        && crate::workloads::init::string_views_eq(a[i].1@, b[i].1@)
}

/// Round trip: decoding an encoded gossip request gives the original back,
/// whichever variant it is.
pub fn incoming_round_trip(m: Message<Incoming>) -> (r: Message<Incoming>)
    ensures
        r.src@ == m.src@,
        r.dst@ == m.dst@,
        r.body.id == m.body.id,
        r.body.in_reply_to == m.body.in_reply_to,
        match m.body.payload {
            Incoming::Broadcast { message } => r.body.payload matches Incoming::Broadcast {
                message: v,
            } && v == message,
            Incoming::Read {  } => r.body.payload matches Incoming::Read {  },
            Incoming::Topology { topology } => r.body.payload matches Incoming::Topology {
                topology: t,
            } && topo_views_eq(t@, topology@),
        },
{
    let j = encode_incoming(&m);
    match decode_incoming(&j) {
        Ok(r) => {
            proof {
                lemma_gossip_keys_distinct();
                if let Incoming::Topology { topology } = &m.body.payload {
                    if let Incoming::Topology { topology: t } = &r.body.payload {
                        if let Some(Json::Obj(o)) = lookup(body_entries(j), "topology"@) {
                            assert(topology_json(o@, topology@));
                            assert(topology_json(o@, t@));
                            assert forall|i: int| 0 <= i < t@.len() implies (#[trigger] t@[i]).0@
                                == topology@[i].0@ && crate::workloads::init::string_views_eq(
                                t@[i].1@,
                                topology@[i].1@,
                            ) by {
                                assert(o@[i].0@ == t@[i].0@);
                                assert(o@[i].0@ == topology@[i].0@);
                                if let Json::Arr(a) = o@[i].1 {
                                    assert(strings_match(a@, t@[i].1@));
                                    assert(strings_match(a@, topology@[i].1@));
                                    assert forall|w: int| 0 <= w < t@[i].1@.len()
                                        implies t@[i].1@[w]@ == topology@[i].1@[w]@ by {
                                        assert(a@[w] matches Json::Str(s) && s@ == t@[i].1@[w]@);
                                        assert(a@[w] matches Json::Str(s) && s@
                                            == topology@[i].1@[w]@);
                                    }
                                }
                            }
                        }
                    }
                }
            }
            r
        },
        Err(_) => {
            proof {
                assert(false);
            }
            m
        },
    }
}

/// Round trip: decoding an encoded gossip reply gives the original back,
/// whichever variant it is.
pub fn outgoing_round_trip(m: Message<Outgoing>) -> (r: Message<Outgoing>)
    ensures
        r.src@ == m.src@,
        r.dst@ == m.dst@,
        r.body.id == m.body.id,
        r.body.in_reply_to == m.body.in_reply_to,
        match m.body.payload {
            Outgoing::BroadcastOk {  } => r.body.payload matches Outgoing::BroadcastOk {  },
            Outgoing::ReadOk { messages } => r.body.payload matches Outgoing::ReadOk {
                messages: v,
            } && v@ == messages@,
            Outgoing::TopologyOk {  } => r.body.payload matches Outgoing::TopologyOk {  },
        },
{
    let j = encode_outgoing(&m);
    match decode_outgoing(&j) {
        Ok(r) => {
            proof {
                lemma_gossip_keys_distinct();
                if let Outgoing::ReadOk { messages } = &m.body.payload {
                    if let Outgoing::ReadOk { messages: v } = &r.body.payload {
                        if let Some(Json::Arr(a)) = lookup(body_entries(j), "messages"@) {
                            assert(u64s_match(a@, messages@));
                            assert(u64s_match(a@, v@));
                            assert(v@ =~= messages@) by {
                                assert forall|i: int| 0 <= i < v@.len() implies v@[i]
                                    == messages@[i] by {
                                    assert(a@[i].spec_as_u64() == Some(v@[i]));
                                    assert(a@[i].spec_as_u64() == Some(messages@[i]));
                                }
                            }
                        }
                    }
                }
            }
            r
        },
        Err(_) => {
            proof {
                assert(false);
            }
            m
        },
    }
}

/// Encodes a gossip reply.
pub fn encode_outgoing(m: &Message<Outgoing>) -> (j: Json)
    ensures
        outgoing_matches(j, *m),
        outgoing_decodable(j),
{
    proof {
        lemma_gossip_keys_distinct();
    }
    match &m.body.payload {
        Outgoing::BroadcastOk {  } => build_envelope(
            &m.src,
            &m.dst,
            m.body.id,
            m.body.in_reply_to,
            "broadcast_ok",
            Vec::new(),
        ),
        Outgoing::ReadOk { messages } => {
            let mut extra: Vec<(String, Json)> = Vec::new();
            extra.push((String::from_str("messages"), Json::Arr(encode_u64s(messages))));
            let ghost extra0 = extra@;
            let j = build_envelope(&m.src, &m.dst, m.body.id, m.body.in_reply_to, "read_ok", extra);
            proof {
                lemma_lookup_hit(extra0, "messages"@);
            }
            j
        },
        Outgoing::TopologyOk {  } => build_envelope(
            &m.src,
            &m.dst,
            m.body.id,
            m.body.in_reply_to,
            "topology_ok",
            Vec::new(),
        ),
    }
}

} // verus!
