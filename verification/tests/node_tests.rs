use gossip_node::dispatch::{Dispatcher, WorkloadKind};
use gossip_node::json::Json;
use gossip_node::protocol::{Body, Error, Message};
use gossip_node::workloads::echo::{decode_echo, encode_echo, encode_echo_ok, Echo, EchoNode, EchoOk};
use gossip_node::workloads::gossip::{
    decode_incoming, decode_outgoing, encode_incoming, encode_outgoing, GossipNode, Incoming,
    Outgoing,
};
use gossip_node::workloads::init::{decode_init, encode_init, encode_init_ok, Init, InitNode, InitOk};
use gossip_node::workloads::unique_id::{
    decode_generate_ok, encode_generate, encode_generate_ok, make_id, Generate, GenerateOk,
    UniqueIdNode,
};
use gossip_node::workloads::Context;

fn obj(entries: Vec<(&str, Json)>) -> Json {
    Json::Obj(entries.into_iter().map(|(k, v)| (k.to_string(), v)).collect())
}

fn s(v: &str) -> Json {
    Json::Str(v.to_string())
}

fn envelope(src: &str, dst: &str, body_fields: Vec<(&str, Json)>) -> Json {
    obj(vec![
        ("src", s(src)),
        ("dest", s(dst)),
        ("body", obj(body_fields)),
    ])
}

fn body_field<'a>(j: &'a Json, key: &str) -> Option<&'a Json> {
    let Json::Obj(top) = j else { return None };
    let body = top.iter().find(|(k, _)| k == "body")?;
    let Json::Obj(bs) = &body.1 else { return None };
    bs.iter().find(|(k, _)| k == key).map(|(_, v)| v)
}

fn tag_of(j: &Json) -> String {
    match body_field(j, "type") {
        Some(Json::Str(t)) => t.clone(),
        _ => String::new(),
    }
}

fn in_reply_to_of(j: &Json) -> Option<i64> {
    match body_field(j, "in_reply_to") {
        Some(Json::Int(i)) => Some(*i),
        _ => None,
    }
}

fn new_ctx(node: &str) -> Context {
    Context { next_id: 7, node_id: node.to_string(), neighbours: Vec::new() }
}

fn msg<P>(src: &str, dst: &str, id: Option<i64>, payload: P) -> Message<P> {
    Message {
        src: src.to_string(),
        dst: dst.to_string(),
        body: Body { id, in_reply_to: None, payload },
    }
}

#[test]
fn echo_round_trip_exact() {
    let m = msg("c1", "n1", Some(3), Echo { echo: "hello there".to_string() });
    let j = encode_echo(&m);
    assert_eq!(tag_of(&j), "echo");
    let d = decode_echo(&j).expect("round trip");
    assert_eq!(d.src, "c1");
    assert_eq!(d.dst, "n1");
    assert_eq!(d.body.id, Some(3));
    assert_eq!(d.body.in_reply_to, None);
    assert_eq!(d.body.payload.echo, "hello there");
}

#[test]
fn echo_ok_and_init_ok_round_trip() {
    let m = Message {
        src: "n1".to_string(),
        dst: "c1".to_string(),
        body: Body { id: Some(1), in_reply_to: Some(3), payload: EchoOk { echo: "x".to_string() } },
    };
    let j = encode_echo_ok(&m);
    assert_eq!(tag_of(&j), "echo_ok");
    assert_eq!(in_reply_to_of(&j), Some(3));

    let m2 = Message {
        src: "n1".to_string(),
        dst: "c1".to_string(),
        body: Body { id: Some(0), in_reply_to: Some(1), payload: InitOk {} },
    };
    let j2 = encode_init_ok(&m2);
    assert_eq!(tag_of(&j2), "init_ok");
}

#[test]
fn init_round_trip_keeps_node_list() {
    let m = msg(
        "c0",
        "n1",
        Some(1),
        Init { this: "n1".to_string(), others: vec!["n1".to_string(), "n2".to_string()] },
    );
    let j = encode_init(&m);
    assert_eq!(tag_of(&j), "init");
    let d = decode_init(&j).expect("round trip");
    assert_eq!(d.body.payload.this, "n1");
    assert_eq!(d.body.payload.others, vec!["n1".to_string(), "n2".to_string()]);
}

#[test]
fn generate_round_trips() {
    let m = msg("c1", "n1", Some(9), Generate {});
    let j = encode_generate(&m);
    assert_eq!(tag_of(&j), "generate");

    let ok = Message {
        src: "n1".to_string(),
        dst: "c1".to_string(),
        body: Body {
            id: Some(2),
            in_reply_to: Some(9),
            payload: GenerateOk { id: "0000000000001234----a-00000001".to_string() },
        },
    };
    let jo = encode_generate_ok(&ok);
    assert_eq!(tag_of(&jo), "generate_ok");
    let d = decode_generate_ok(&jo).expect("round trip");
    assert_eq!(d.body.payload.id, "0000000000001234----a-00000001");
}

#[test]
fn gossip_round_trips() {
    let b = msg("c1", "n1", Some(4), Incoming::Broadcast { message: 5 });
    let d = decode_incoming(&encode_incoming(&b)).expect("broadcast");
    assert!(matches!(d.body.payload, Incoming::Broadcast { message: 5 }));

    let r = msg("c1", "n1", Some(5), Incoming::Read {});
    let d = decode_incoming(&encode_incoming(&r)).expect("read");
    assert!(matches!(d.body.payload, Incoming::Read {}));

    let t = msg(
        "c1",
        "n1",
        Some(6),
        Incoming::Topology {
            topology: vec![
                ("n1".to_string(), vec!["n2".to_string()]),
                ("n2".to_string(), vec!["n1".to_string()]),
            ],
        },
    );
    let d = decode_incoming(&encode_incoming(&t)).expect("topology");
    match d.body.payload {
        Incoming::Topology { topology } => {
            assert_eq!(topology.len(), 2);
            assert_eq!(topology[0].0, "n1");
            assert_eq!(topology[0].1, vec!["n2".to_string()]);
        },
        _ => panic!("wrong variant"),
    }

    let ro = Message {
        src: "n1".to_string(),
        dst: "c1".to_string(),
        body: Body {
            id: Some(1),
            in_reply_to: Some(5),
            payload: Outgoing::ReadOk { messages: vec![5, 6, 7] },
        },
    };
    let d = decode_outgoing(&encode_outgoing(&ro)).expect("read_ok");
    match d.body.payload {
        Outgoing::ReadOk { messages } => assert_eq!(messages, vec![5, 6, 7]),
        _ => panic!("wrong variant"),
    }
}

#[test]
fn decode_rejects_malformed_records() {
    // not an object
    assert!(matches!(decode_echo(&Json::Null), Err(Error::Malformed)));
    assert!(matches!(decode_incoming(&Json::Bool(true)), Err(Error::Malformed)));
}

#[test]
fn decode_rejects_missing_fields() {
    // missing src
    let j = obj(vec![("dest", s("n1")), ("body", obj(vec![("type", s("echo")), ("echo", s("x"))]))]);
    assert!(decode_echo(&j).is_err());
    // wrong tag
    let j = envelope("c1", "n1", vec![("type", s("read")), ("echo", s("x"))]);
    assert!(decode_echo(&j).is_err());
    // msg_id of the wrong type
    let j = envelope("c1", "n1", vec![("type", s("echo")), ("msg_id", s("nope")), ("echo", s("x"))]);
    assert!(decode_echo(&j).is_err());
    // missing payload field
    let j = envelope("c1", "n1", vec![("type", s("echo"))]);
    assert!(decode_echo(&j).is_err());
}

#[test]
fn echo_reply_is_correlated() {
    let mut node = EchoNode;
    let mut ctx = new_ctx("n1");
    let m = Message {
        src: "c1".to_string(),
        dst: "n1".to_string(),
        body: Body { id: Some(42), in_reply_to: None, payload: Echo { echo: "ping".to_string() } },
    };
    let r = node.process(&mut ctx, m).expect("echo never fails");
    assert_eq!(r.src, "n1");
    assert_eq!(r.dst, "c1");
    assert_eq!(r.body.id, Some(7));
    assert_eq!(r.body.in_reply_to, Some(42));
    assert_eq!(r.body.payload.echo, "ping");
}

#[test]
fn broadcast_is_idempotent() {
    let mut node = GossipNode::new();
    let mut ctx = new_ctx("n1");
    let b1 = msg("c1", "n1", Some(1), Incoming::Broadcast { message: 5 });
    let b2 = msg("c1", "n1", Some(2), Incoming::Broadcast { message: 5 });
    node.process(&mut ctx, b1).expect("broadcast");
    let read1 = match node.process(&mut ctx, msg("c1", "n1", Some(3), Incoming::Read {})) {
        Ok(Message { body: Body { payload: Outgoing::ReadOk { messages }, .. }, .. }) => messages,
        _ => panic!("expected read_ok"),
    };
    node.process(&mut ctx, b2).expect("duplicate broadcast");
    let read2 = match node.process(&mut ctx, msg("c1", "n1", Some(4), Incoming::Read {})) {
        Ok(Message { body: Body { payload: Outgoing::ReadOk { messages }, .. }, .. }) => messages,
        _ => panic!("expected read_ok"),
    };
    assert_eq!(read1, vec![5]);
    assert_eq!(read2, vec![5]);
}

#[test]
fn topology_missing_self_is_rejected() {
    let mut node = GossipNode::new();
    let mut ctx = new_ctx("n1");
    let t = msg(
        "c1",
        "n1",
        Some(1),
        Incoming::Topology { topology: vec![("n2".to_string(), vec!["n3".to_string()])] },
    );
    let r = node.process(&mut ctx, t);
    assert!(matches!(r, Err(Error::TopologyMissingSelf)));
}

#[test]
fn topology_with_self_sets_neighbours() {
    let mut node = GossipNode::new();
    let mut ctx = new_ctx("n1");
    let t = msg(
        "c1",
        "n1",
        Some(1),
        Incoming::Topology {
            topology: vec![
                ("n1".to_string(), vec!["n2".to_string(), "n3".to_string()]),
                ("n2".to_string(), vec!["n1".to_string()]),
            ],
        },
    );
    let r = node.process(&mut ctx, t).expect("topology accepted");
    assert!(matches!(r.body.payload, Outgoing::TopologyOk {}));
    assert_eq!(node.neighbours, vec!["n2".to_string(), "n3".to_string()]);
}

#[test]
fn delivery_schedules_forwards_to_other_neighbours() {
    let mut node = GossipNode::new();
    let mut ctx = new_ctx("n1");
    let t = msg(
        "c1",
        "n1",
        Some(1),
        Incoming::Topology {
            topology: vec![("n1".to_string(), vec!["n2".to_string(), "n3".to_string()])],
        },
    );
    node.process(&mut ctx, t).expect("topology");
    // a peer broadcast from n2: forward only to n3
    let b = msg("n2", "n1", Some(2), Incoming::Broadcast { message: 9 });
    node.process(&mut ctx, b).expect("broadcast");
    let pending = node.pending_forwards().clone();
    assert_eq!(pending, vec![("n3".to_string(), 9)]);
    // n3 acknowledges: nothing stays pending
    node.acknowledge(&"n3".to_string(), 9);
    assert!(node.pending_forwards().is_empty());
}

#[test]
fn topology_change_schedules_known_values() {
    let mut node = GossipNode::new();
    let mut ctx = new_ctx("n1");
    // a value arrives while the node has no neighbours yet
    let b = msg("c1", "n1", Some(1), Incoming::Broadcast { message: 3 });
    node.process(&mut ctx, b).expect("broadcast");
    assert!(node.pending_forwards().is_empty());
    // the topology arrives afterwards: the stored value must be scheduled
    let t = msg(
        "c1",
        "n1",
        Some(2),
        Incoming::Topology { topology: vec![("n1".to_string(), vec!["n2".to_string()])] },
    );
    node.process(&mut ctx, t).expect("topology");
    assert_eq!(node.pending_forwards().clone(), vec![("n2".to_string(), 3)]);
}

#[test]
fn absent_correlation_numbers_ride_as_null() {
    let m = msg("c1", "n1", None, Echo { echo: "x".to_string() });
    let j = encode_echo(&m);
    assert_eq!(body_field(&j, "msg_id"), Some(&Json::Null));
    let d = decode_echo(&j).expect("round trip");
    assert_eq!(d.body.id, None);
}

#[test]
fn make_id_exact_value() {
    assert_eq!(
        make_id(0x1234, &"n1".to_string(), 0x5678),
        "0000000000001234----n1-00005678"
    );
    // a node identifier of width five needs no fill
    assert_eq!(
        make_id(0, &"abcde".to_string(), 1),
        "0000000000000000-abcde-00000001"
    );
}

#[test]
fn unique_ids_in_rapid_succession_are_distinct() {
    let mut node = UniqueIdNode::new(1000);
    let name = "n1".to_string();
    let mut seen = std::collections::HashSet::new();
    for _ in 0..1000 {
        // the clock does not advance: the counter must separate the ids
        let id = node.generate(1000, &name);
        assert!(seen.insert(id), "duplicate identifier");
    }
    // and a fresh millisecond separates them too
    let id = node.generate(2000, &name);
    assert!(seen.insert(id));
}

#[test]
fn unique_ids_on_two_nodes_are_distinct() {
    let mut a = UniqueIdNode::new(1000);
    let mut b = UniqueIdNode::new(1000);
    let ida = a.generate(1000, &"n1".to_string());
    let idb = b.generate(1000, &"n2".to_string());
    assert_ne!(ida, idb);
}

#[test]
fn generate_process_uses_the_clock() {
    let mut node = UniqueIdNode::new(0);
    let mut ctx = new_ctx("n1");
    let m = msg("c1", "n1", Some(8), Generate {});
    let r = node.process(&mut ctx, m).expect("clock after epoch");
    assert_eq!(r.body.in_reply_to, Some(8));
    let id = r.body.payload.id;
    // 16 hex digits, a separator, the padded node, a separator, 8 hex digits
    assert_eq!(id.len(), 31);
    assert_eq!(&id[16..17], "-");
    assert_eq!(&id[17..22], "---n1");
    assert_eq!(&id[22..23], "-");
    // the clock advanced past the initial timestamp, so the counter reset
    assert_eq!(&id[23..], "00000000");
    assert_ne!(&id[..16], "0000000000000000");
}

#[test]
fn dispatcher_scenario_init_broadcast_read() {
    let mut node = Dispatcher::new(WorkloadKind::Gossip(GossipNode::new()));
    let init = envelope("c0", "n1",
        vec![
            ("type", s("init")),
            ("msg_id", Json::Int(1)),
            ("node_id", s("n1")),
            ("node_ids", Json::Arr(vec![s("n1"), s("n2")])),
        ],
    );
    let r = node.step(&init).expect("init accepted");
    assert_eq!(tag_of(&r), "init_ok");
    assert_eq!(in_reply_to_of(&r), Some(1));

    let broadcast = envelope("c1", "n1",
        vec![("type", s("broadcast")), ("msg_id", Json::Int(2)), ("message", Json::UInt(5))],
    );
    let r = node.step(&broadcast).expect("broadcast accepted");
    assert_eq!(tag_of(&r), "broadcast_ok");
    assert_eq!(in_reply_to_of(&r), Some(2));

    let read = envelope("c1", "n1", vec![("type", s("read")), ("msg_id", Json::Int(3))]);
    let r = node.step(&read).expect("read accepted");
    assert_eq!(tag_of(&r), "read_ok");
    match body_field(&r, "messages") {
        Some(Json::Arr(a)) => {
            assert_eq!(a.len(), 1);
            assert!(matches!(a[0], Json::UInt(5)));
        },
        _ => panic!("expected a messages array"),
    }

    // the duplicate changes nothing
    let dup = envelope("c1", "n1",
        vec![("type", s("broadcast")), ("msg_id", Json::Int(4)), ("message", Json::UInt(5))],
    );
    node.step(&dup).expect("duplicate accepted");
    let read2 = envelope("c1", "n1", vec![("type", s("read")), ("msg_id", Json::Int(5))]);
    let r = node.step(&read2).expect("read accepted");
    match body_field(&r, "messages") {
        Some(Json::Arr(a)) => assert_eq!(a.len(), 1),
        _ => panic!("expected a messages array"),
    }
}

#[test]
fn dispatcher_rejects_traffic_before_init() {
    let mut node = Dispatcher::new(WorkloadKind::Echo(EchoNode));
    // a well-formed record of another type is a sequencing violation
    let echo = envelope("c1", "n1", vec![("type", s("echo")), ("echo", s("x"))]);
    assert!(matches!(node.step(&echo), Err(Error::UnexpectedMessage)));
    // a malformed record is a decode failure
    assert!(matches!(node.step(&Json::Null), Err(Error::Malformed)));
}

#[test]
fn dispatcher_replies_use_fresh_increasing_ids() {
    let mut node = Dispatcher::new(WorkloadKind::Echo(EchoNode));
    let init = envelope("c0", "n1",
        vec![
            ("type", s("init")),
            ("msg_id", Json::Int(1)),
            ("node_id", s("n1")),
            ("node_ids", Json::Arr(vec![s("n1")])),
        ],
    );
    let r = node.step(&init).expect("init");
    assert_eq!(body_field(&r, "msg_id"), Some(&Json::Int(0)));
    let echo = envelope("c1", "n1",
        vec![("type", s("echo")), ("msg_id", Json::Int(10)), ("echo", s("a"))],
    );
    let r1 = node.step(&echo).expect("echo");
    assert_eq!(body_field(&r1, "msg_id"), Some(&Json::Int(1)));
    assert_eq!(in_reply_to_of(&r1), Some(10));
    let r2 = node.step(&echo).expect("echo");
    assert_eq!(body_field(&r2, "msg_id"), Some(&Json::Int(2)));
}

#[test]
fn numbers_read_as_either_sign_within_range() {
    // a broadcast value may arrive as a signed number
    let j = envelope("c1", "n1",
        vec![("type", s("broadcast")), ("message", Json::Int(5))],
    );
    let d = decode_incoming(&j).expect("signed form accepted");
    assert!(matches!(d.body.payload, Incoming::Broadcast { message: 5 }));
    // but a negative one is refused
    let j = envelope("c1", "n1",
        vec![("type", s("broadcast")), ("message", Json::Int(-1))],
    );
    assert!(decode_incoming(&j).is_err());
    // a huge unsigned value cannot stand for a correlation number
    let j = envelope("c1", "n1",
        vec![("type", s("read")), ("msg_id", Json::UInt(u64::MAX))],
    );
    assert!(decode_incoming(&j).is_err());
}

#[test]
fn init_node_records_identity() {
    let mut node = InitNode::new();
    let mut ctx = new_ctx("");
    let m = msg(
        "c0",
        "n1",
        Some(1),
        Init { this: "n1".to_string(), others: vec!["n1".to_string(), "n2".to_string()] },
    );
    let r = node.process(&mut ctx, m).expect("init never fails");
    assert!(matches!(r.body.payload, InitOk {}));
    assert_eq!(node.this, "n1");
    assert_eq!(ctx.node_id, "n1");
    assert_eq!(r.body.in_reply_to, Some(1));
}
