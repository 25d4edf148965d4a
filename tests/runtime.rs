use rust_dist_sys::broadcast::{BroadcastNode, BroadcastPayload};
use rust_dist_sys::codec::DecodeError;
use rust_dist_sys::echo::{EchoNode, EchoPayload};
use rust_dist_sys::json::Json;
use rust_dist_sys::message::{Body, Message};
use rust_dist_sys::node::{InitMessageType, Node};
use rust_dist_sys::runtime::{handle_line, handshake, Phase, RuntimeError};
use rust_dist_sys::unique_ids::{UniqueNode, UniquePayload};

fn s(t: &str) -> Json {
    Json::Str(t.to_string())
}

fn obj(fields: Vec<(&str, Json)>) -> Json {
    Json::Object(fields.into_iter().map(|(k, v)| (k.to_string(), v)).collect())
}

fn envelope(body: Json) -> Json {
    obj(vec![("src", s("c1")), ("dest", s("n1")), ("body", body)])
}

fn init_line(msg_id: u64) -> Json {
    envelope(obj(vec![
        ("type", s("init")),
        ("msg_id", Json::Number(msg_id)),
        ("node_id", s("n1")),
        ("node_ids", Json::Array(vec![s("n1")])),
    ]))
}

fn start<N: Node<(), P>, P: rust_dist_sys::codec::Payload>() -> N {
    match handshake::<(), P, N>((), &init_line(1)) {
        Ok((node, _)) => node,
        Err(e) => panic!("handshake failed: {:?}", e),
    }
}

fn one_reply<P: rust_dist_sys::codec::Payload, N: Node<(), P>>(node: &mut N, line: Json) -> Message<P> {
    let out = handle_line::<(), P, N>(node, &line).unwrap();
    assert_eq!(out.len(), 1);
    Message::<P>::decode(&out[0]).unwrap()
}

#[test]
fn init_ok_answers_the_init_request() {
    let (_node, reply) = handshake::<(), EchoPayload, EchoNode>((), &init_line(1)).unwrap();
    let m = Message::<InitMessageType>::decode(&reply).unwrap();
    assert_eq!(m.src, "n1");
    assert_eq!(m.dst, "c1");
    assert_eq!(m.body.id, Some(0));
    assert_eq!(m.body.in_reply_to, Some(1));
    assert!(matches!(m.body.msg_type, InitMessageType::InitOk));
}

#[test]
fn init_ok_copies_a_large_msg_id() {
    let (_node, reply) = handshake::<(), EchoPayload, EchoNode>((), &init_line(987654)).unwrap();
    let m = Message::<InitMessageType>::decode(&reply).unwrap();
    assert_eq!(m.body.in_reply_to, Some(987654));
    assert_eq!(m.body.id, Some(0));
}

#[test]
fn echo_scenario() {
    let mut node: EchoNode = start();
    let line = envelope(obj(vec![
        ("type", s("echo")),
        ("msg_id", Json::Number(2)),
        ("echo", s("hello")),
    ]));
    let m = one_reply(&mut node, line);
    assert_eq!(m.src, "n1");
    assert_eq!(m.dst, "c1");
    assert_eq!(m.body.in_reply_to, Some(2));
    assert_eq!(m.body.id, Some(1));
    match m.body.msg_type {
        EchoPayload::EchoOk { echo } => assert_eq!(echo, "hello"),
        other => panic!("unexpected payload {:?}", other),
    }
}

#[test]
fn reply_ids_count_up_from_one() {
    let mut node: EchoNode = start();
    for k in 0..5u64 {
        let line = envelope(obj(vec![
            ("type", s("echo")),
            ("msg_id", Json::Number(10 + k)),
            ("echo", s("x")),
        ]));
        let m = one_reply(&mut node, line);
        assert_eq!(m.body.in_reply_to, Some(10 + k as usize));
        assert_eq!(m.body.id, Some(1 + k as usize));
    }
}

#[test]
fn respond_all_answers_each_request_in_order() {
    let mut node = EchoNode::new();
    let inputs: Vec<Message<EchoPayload>> = (0..3usize)
        .map(|k| Message {
            src: "c1".to_string(),
            dst: "n1".to_string(),
            body: Body {
                id: Some(20 + k),
                in_reply_to: None,
                msg_type: EchoPayload::Echo { echo: format!("m{}", k) },
            },
        })
        .collect();
    let out = node.respond_all(inputs);
    assert_eq!(out.len(), 3);
    for (k, m) in out.iter().enumerate() {
        let m = m.as_ref().unwrap();
        assert_eq!(m.body.id, Some(1 + k));
        assert_eq!(m.body.in_reply_to, Some(20 + k));
        assert_eq!(m.src, "n1");
        match &m.body.msg_type {
            EchoPayload::EchoOk { echo } => assert_eq!(echo, &format!("m{}", k)),
            other => panic!("unexpected payload {:?}", other),
        }
    }
    assert_eq!(node.id, 4);
}

#[test]
fn echo_ok_gets_no_reply() {
    let mut node: EchoNode = start();
    let line = envelope(obj(vec![
        ("type", s("echo_ok")),
        ("msg_id", Json::Number(2)),
        ("echo", s("x")),
    ]));
    let out = handle_line::<(), EchoPayload, EchoNode>(&mut node, &line).unwrap();
    assert!(out.is_empty());
}

#[test]
fn generated_ids_are_distinct() {
    let mut node: UniqueNode = start();
    let mut ids = Vec::new();
    for k in 0..2u64 {
        let line = envelope(obj(vec![("type", s("generate")), ("msg_id", Json::Number(5 + k))]));
        let m = one_reply(&mut node, line);
        match m.body.msg_type {
            UniquePayload::GenerateOk { guid } => ids.push(guid),
            other => panic!("unexpected payload {:?}", other),
        }
    }
    assert_eq!(ids, vec!["n1-2".to_string(), "n1-3".to_string()]);
    assert_ne!(ids[0], ids[1]);
}

#[test]
fn generated_id_has_no_leading_zeros() {
    let mut node = UniqueNode { node: "n7".to_string(), id: 99 };
    let input = Message {
        src: "c2".to_string(),
        dst: "n7".to_string(),
        body: Body { id: Some(3), in_reply_to: None, msg_type: UniquePayload::Generate },
    };
    let m = node.respond(input).unwrap();
    assert_eq!(m.body.id, Some(99));
    match m.body.msg_type {
        UniquePayload::GenerateOk { guid } => assert_eq!(guid, "n7-100"),
        other => panic!("unexpected payload {:?}", other),
    }
}

#[test]
fn broadcast_values_are_read_back_in_order() {
    let mut node: BroadcastNode = start();
    for (k, v) in [5u64, 7, 5].iter().enumerate() {
        let line = envelope(obj(vec![
            ("type", s("broadcast")),
            ("msg_id", Json::Number(k as u64 + 1)),
            ("message", Json::Number(*v)),
        ]));
        let m = one_reply(&mut node, line);
        assert!(matches!(m.body.msg_type, BroadcastPayload::BroadcastOk));
    }
    let line = envelope(obj(vec![("type", s("read")), ("msg_id", Json::Number(9))]));
    let m = one_reply(&mut node, line);
    assert_eq!(m.body.in_reply_to, Some(9));
    assert_eq!(m.body.id, Some(4));
    match m.body.msg_type {
        BroadcastPayload::ReadOk { messages } => assert_eq!(messages, vec![5, 7, 5]),
        other => panic!("unexpected payload {:?}", other),
    }
}

#[test]
fn topology_is_acknowledged() {
    let mut node: BroadcastNode = start();
    let line = envelope(obj(vec![
        ("type", s("topology")),
        ("msg_id", Json::Number(3)),
        ("topology", obj(vec![("n1", Json::Array(vec![s("n2")])), ("n2", Json::Array(vec![]))])),
    ]));
    let m = one_reply(&mut node, line);
    assert!(matches!(m.body.msg_type, BroadcastPayload::TopologyOk));
    assert!(node.messages.is_empty());
}

#[test]
fn missing_body_is_fatal() {
    let mut node: EchoNode = start();
    let line = obj(vec![("src", s("c1")), ("dest", s("n1"))]);
    let r = handle_line::<(), EchoPayload, EchoNode>(&mut node, &line);
    assert!(matches!(r, Err(RuntimeError::Decode(DecodeError::Body))));
}

#[test]
fn each_decode_error_has_its_input() {
    let cases: Vec<(Json, DecodeError)> = vec![
        (obj(vec![("dest", s("n1"))]), DecodeError::Src),
        (obj(vec![("src", s("c1")), ("dest", Json::Number(3))]), DecodeError::Dest),
        (obj(vec![("src", s("c1")), ("dest", s("n1")), ("body", s("x"))]), DecodeError::Body),
        (envelope(obj(vec![("type", s("echo")), ("msg_id", s("1")), ("echo", s("x"))])), DecodeError::MsgId),
        (
            envelope(obj(vec![("type", s("echo")), ("in_reply_to", Json::OtherNumber), ("echo", s("x"))])),
            DecodeError::InReplyTo,
        ),
        (envelope(obj(vec![("type", s("nope")), ("echo", s("x"))])), DecodeError::Payload),
        (envelope(obj(vec![("type", s("echo"))])), DecodeError::Payload),
    ];
    for (j, want) in cases {
        match Message::<EchoPayload>::decode(&j) {
            Err(e) => assert_eq!(e, want),
            Ok(m) => panic!("decoded {:?}", m),
        }
    }
}

#[test]
fn absent_and_null_ids_are_none() {
    let j = envelope(obj(vec![("type", s("echo")), ("in_reply_to", Json::Null), ("echo", s("x"))]));
    let m = Message::<EchoPayload>::decode(&j).unwrap();
    assert_eq!(m.body.id, None);
    assert_eq!(m.body.in_reply_to, None);
}

#[test]
fn first_message_must_be_init() {
    let ack = envelope(obj(vec![("type", s("init_ok")), ("msg_id", Json::Number(1))]));
    let r = handshake::<(), EchoPayload, EchoNode>((), &ack);
    assert!(matches!(r, Err(RuntimeError::NotInit)));
    let echo = envelope(obj(vec![("type", s("echo")), ("msg_id", Json::Number(1)), ("echo", s("x"))]));
    let r = handshake::<(), EchoPayload, EchoNode>((), &echo);
    assert!(matches!(r, Err(RuntimeError::InitDecode(DecodeError::Payload))));
}

#[test]
fn phase_takes_one_handshake_then_runs() {
    let phase: Phase<(), EchoNode> = Phase::AwaitingInit(());
    let (phase, out) = phase.on_line::<EchoPayload>(&init_line(1));
    let out = out.unwrap();
    assert_eq!(out.len(), 1);
    let ack = Message::<InitMessageType>::decode(&out[0]).unwrap();
    assert_eq!(ack.body.in_reply_to, Some(1));
    assert!(matches!(phase, Phase::Running(_)));
    // A second init is not an echo payload: the node stops.
    let (phase, out) = phase.on_line::<EchoPayload>(&init_line(2));
    assert!(matches!(out, Err(RuntimeError::Decode(DecodeError::Payload))));
    assert!(matches!(phase, Phase::Stopped));
    let echo = envelope(obj(vec![("type", s("echo")), ("msg_id", Json::Number(3)), ("echo", s("x"))]));
    let (phase, out) = phase.on_line::<EchoPayload>(&echo);
    assert!(matches!(out, Err(RuntimeError::Stopped)));
    assert!(matches!(phase, Phase::Stopped));
}

#[test]
fn respond_all_skips_acknowledgements_but_uses_their_ids() {
    let mut node = EchoNode::new();
    let mk = |id: usize, p: EchoPayload| Message {
        src: "c1".to_string(),
        dst: "n1".to_string(),
        body: Body { id: Some(id), in_reply_to: None, msg_type: p },
    };
    let inputs = vec![
        mk(1, EchoPayload::Echo { echo: "a".to_string() }),
        mk(2, EchoPayload::EchoOk { echo: "b".to_string() }),
        mk(3, EchoPayload::Echo { echo: "c".to_string() }),
    ];
    let out = node.respond_all(inputs);
    assert_eq!(out.len(), 3);
    assert_eq!(out[0].as_ref().unwrap().body.id, Some(1));
    assert!(out[1].is_none());
    assert_eq!(out[2].as_ref().unwrap().body.id, Some(3));
    assert_eq!(out[2].as_ref().unwrap().body.in_reply_to, Some(3));
    assert_eq!(node.id, 4);
}

#[test]
fn from_init_sets_up_each_handler() {
    let init = || rust_dist_sys::node::Init { node_id: "n3".to_string(), node_ids: vec!["n3".to_string()] };
    let e = EchoNode::from_init((), init()).unwrap();
    assert_eq!(e.id, 1);
    let u = UniqueNode::from_init((), init()).unwrap();
    assert_eq!(u.id, 1);
    assert_eq!(u.node, "n3");
    let b = BroadcastNode::from_init((), init()).unwrap();
    assert_eq!(b.id, 1);
    assert_eq!(b.node, "n3");
    assert!(b.messages.is_empty());
}

#[test]
fn step_fails_when_ids_are_spent() {
    let mut node = EchoNode { id: usize::MAX };
    let input = Message {
        src: "c1".to_string(),
        dst: "n1".to_string(),
        body: Body { id: Some(1), in_reply_to: None, msg_type: EchoPayload::Echo { echo: "a".to_string() } },
    };
    assert!(node.step(input).is_err());
    assert_eq!(node.id, usize::MAX);
}
