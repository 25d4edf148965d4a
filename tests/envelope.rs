use rust_dist_sys::broadcast::BroadcastPayload;
use rust_dist_sys::codec::Payload;
use rust_dist_sys::echo::EchoPayload;
use rust_dist_sys::json::Json;
use rust_dist_sys::message::{Body, Message};
use rust_dist_sys::node::{Init, InitMessageType};
use rust_dist_sys::standalone::{self, MessageType};
use rust_dist_sys::unique_ids::UniquePayload;

fn msg<P>(p: P, id: Option<usize>, in_reply_to: Option<usize>) -> Message<P> {
    Message {
        src: "a".to_string(),
        dst: "b".to_string(),
        body: Body { id, in_reply_to, msg_type: p },
    }
}

fn round_trip<P: Payload + std::fmt::Debug>(m: &Message<P>) -> Message<P> {
    let back = Message::<P>::decode(&m.encode()).unwrap();
    assert_eq!(back.src, m.src);
    assert_eq!(back.dst, m.dst);
    assert_eq!(back.body.id, m.body.id);
    assert_eq!(back.body.in_reply_to, m.body.in_reply_to);
    back
}

#[test]
fn round_trip_every_variant() {
    let samples = vec![
        BroadcastPayload::Broadcast { message: 42 },
        BroadcastPayload::BroadcastOk,
        BroadcastPayload::Read,
        BroadcastPayload::ReadOk { messages: vec![1, 2, 2] },
        BroadcastPayload::Topology { topology: vec![("n1".to_string(), vec!["n2".to_string()])] },
        BroadcastPayload::TopologyOk,
    ];
    for p in samples {
        let want = format!("{:?}", p);
        let back = round_trip(&msg(p, Some(3), None));
        assert_eq!(format!("{:?}", back.body.msg_type), want);
    }
    let back = round_trip(&msg(EchoPayload::Echo { echo: "hi".to_string() }, None, Some(7)));
    assert_eq!(format!("{:?}", back.body.msg_type), "Echo { echo: \"hi\" }");
    let back = round_trip(&msg(EchoPayload::EchoOk { echo: "".to_string() }, Some(0), Some(0)));
    assert_eq!(format!("{:?}", back.body.msg_type), "EchoOk { echo: \"\" }");
    let back = round_trip(&msg(UniquePayload::Generate, Some(usize::MAX), None));
    assert!(matches!(back.body.msg_type, UniquePayload::Generate));
    let back = round_trip(&msg(UniquePayload::GenerateOk { guid: "n1-5".to_string() }, None, None));
    assert_eq!(format!("{:?}", back.body.msg_type), "GenerateOk { guid: \"n1-5\" }");
    let init = InitMessageType::Init(Init { node_id: "n1".to_string(), node_ids: vec!["n1".to_string(), "n2".to_string()] });
    let want = format!("{:?}", init);
    let back = round_trip(&msg(init, Some(1), None));
    assert_eq!(format!("{:?}", back.body.msg_type), want);
    let back = round_trip(&msg(MessageType::InitOk, Some(1), Some(2)));
    assert!(matches!(back.body.msg_type, MessageType::InitOk));
}

#[test]
fn encoded_message_uses_the_wire_names() {
    let j = msg(EchoPayload::EchoOk { echo: "x".to_string() }, Some(4), None).encode();
    let fields = match j {
        Json::Object(f) => f,
        other => panic!("not an object: {:?}", other),
    };
    let names: Vec<&str> = fields.iter().map(|(k, _)| k.as_str()).collect();
    assert_eq!(names, vec!["src", "dest", "body"]);
    match &fields[2].1 {
        Json::Object(body) => {
            let names: Vec<&str> = body.iter().map(|(k, _)| k.as_str()).collect();
            assert_eq!(names, vec!["type", "echo", "msg_id", "in_reply_to"]);
            assert!(matches!(&body[0].1, Json::Str(t) if t == "echo_ok"));
            assert!(matches!(body[2].1, Json::Number(4)));
            assert!(matches!(body[3].1, Json::Null));
        }
        other => panic!("body is not an object: {:?}", other),
    }
}

#[test]
fn into_reply_swaps_roles_and_takes_the_counter() {
    let m = msg(EchoPayload::Echo { echo: "e".to_string() }, Some(10), None);
    let mut counter: usize = 5;
    let r = m.into_reply(Some(&mut counter));
    assert_eq!(counter, 6);
    assert_eq!(r.src, "b");
    assert_eq!(r.dst, "a");
    assert_eq!(r.body.id, Some(5));
    assert_eq!(r.body.in_reply_to, Some(10));
    let r2 = r.into_reply(None);
    assert_eq!(r2.src, "a");
    assert_eq!(r2.dst, "b");
    assert_eq!(r2.body.id, None);
    assert_eq!(r2.body.in_reply_to, Some(5));
    let r3 = r2.into_reply(Some(&mut counter));
    assert_eq!(r3.body.id, Some(6));
    assert_eq!(counter, 7);
}

#[test]
fn standalone_echo_answers_init_and_echo() {
    let mut node = standalone::EchoNode { id: 0 };
    let init = msg(
        MessageType::Init { node_id: "n1".to_string(), node_ids: vec!["n1".to_string()] },
        Some(1),
        None,
    );
    let r = node.step(init).unwrap().unwrap();
    assert_eq!(r.body.id, Some(0));
    assert_eq!(r.body.in_reply_to, Some(1));
    assert_eq!(r.src, "b");
    assert!(matches!(r.body.msg_type, MessageType::InitOk));
    let r = node.step(msg(MessageType::Echo { echo: "hello".to_string() }, Some(2), None)).unwrap().unwrap();
    assert_eq!(r.body.id, Some(1));
    assert_eq!(r.body.in_reply_to, Some(2));
    assert!(matches!(r.body.msg_type, MessageType::EchoOk { ref echo } if echo == "hello"));
    assert!(node.step(msg(MessageType::EchoOk { echo: "x".to_string() }, Some(3), None)).unwrap().is_none());
    assert_eq!(node.id, 2);
    assert!(node.step(msg(MessageType::InitOk, Some(4), None)).is_err());
}
