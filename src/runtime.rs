//! The node runtime's decisions: the handshake and the handling of each line.
use vstd::prelude::*;
use crate::json::Json;
use crate::codec::{DecodeError, Payload, decode_spec};
use crate::message::{Body, Message, MessageV, message_views};
use crate::node::{Init, InitMessageType, InitMessageTypeV, Node, NodeError};

verus! {

/// Why a node stops.
#[derive(Debug)]
pub enum RuntimeError {
    /// The first message is not a handshake message.
    InitDecode(DecodeError),
    /// The first message is a handshake acknowledgement, not a request.
    NotInit,
    /// The handler could not be built from the handshake.
    Construction(NodeError),
    /// A later message is malformed.
    Decode(DecodeError),
    /// The handler failed on a message.
    Step(NodeError),
    /// The node stopped on an earlier error.
    Stopped,
}

/// Where a node stands: waiting for the handshake with the configuration for
/// its handler, running its handler, or stopped after an error.
pub enum Phase<S, N> {
    AwaitingInit(S),
    Running(N),
    Stopped,
}

/// The acknowledgement of a handshake request, sent before any other message.
pub open spec fn init_ok_of<V>(m: MessageV<V>) -> MessageV<InitMessageTypeV> {
    MessageV {
        src: m.dst,
        dst: m.src,
        id: Some(0),
        in_reply_to: m.id,
        payload: InitMessageTypeV::InitOk,
    }
}

/// Takes the handshake request apart: what it tells the node, and the
/// acknowledgement to send, with id 0, answering the request's id, roles swapped.
pub fn acknowledge_init(init_msg: Message<InitMessageType>) -> (r: Result<
    (Init, Message<InitMessageType>),
    RuntimeError,
>)
    ensures
        match r {
            Ok((init, reply)) => init_msg.body.msg_type@ == (InitMessageTypeV::Init {
                node_id: init.node_id@,
                node_ids: init.node_ids.deep_view(),
            }) && reply@ == init_ok_of(init_msg@),
            Err(e) => e is NotInit && init_msg.body.msg_type is InitOk,
        },
{
    match init_msg.body.msg_type {
        InitMessageType::Init(init) => {
            let reply = Message {
                src: init_msg.dst,
                dst: init_msg.src,
                body: Body {
                    id: Some(0),
                    in_reply_to: init_msg.body.id,
                    msg_type: InitMessageType::InitOk,
                },
            };
            Ok((init, reply))
        },
        InitMessageType::InitOk => Err(RuntimeError::NotInit),
    }
}

/// Performs the handshake on the first line: builds the handler and returns
/// it with the acknowledgement to write.
pub fn handshake<S, P: View, N: Node<S, P>>(init_state: S, first: &Json) -> (r: Result<
    (N, Json),
    RuntimeError,
>)
    ensures
        match decode_spec::<InitMessageType>(first@) {
            Err(e) => r matches Err(RuntimeError::InitDecode(e2)) && e2 == e,
            Ok(m) => match m.payload {
                InitMessageTypeV::InitOk => r matches Err(RuntimeError::NotInit),
                InitMessageTypeV::Init { .. } => match r {
                    Ok((_, reply)) => decode_spec::<InitMessageType>(reply@) == Ok::<
                        MessageV<InitMessageTypeV>,
                        DecodeError,
                    >(init_ok_of(m)),
                    Err(e) => e is Construction,
                },
            },
        },
{
    let init_msg = match Message::<InitMessageType>::decode(first) {
        Ok(m) => m,
        Err(e) => {
            return Err(RuntimeError::InitDecode(e));
        },
    };
    let (init, reply) = match acknowledge_init(init_msg) {
        Ok(p) => p,
        Err(e) => {
            return Err(e);
        },
    };
    let node = match N::from_init(init_state, init) {
        Ok(n) => n,
        Err(e) => {
            return Err(RuntimeError::Construction(e));
        },
    };
    Ok((node, reply.encode()))
}

/// The messages that a run of JSON values holds, each of which decodes.
pub open spec fn decoded<P: Payload>(out: Seq<Json>) -> Seq<MessageV<P::V>> {
    Seq::new(out.len(), |i: int| decode_spec::<P>(out[i]@)->Ok_0)
}

/// Writes a run of replies as JSON values, one for one and in order, each of
/// which reads back as its reply.
pub fn encode_replies<P: Payload>(replies: &Vec<Message<P>>) -> (out: Vec<Json>)
    ensures
        out@.len() == replies@.len(),
        forall|i: int|
            0 <= i < out@.len() ==> decode_spec::<P>(#[trigger] out@[i]@) == Ok::<
                MessageV<P::V>,
                DecodeError,
            >(replies@[i]@),
{
    let mut out: Vec<Json> = Vec::new();
    let mut i: usize = 0;
    while i < replies.len()
        invariant
            0 <= i <= replies.len(),
            out@.len() == i,
            forall|k: int|
                0 <= k < i ==> decode_spec::<P>(#[trigger] out@[k]@) == Ok::<
                    MessageV<P::V>,
                    DecodeError,
                >(replies@[k]@),
        decreases replies.len() - i,
    {
        out.push(replies[i].encode());
        i = i + 1;
    }
    out
}

/// Handles one line after the handshake: decodes it, hands the message to the
/// handler, and returns the handler's replies as JSON values, in order.
pub fn handle_line<S, P: Payload, N: Node<S, P>>(node: &mut N, line: &Json) -> (r: Result<
    Vec<Json>,
    RuntimeError,
>)
    ensures
        decode_spec::<P>(line@) matches Err(e) ==> (r matches Err(RuntimeError::Decode(e2))
            && e2 == e && *final(node) == *old(node)),
        decode_spec::<P>(line@) matches Ok(m) ==> match r {
            Ok(out) => (forall|i: int|
                0 <= i < out@.len() ==> (decode_spec::<P>(#[trigger] out@[i]@) is Ok))
                && N::step_post(*old(node), m, *final(node), Some(decoded::<P>(out@))),
            Err(e) => e is Step && N::step_post(*old(node), m, *final(node), None),
        },
{
    let input = match Message::<P>::decode(line) {
        Ok(m) => m,
        Err(e) => {
            return Err(RuntimeError::Decode(e));
        },
    };
    let replies = match node.step(input) {
        Ok(v) => v,
        Err(e) => {
            return Err(RuntimeError::Step(e));
        },
    };
    let out = encode_replies(&replies);
    assert(decoded::<P>(out@) =~= message_views(replies@));
    Ok(out)
}

impl<S, N> Phase<S, N> {
    /// Takes one input line and returns the next phase and the lines to write.
    /// The first line must be the handshake; every later one goes to the
    /// handler; any error stops the node for good.
    pub fn on_line<P: Payload>(self, line: &Json) -> (r: (Self, Result<Vec<Json>, RuntimeError>)) where
        N: Node<S, P>,
        ensures
            r.1 is Err <==> r.0 is Stopped,
            self is Stopped ==> r.1 matches Err(RuntimeError::Stopped),
            self is AwaitingInit ==> match decode_spec::<InitMessageType>(line@) {
                Err(e) => r.1 matches Err(RuntimeError::InitDecode(e2)) && e2 == e,
                Ok(m) => match m.payload {
                    InitMessageTypeV::InitOk => r.1 matches Err(RuntimeError::NotInit),
                    InitMessageTypeV::Init { .. } => match r.1 {
                        Ok(out) => out@.len() == 1 && decode_spec::<InitMessageType>(out@[0]@)
                            == Ok::<MessageV<InitMessageTypeV>, DecodeError>(init_ok_of(m)),
                        Err(e) => e is Construction,
                    },
                },
            },
            self is Running ==> (decode_spec::<P>(line@) matches Err(e) ==> r.1 matches Err(
                RuntimeError::Decode(e2)) && e2 == e),
            self matches Phase::Running(pre) ==> (decode_spec::<P>(line@) matches Ok(m) ==> match r.1 {
                Ok(out) => (forall|i: int|
                    0 <= i < out@.len() ==> (decode_spec::<P>(#[trigger] out@[i]@) is Ok))
                    && (r.0 matches Phase::Running(post) && N::step_post(
                    pre,
                    m,
                    post,
                    Some(decoded::<P>(out@)),
                )),
                Err(e) => e is Step,
            }),
    {
        match self {
            Phase::AwaitingInit(init_state) => match handshake::<S, P, N>(init_state, line) {
                Ok((node, reply)) => {
                    let mut out: Vec<Json> = Vec::new();
                    out.push(reply);
                    (Phase::Running(node), Ok(out))
                },
                Err(e) => (Phase::Stopped, Err(e)),
            },
            Phase::Running(node) => {
                let mut node = node;
                match handle_line::<S, P, N>(&mut node, line) {
                    Ok(out) => (Phase::Running(node), Ok(out)),
                    Err(e) => (Phase::Stopped, Err(e)),
                }
            },
            Phase::Stopped => (Phase::Stopped, Err(RuntimeError::Stopped)),
        }
    }
}

} // verus!
