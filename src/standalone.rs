//! An echo node that needs no runtime: it answers the handshake itself,
//! through the same counter as its echo replies, starting at 0.
use vstd::prelude::*;
use crate::json::{Json, JsonV, view_fields, lookup, str_of, find, lemma_view_fields, lemma_lookup_distinct};
use crate::fields::{has_tag, is_tag, tag, texts_of, decode_text, decode_texts, encode_texts};
use crate::codec::Payload;
use crate::message::{Body, Message, MessageV};
use crate::node::NodeError;

verus! {

#[derive(Debug)]
pub enum MessageType {
    Echo { echo: String },
    EchoOk { echo: String },
    Init { node_id: String, node_ids: Vec<String> },
    InitOk,
}

pub enum MessageTypeV {
    Echo { echo: Seq<char> },
    EchoOk { echo: Seq<char> },
    Init { node_id: Seq<char>, node_ids: Seq<Seq<char>> },
    InitOk,
}

impl View for MessageType {
    type V = MessageTypeV;

    open spec fn view(&self) -> MessageTypeV {
        match self {
            MessageType::Echo { echo } => MessageTypeV::Echo { echo: echo@ },
            MessageType::EchoOk { echo } => MessageTypeV::EchoOk { echo: echo@ },
            MessageType::Init { node_id, node_ids } => MessageTypeV::Init {
                node_id: node_id@,
                node_ids: node_ids.deep_view(),
            },
            MessageType::InitOk => MessageTypeV::InitOk,
        }
    }
}

impl Payload for MessageType {
    open spec fn spec_decode(fs: Seq<(Seq<char>, JsonV)>) -> Option<MessageTypeV> {
        if has_tag(fs, "echo"@) {
            match str_of(lookup(fs, "echo"@)) {
                Some(echo) => Some(MessageTypeV::Echo { echo }),
                None => None,
            }
        } else if has_tag(fs, "echo_ok"@) {
            match str_of(lookup(fs, "echo"@)) {
                Some(echo) => Some(MessageTypeV::EchoOk { echo }),
                None => None,
            }
        } else if has_tag(fs, "init"@) {
            match (str_of(lookup(fs, "node_id"@)), texts_of(lookup(fs, "node_ids"@))) {
                (Some(node_id), Some(node_ids)) => Some(MessageTypeV::Init { node_id, node_ids }),
                _ => None,
            }
        } else if has_tag(fs, "init_ok"@) {
            Some(MessageTypeV::InitOk)
        } else {
            None
        }
    }

    fn decode(fields: &Vec<(String, Json)>) -> (r: Option<Self>) {
        if is_tag(fields, "echo") {
            match decode_text(find(fields, &"echo".to_owned())) {
                Some(echo) => Some(MessageType::Echo { echo }),
                None => None,
            }
        } else if is_tag(fields, "echo_ok") {
            match decode_text(find(fields, &"echo".to_owned())) {
                Some(echo) => Some(MessageType::EchoOk { echo }),
                None => None,
            }
        } else if is_tag(fields, "init") {
            let node_id = decode_text(find(fields, &"node_id".to_owned()));
            let node_ids = decode_texts(find(fields, &"node_ids".to_owned()));
            match (node_id, node_ids) {
                (Some(node_id), Some(node_ids)) => Some(MessageType::Init { node_id, node_ids }),
                _ => None,
            }
        } else if is_tag(fields, "init_ok") {
            Some(MessageType::InitOk)
        } else {
            None
        }
    }

    fn encode(&self) -> (r: Vec<(String, Json)>) {
        let mut r: Vec<(String, Json)> = Vec::new();
        match self {
            MessageType::Echo { echo } => {
                r.push(tag("echo"));
                r.push(("echo".to_owned(), Json::Str(echo.clone())));
            },
            MessageType::EchoOk { echo } => {
                r.push(tag("echo_ok"));
                r.push(("echo".to_owned(), Json::Str(echo.clone())));
            },
            MessageType::Init { node_id, node_ids } => {
                r.push(tag("init"));
                r.push(("node_id".to_owned(), Json::Str(node_id.clone())));
                r.push(("node_ids".to_owned(), encode_texts(node_ids)));
            },
            MessageType::InitOk => {
                r.push(tag("init_ok"));
            },
        }
        proof {
            reveal_strlit("type");
            reveal_strlit("echo");
            reveal_strlit("echo_ok");
            reveal_strlit("init");
            reveal_strlit("init_ok");
            reveal_strlit("node_id");
            reveal_strlit("node_ids");
            reveal_strlit("msg_id");
            reveal_strlit("in_reply_to");
            lemma_view_fields(r@);
            let m = view_fields(r@);
            assert("type"@[0] != "echo"@[0] && "type"@[0] != "node_id"@[0] && "type"@[0]
                != "node_ids"@[0] && "node_id"@.len() != "node_ids"@.len());
            assert("echo"@.len() != "echo_ok"@.len() && "echo"@[0] != "init"@[0] && "echo"@.len()
                != "init_ok"@.len() && "echo_ok"@[0] != "init"@[0] && "echo_ok"@[0] != "init_ok"@[0]
                && "init"@.len() != "init_ok"@.len());
            assert forall|rest: Seq<(Seq<char>, JsonV)>|
                Self::spec_decode(#[trigger] (m + rest)) == Some(self@) by {
                lemma_lookup_distinct(m, rest);
                assert(lookup(m + rest, m[0].0) == Some(m[0].1));
                if m.len() >= 2 {
                    assert(lookup(m + rest, m[1].0) == Some(m[1].1));
                }
                if m.len() >= 3 {
                    assert(lookup(m + rest, m[2].0) == Some(m[2].1));
                }
            }
            assert forall|i: int| 0 <= i < r@.len() implies (#[trigger] r@[i]).0@ != "msg_id"@
                && r@[i].0@ != "in_reply_to"@ by {
                assert(m[i].0 == r@[i].0@);
                assert("msg_id"@[0] != "type"@[0] && "msg_id"@[0] != "echo"@[0] && "msg_id"@[0]
                    != "node_id"@[0] && "msg_id"@[0] != "node_ids"@[0]);
                assert("in_reply_to"@[0] != "type"@[0] && "in_reply_to"@[0] != "echo"@[0]
                    && "in_reply_to"@[0] != "node_id"@[0] && "in_reply_to"@[0] != "node_ids"@[0]);
            }
        }
        r
    }
}

/// The stand-alone echo node's state: the id its next reply takes.
#[derive(Debug)]
pub struct EchoNode {
    pub id: usize,
}

/// The answer a stand-alone echo node owes a payload, if any.
pub open spec fn answer_of(p: MessageTypeV) -> Option<MessageTypeV> {
    match p {
        MessageTypeV::Init { .. } => Some(MessageTypeV::InitOk),
        MessageTypeV::Echo { echo } => Some(MessageTypeV::EchoOk { echo }),
        _ => None,
    }
}

impl EchoNode {
    /// Answers a handshake request with an acknowledgement and an echo request
    /// with the same text, each taking the next id; an echo acknowledgement
    /// gets no answer and a handshake acknowledgement is an error.
    pub fn step(&mut self, input: Message<MessageType>) -> (r: Result<
        Option<Message<MessageType>>,
        NodeError,
    >)
        requires
            old(self).id < usize::MAX,
        ensures
            input.body.msg_type is InitOk <==> r is Err,
            match answer_of(input.body.msg_type@) {
                Some(payload) => final(self).id == old(self).id + 1 && (r matches Ok(Some(m))
                    && m@ == (MessageV {
                    src: input.dst@,
                    dst: input.src@,
                    id: Some(old(self).id),
                    in_reply_to: input.body.id,
                    payload,
                })),
                None => final(self).id == old(self).id && (r is Err || r matches Ok(None)),
            },
    {
        match input.body.msg_type {
            MessageType::Init { .. } => {
                let reply = Message {
                    src: input.dst,
                    dst: input.src,
                    body: Body {
                        id: Some(self.id),
                        in_reply_to: input.body.id,
                        msg_type: MessageType::InitOk,
                    },
                };
                self.id = self.id + 1;
                Ok(Some(reply))
            },
            MessageType::Echo { echo } => {
                let reply = Message {
                    src: input.dst,
                    dst: input.src,
                    body: Body {
                        id: Some(self.id),
                        in_reply_to: input.body.id,
                        msg_type: MessageType::EchoOk { echo },
                    },
                };
                self.id = self.id + 1;
                Ok(Some(reply))
            },
            MessageType::InitOk => Err(NodeError { reason: "received init_ok message".to_owned() }),
            MessageType::EchoOk { .. } => Ok(None),
        }
    }
}

} // verus!
