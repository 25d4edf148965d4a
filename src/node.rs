//! The handshake payload and the capability every handler provides.
use vstd::prelude::*;
use crate::json::{Json, JsonV, view_fields, lookup, str_of, lemma_view_fields, lemma_lookup_prefix, lemma_lookup_at};
use crate::fields::{has_tag, is_tag, tag, texts_of, decode_text, decode_texts, encode_texts};
use crate::codec::Payload;
use crate::message::{Message, MessageV, message_views};

verus! {

/// What the handshake tells a node: its own id and every node's id.
#[derive(Debug)]
pub struct Init {
    pub node_id: String,
    pub node_ids: Vec<String>,
}

/// The payloads of the handshake.
#[derive(Debug)]
pub enum InitMessageType {
    Init(Init),
    InitOk,
}

/// The model of a handshake payload.
pub enum InitMessageTypeV {
    Init { node_id: Seq<char>, node_ids: Seq<Seq<char>> },
    InitOk,
}

impl View for InitMessageType {
    type V = InitMessageTypeV;

    open spec fn view(&self) -> InitMessageTypeV {
        match self {
            InitMessageType::Init(i) => InitMessageTypeV::Init {
                node_id: i.node_id@,
                node_ids: i.node_ids.deep_view(),
            },
            InitMessageType::InitOk => InitMessageTypeV::InitOk,
        }
    }
}

impl Payload for InitMessageType {
    open spec fn spec_decode(fs: Seq<(Seq<char>, JsonV)>) -> Option<InitMessageTypeV> {
        if has_tag(fs, "init"@) {
            match (str_of(lookup(fs, "node_id"@)), texts_of(lookup(fs, "node_ids"@))) {
                (Some(node_id), Some(node_ids)) => Some(InitMessageTypeV::Init { node_id, node_ids }),
                _ => None,
            }
        } else if has_tag(fs, "init_ok"@) {
            Some(InitMessageTypeV::InitOk)
        } else {
            None
        }
    }

    fn decode(fields: &Vec<(String, Json)>) -> (r: Option<Self>) {
        if is_tag(fields, "init") {
            let node_id = decode_text(crate::json::find(fields, &"node_id".to_owned()));
            let node_ids = decode_texts(crate::json::find(fields, &"node_ids".to_owned()));
            match (node_id, node_ids) {
                (Some(node_id), Some(node_ids)) => Some(InitMessageType::Init(Init { node_id, node_ids })),
                _ => None,
            }
        } else if is_tag(fields, "init_ok") {
            Some(InitMessageType::InitOk)
        } else {
            None
        }
    }

    fn encode(&self) -> (r: Vec<(String, Json)>) {
        let mut r: Vec<(String, Json)> = Vec::new();
        match self {
            InitMessageType::Init(i) => {
                r.push(tag("init"));
                r.push(("node_id".to_owned(), Json::Str(i.node_id.clone())));
                r.push(("node_ids".to_owned(), encode_texts(&i.node_ids)));
            },
            InitMessageType::InitOk => {
                r.push(tag("init_ok"));
            },
        }
        proof {
            reveal_strlit("type");
            reveal_strlit("node_id");
            reveal_strlit("node_ids");
            reveal_strlit("msg_id");
            reveal_strlit("in_reply_to");
            reveal_strlit("init");
            reveal_strlit("init_ok");
            lemma_view_fields(r@);
            let m = view_fields(r@);
            assert("init"@ != "init_ok"@) by { assert("init"@.len() != "init_ok"@.len()); }
            assert("type"@[0] != "node_id"@[0] && "type"@[0] != "node_ids"@[0]);
            assert("node_id"@ != "node_ids"@) by { assert("node_id"@.len() != "node_ids"@.len()); }
            assert(lookup(m, "type"@) == Some(m[0].1));
            if r@.len() == 3 {
                lemma_lookup_at(m, "node_id"@, 1);
                lemma_lookup_at(m, "node_ids"@, 2);
            }
            assert forall|rest: Seq<(Seq<char>, JsonV)>|
                Self::spec_decode(#[trigger] (m + rest)) == Some(self@) by {
                lemma_lookup_prefix(m, rest, "type"@);
                if r@.len() == 3 {
                    lemma_lookup_prefix(m, rest, "node_id"@);
                    lemma_lookup_prefix(m, rest, "node_ids"@);
                }
            }
            assert forall|i: int| 0 <= i < r@.len() implies (#[trigger] r@[i]).0@ != "msg_id"@
                && r@[i].0@ != "in_reply_to"@ by {
                assert(m[i].0 == r@[i].0@);
                assert("msg_id"@[0] != "type"@[0] && "msg_id"@[0] != "node_id"@[0]);
                assert("in_reply_to"@[0] != "type"@[0] && "in_reply_to"@[0] != "node_id"@[0]);
            }
        }
        r
    }
}

/// Why a handler could not be built or could not handle a message.
#[derive(Debug)]
pub struct NodeError {
    pub reason: String,
}

/// A handler: built once from a configuration value and the handshake, then
/// handed each message in turn; it answers with the replies to send.
pub trait Node<S, P: View>: Sized {
    /// What one step does: from state `pre`, given `input`, the node reaches
    /// `post` and answers with `replies`, in order (`None` when the step fails).
    spec fn step_post(
        pre: Self,
        input: MessageV<P::V>,
        post: Self,
        replies: Option<Seq<MessageV<P::V>>>,
    ) -> bool;

    fn from_init(state: S, init: Init) -> Result<Self, NodeError>;

    fn step(&mut self, input: Message<P>) -> (r: Result<Vec<Message<P>>, NodeError>)
        ensures
            Self::step_post(
                *old(self),
                input@,
                *final(self),
                match r {
                    Ok(v) => Some(message_views(v@)),
                    Err(_) => None,
                },
            ),
    ;
}

} // verus!
