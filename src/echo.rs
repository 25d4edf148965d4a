//! A handler that answers each echo request with the same text.
use vstd::prelude::*;
use crate::json::{Json, JsonV, view_fields, lookup, str_of, find, lemma_view_fields, lemma_lookup_distinct};
use crate::fields::{has_tag, is_tag, tag, decode_text};
use crate::codec::Payload;
use crate::message::{Message, MessageV, message_views, replies_of};
use crate::node::{Init, Node, NodeError};

verus! {

#[derive(Debug)]
pub enum EchoPayload {
    Echo { echo: String },
    EchoOk { echo: String },
}

pub enum EchoPayloadV {
    Echo { echo: Seq<char> },
    EchoOk { echo: Seq<char> },
}

impl View for EchoPayload {
    type V = EchoPayloadV;

    open spec fn view(&self) -> EchoPayloadV {
        match self {
            EchoPayload::Echo { echo } => EchoPayloadV::Echo { echo: echo@ },
            EchoPayload::EchoOk { echo } => EchoPayloadV::EchoOk { echo: echo@ },
        }
    }
}

impl Payload for EchoPayload {
    open spec fn spec_decode(fs: Seq<(Seq<char>, JsonV)>) -> Option<EchoPayloadV> {
        match str_of(lookup(fs, "echo"@)) {
            Some(echo) => if has_tag(fs, "echo"@) {
                Some(EchoPayloadV::Echo { echo })
            } else if has_tag(fs, "echo_ok"@) {
                Some(EchoPayloadV::EchoOk { echo })
            } else {
                None
            },
            None => None,
        }
    }

    fn decode(fields: &Vec<(String, Json)>) -> (r: Option<Self>) {
        let echo = match decode_text(find(fields, &"echo".to_owned())) {
            Some(e) => e,
            None => {
                return None;
            },
        };
        if is_tag(fields, "echo") {
            Some(EchoPayload::Echo { echo })
        } else if is_tag(fields, "echo_ok") {
            Some(EchoPayload::EchoOk { echo })
        } else {
            None
        }
    }

    fn encode(&self) -> (r: Vec<(String, Json)>) {
        let mut r: Vec<(String, Json)> = Vec::new();
        match self {
            EchoPayload::Echo { echo } => {
                r.push(tag("echo"));
                r.push(("echo".to_owned(), Json::Str(echo.clone())));
            },
            EchoPayload::EchoOk { echo } => {
                r.push(tag("echo_ok"));
                r.push(("echo".to_owned(), Json::Str(echo.clone())));
            },
        }
        proof {
            reveal_strlit("type");
            reveal_strlit("echo");
            reveal_strlit("echo_ok");
            reveal_strlit("msg_id");
            reveal_strlit("in_reply_to");
            lemma_view_fields(r@);
            let m = view_fields(r@);
            assert("type"@[0] != "echo"@[0] && "echo"@.len() != "echo_ok"@.len());
            assert forall|rest: Seq<(Seq<char>, JsonV)>|
                Self::spec_decode(#[trigger] (m + rest)) == Some(self@) by {
                lemma_lookup_distinct(m, rest);
                assert(lookup(m + rest, m[0].0) == Some(m[0].1));
                assert(lookup(m + rest, m[1].0) == Some(m[1].1));
            }
            assert forall|i: int| 0 <= i < r@.len() implies (#[trigger] r@[i]).0@ != "msg_id"@
                && r@[i].0@ != "in_reply_to"@ by {
                assert(m[i].0 == r@[i].0@);
                assert("msg_id"@[0] != "type"@[0] && "msg_id"@[0] != "echo"@[0]);
                assert("in_reply_to"@[0] != "type"@[0] && "in_reply_to"@[0] != "echo"@[0]);
            }
        }
        r
    }
}

/// The echo handler's state: the id its next reply takes.
#[derive(Debug)]
pub struct EchoNode {
    pub id: usize,
}

/// The reply an echo node with counter `id` owes `input`: an echo request is
/// answered with the same text; an acknowledgement gets no answer.
pub open spec fn echo_reply(input: MessageV<EchoPayloadV>, id: usize) -> Option<
    MessageV<EchoPayloadV>,
> {
    match input.payload {
        EchoPayloadV::Echo { echo } => Some(
            MessageV {
                src: input.dst,
                dst: input.src,
                id: Some(id),
                in_reply_to: input.id,
                payload: EchoPayloadV::EchoOk { echo },
            },
        ),
        EchoPayloadV::EchoOk { .. } => None,
    }
}

impl EchoNode {
    /// A node fresh from the handshake: its first reply after the
    /// acknowledgement takes id 1.
    pub fn new() -> (r: Self)
        ensures
            r.id == 1,
    {
        EchoNode { id: 1 }
    }

    /// Answers a run of messages in order, one entry per message: the reply
    /// to an echo request, nothing for an acknowledgement. Every message uses
    /// up one id, so the ids count up one by one from the counter.
    pub fn respond_all(&mut self, inputs: Vec<Message<EchoPayload>>) -> (r: Vec<
        Option<Message<EchoPayload>>,
    >)
        requires
            old(self).id + inputs@.len() < usize::MAX,
        ensures
            final(self).id == old(self).id + inputs@.len(),
            r@.len() == inputs@.len(),
            forall|i: int|
                0 <= i < r@.len() ==> match #[trigger] r@[i] {
                    Some(m) => echo_reply(inputs@[i]@, (old(self).id + i) as usize) == Some(m@),
                    None => echo_reply(inputs@[i]@, (old(self).id + i) as usize) is None,
                },
    {
        let ghost all = inputs@;
        let ghost start = self.id;
        let mut rest = inputs;
        let mut out: Vec<Option<Message<EchoPayload>>> = Vec::new();
        while rest.len() > 0
            invariant
                out@.len() + rest@.len() == all.len(),
                rest@ == all.subrange(out@.len() as int, all.len() as int),
                self.id == start + out@.len(),
                start + all.len() < usize::MAX,
                forall|i: int|
                    0 <= i < out@.len() ==> match #[trigger] out@[i] {
                        Some(m) => echo_reply(all[i]@, (start + i) as usize) == Some(m@),
                        None => echo_reply(all[i]@, (start + i) as usize) is None,
                    },
            decreases rest@.len(),
        {
            let input = rest.remove(0);
            assert(input == all[out@.len() as int]);
            let reply = self.respond(input);
            out.push(reply);
        }
        out
    }

    /// Answers an echo request with the same text; an acknowledgement gets
    /// no answer. Every message uses up one id.
    pub fn respond(&mut self, input: Message<EchoPayload>) -> (r: Option<Message<EchoPayload>>)
        requires
            old(self).id < usize::MAX,
        ensures
            final(self).id == old(self).id + 1,
            match r {
                Some(m) => echo_reply(input@, old(self).id) == Some(m@),
                None => echo_reply(input@, old(self).id) is None,
            },
    {
        let mut reply = input.into_reply(Some(&mut self.id));
        match reply.body.msg_type {
            EchoPayload::Echo { echo } => {
                reply.body.msg_type = EchoPayload::EchoOk { echo };
                Some(reply)
            },
            EchoPayload::EchoOk { .. } => None,
        }
    }
}

impl Node<(), EchoPayload> for EchoNode {
    /// With its counter spent the node fails and stays as it was; otherwise
    /// it uses up one id and sends the reply `echo_reply` gives, if any.
    open spec fn step_post(
        pre: EchoNode,
        input: MessageV<EchoPayloadV>,
        post: EchoNode,
        replies: Option<Seq<MessageV<EchoPayloadV>>>,
    ) -> bool {
        if pre.id == usize::MAX {
            post == pre && replies is None
        } else {
            post.id == pre.id + 1 && replies == Some(replies_of(echo_reply(input, pre.id)))
        }
    }

    fn from_init(_state: (), _init: Init) -> (r: Result<Self, NodeError>)
        ensures
            r matches Ok(n) && n.id == 1,
    {
        Ok(EchoNode::new())
    }

    fn step(&mut self, input: Message<EchoPayload>) -> (r: Result<Vec<Message<EchoPayload>>, NodeError>) {
        if self.id == usize::MAX {
            return Err(NodeError { reason: "message ids exhausted".to_owned() });
        }
        let mut out: Vec<Message<EchoPayload>> = Vec::new();
        match self.respond(input) {
            Some(m) => out.push(m),
            None => {},
        }
        assert(message_views(out@) =~= replies_of(echo_reply(input@, old(self).id)));
        Ok(out)
    }
}

/// Over a run of steps on echo requests, each step as `step_post` states it,
/// every request gets exactly one reply, answering its id, and the reply ids
/// count up one by one from the first counter.
pub proof fn lemma_echo_run(
    states: Seq<EchoNode>,
    inputs: Seq<MessageV<EchoPayloadV>>,
    replies: Seq<Seq<MessageV<EchoPayloadV>>>,
)
    requires
        states.len() == inputs.len() + 1,
        replies.len() == inputs.len(),
        states[0].id + inputs.len() < usize::MAX,
        forall|i: int|
            0 <= i < inputs.len() ==> <EchoNode as Node<(), EchoPayload>>::step_post(
                #[trigger] states[i],
                inputs[i],
                states[i + 1],
                Some(replies[i]),
            ),
        forall|i: int| 0 <= i < inputs.len() ==> (#[trigger] inputs[i]).payload is Echo,
    ensures
        forall|i: int|
            0 <= i < inputs.len() ==> (#[trigger] replies[i]).len() == 1 && replies[i][0].in_reply_to
                == inputs[i].id && replies[i][0].id == Some((states[0].id + i) as usize)
                && replies[i][0].src == inputs[i].dst && replies[i][0].dst == inputs[i].src,
{
    assert forall|i: int| 0 <= i <= inputs.len() implies #[trigger] states[i].id == states[0].id + i by {
        lemma_echo_counter(states, inputs, replies, i);
    }
    assert forall|i: int| 0 <= i < inputs.len() implies (#[trigger] replies[i]).len() == 1
        && replies[i][0].in_reply_to == inputs[i].id && replies[i][0].id == Some(
        (states[0].id + i) as usize) && replies[i][0].src == inputs[i].dst && replies[i][0].dst
        == inputs[i].src by {
        assert(states[i].id == states[0].id + i);
        assert(<EchoNode as Node<(), EchoPayload>>::step_post(states[i], inputs[i], states[i + 1], Some(replies[i])));
    }
}

proof fn lemma_echo_counter(
    states: Seq<EchoNode>,
    inputs: Seq<MessageV<EchoPayloadV>>,
    replies: Seq<Seq<MessageV<EchoPayloadV>>>,
    i: int,
)
    requires
        states.len() == inputs.len() + 1,
        replies.len() == inputs.len(),
        states[0].id + inputs.len() < usize::MAX,
        forall|i: int|
            0 <= i < inputs.len() ==> <EchoNode as Node<(), EchoPayload>>::step_post(
                #[trigger] states[i],
                inputs[i],
                states[i + 1],
                Some(replies[i]),
            ),
        0 <= i <= inputs.len(),
    ensures
        states[i].id == states[0].id + i,
    decreases i,
{
    if i > 0 {
        lemma_echo_counter(states, inputs, replies, i - 1);
        assert(<EchoNode as Node<(), EchoPayload>>::step_post(states[i - 1], inputs[i - 1], states[i], Some(replies[i - 1])));
    }
}

} // verus!
