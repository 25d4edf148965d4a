//! A handler that keeps every broadcast value it receives, in order of
//! receipt, and reports them on request.
use vstd::prelude::*;
use crate::json::{Json, JsonV, view_fields, lookup, find, lemma_view_fields, lemma_lookup_distinct};
use crate::fields::{has_tag, is_tag, tag, num_of, nums_of, adjacency_of, decode_num, encode_num, decode_nums, encode_nums, decode_adjacency, encode_adjacency};
use crate::codec::Payload;
use crate::message::{Message, MessageV, message_views, replies_of};
use crate::node::{Init, Node, NodeError};

verus! {

#[derive(Debug)]
pub enum BroadcastPayload {
    Broadcast { message: usize },
    BroadcastOk,
    Read,
    ReadOk { messages: Vec<usize> },
    /// Each node's neighbours; accepted and not acted upon.
    Topology { topology: Vec<(String, Vec<String>)> },
    TopologyOk,
}

pub enum BroadcastPayloadV {
    Broadcast { message: usize },
    BroadcastOk,
    Read,
    ReadOk { messages: Seq<usize> },
    Topology { topology: Seq<(Seq<char>, Seq<Seq<char>>)> },
    TopologyOk,
}

impl View for BroadcastPayload {
    type V = BroadcastPayloadV;

    open spec fn view(&self) -> BroadcastPayloadV {
        match self {
            BroadcastPayload::Broadcast { message } => BroadcastPayloadV::Broadcast { message: *message },
            BroadcastPayload::BroadcastOk => BroadcastPayloadV::BroadcastOk,
            BroadcastPayload::Read => BroadcastPayloadV::Read,
            BroadcastPayload::ReadOk { messages } => BroadcastPayloadV::ReadOk { messages: messages@ },
            BroadcastPayload::Topology { topology } => BroadcastPayloadV::Topology {
                topology: topology.deep_view(),
            },
            BroadcastPayload::TopologyOk => BroadcastPayloadV::TopologyOk,
        }
    }
}

impl Payload for BroadcastPayload {
    open spec fn spec_decode(fs: Seq<(Seq<char>, JsonV)>) -> Option<BroadcastPayloadV> {
        if has_tag(fs, "broadcast"@) {
            match num_of(lookup(fs, "message"@)) {
                Some(message) => Some(BroadcastPayloadV::Broadcast { message }),
                None => None,
            }
        } else if has_tag(fs, "broadcast_ok"@) {
            Some(BroadcastPayloadV::BroadcastOk)
        } else if has_tag(fs, "read"@) {
            Some(BroadcastPayloadV::Read)
        } else if has_tag(fs, "read_ok"@) {
            match nums_of(lookup(fs, "messages"@)) {
                Some(messages) => Some(BroadcastPayloadV::ReadOk { messages }),
                None => None,
            }
        } else if has_tag(fs, "topology"@) {
            match adjacency_of(lookup(fs, "topology"@)) {
                Some(topology) => Some(BroadcastPayloadV::Topology { topology }),
                None => None,
            }
        } else if has_tag(fs, "topology_ok"@) {
            Some(BroadcastPayloadV::TopologyOk)
        } else {
            None
        }
    }

    fn decode(fields: &Vec<(String, Json)>) -> (r: Option<Self>) {
        if is_tag(fields, "broadcast") {
            match decode_num(find(fields, &"message".to_owned())) {
                Some(message) => Some(BroadcastPayload::Broadcast { message }),
                None => None,
            }
        } else if is_tag(fields, "broadcast_ok") {
            Some(BroadcastPayload::BroadcastOk)
        } else if is_tag(fields, "read") {
            Some(BroadcastPayload::Read)
        } else if is_tag(fields, "read_ok") {
            match decode_nums(find(fields, &"messages".to_owned())) {
                Some(messages) => Some(BroadcastPayload::ReadOk { messages }),
                None => None,
            }
        } else if is_tag(fields, "topology") {
            match decode_adjacency(find(fields, &"topology".to_owned())) {
                Some(topology) => Some(BroadcastPayload::Topology { topology }),
                None => None,
            }
        } else if is_tag(fields, "topology_ok") {
            Some(BroadcastPayload::TopologyOk)
        } else {
            None
        }
    }

    fn encode(&self) -> (r: Vec<(String, Json)>) {
        let mut r: Vec<(String, Json)> = Vec::new();
        match self {
            BroadcastPayload::Broadcast { message } => {
                r.push(tag("broadcast"));
                r.push(("message".to_owned(), encode_num(*message)));
            },
            BroadcastPayload::BroadcastOk => {
                r.push(tag("broadcast_ok"));
            },
            BroadcastPayload::Read => {
                r.push(tag("read"));
            },
            BroadcastPayload::ReadOk { messages } => {
                r.push(tag("read_ok"));
                r.push(("messages".to_owned(), encode_nums(messages)));
            },
            BroadcastPayload::Topology { topology } => {
                r.push(tag("topology"));
                r.push(("topology".to_owned(), encode_adjacency(topology)));
            },
            BroadcastPayload::TopologyOk => {
                r.push(tag("topology_ok"));
            },
        }
        proof {
            reveal_strlit("type");
            reveal_strlit("message");
            reveal_strlit("messages");
            reveal_strlit("topology");
            reveal_strlit("broadcast");
            reveal_strlit("broadcast_ok");
            reveal_strlit("read");
            reveal_strlit("read_ok");
            reveal_strlit("topology_ok");
            reveal_strlit("msg_id");
            reveal_strlit("in_reply_to");
            lemma_view_fields(r@);
            let m = view_fields(r@);
            assert("type"@.len() != "message"@.len() && "type"@.len() != "messages"@.len()
                && "type"@.len() != "topology"@.len());
            assert("broadcast"@.len() != "broadcast_ok"@.len() && "broadcast"@.len() != "read"@.len()
                && "broadcast"@.len() != "read_ok"@.len() && "broadcast"@.len() != "topology"@.len()
                && "broadcast"@.len() != "topology_ok"@.len());
            assert("broadcast_ok"@.len() != "read"@.len() && "broadcast_ok"@.len() != "read_ok"@.len()
                && "broadcast_ok"@.len() != "topology"@.len() && "broadcast_ok"@.len()
                != "topology_ok"@.len());
            assert("read"@.len() != "read_ok"@.len() && "read"@.len() != "topology"@.len()
                && "read"@.len() != "topology_ok"@.len());
            assert("read_ok"@.len() != "topology"@.len() && "read_ok"@.len() != "topology_ok"@.len());
            assert("topology"@.len() != "topology_ok"@.len());
            assert forall|rest: Seq<(Seq<char>, JsonV)>|
                Self::spec_decode(#[trigger] (m + rest)) == Some(self@) by {
                lemma_lookup_distinct(m, rest);
                assert(lookup(m + rest, m[0].0) == Some(m[0].1));
                if m.len() == 2 {
                    assert(lookup(m + rest, m[1].0) == Some(m[1].1));
                }
            }
            assert forall|i: int| 0 <= i < r@.len() implies (#[trigger] r@[i]).0@ != "msg_id"@
                && r@[i].0@ != "in_reply_to"@ by {
                assert(m[i].0 == r@[i].0@);
                assert("msg_id"@.len() != "type"@.len() && "msg_id"@.len() != "message"@.len()
                    && "msg_id"@.len() != "messages"@.len() && "msg_id"@.len() != "topology"@.len());
                assert("in_reply_to"@.len() != "type"@.len() && "in_reply_to"@.len()
                    != "message"@.len() && "in_reply_to"@.len() != "messages"@.len()
                    && "in_reply_to"@.len() != "topology"@.len());
            }
        }
        r
    }
}

/// The broadcast handler's state: its node id, its message counter, and the
/// values received so far, in order of receipt.
#[derive(Debug)]
pub struct BroadcastNode {
    pub node: String,
    pub id: usize,
    pub messages: Vec<usize>,
}

/// The reply that a broadcast node owes a message, given its counter and the
/// values it holds once the message is taken in.
pub open spec fn broadcast_reply(
    input: MessageV<BroadcastPayloadV>,
    id: usize,
    held: Seq<usize>,
) -> Option<MessageV<BroadcastPayloadV>> {
    let answer = match input.payload {
        BroadcastPayloadV::Broadcast { .. } => Some(BroadcastPayloadV::BroadcastOk),
        BroadcastPayloadV::Read => Some(BroadcastPayloadV::ReadOk { messages: held }),
        BroadcastPayloadV::Topology { .. } => Some(BroadcastPayloadV::TopologyOk),
        _ => None,
    };
    match answer {
        Some(payload) => Some(
            MessageV { src: input.dst, dst: input.src, id: Some(id), in_reply_to: input.id, payload },
        ),
        None => None,
    }
}

impl BroadcastNode {
    /// Takes in one message: a broadcast value is appended to those held and
    /// acknowledged; a read is answered with every value held, in order of
    /// receipt; a topology is acknowledged; acknowledgements get no answer.
    /// Every message uses up one id.
    pub fn respond(&mut self, input: Message<BroadcastPayload>) -> (r: Option<Message<BroadcastPayload>>)
        requires
            old(self).id < usize::MAX,
        ensures
            final(self).id == old(self).id + 1,
            final(self).node == old(self).node,
            final(self).messages@ == held_after(old(self).messages@, input@),
            match r {
                Some(m) => broadcast_reply(input@, old(self).id, final(self).messages@) == Some(m@),
                None => broadcast_reply(input@, old(self).id, final(self).messages@) is None,
            },
    {
        let ghost input_v = input@;
        let mut reply = input.into_reply(Some(&mut self.id));
        match reply.body.msg_type {
            BroadcastPayload::Broadcast { message } => {
                self.messages.push(message);
                reply.body.msg_type = BroadcastPayload::BroadcastOk;
                Some(reply)
            },
            BroadcastPayload::Read => {
                let messages = self.messages.clone();
                assert(messages@ =~= self.messages@);
                reply.body.msg_type = BroadcastPayload::ReadOk { messages };
                Some(reply)
            },
            BroadcastPayload::Topology { .. } => {
                reply.body.msg_type = BroadcastPayload::TopologyOk;
                Some(reply)
            },
            _ => None,
        }
    }
}

/// The values a broadcast node holds once it has taken in `input`.
pub open spec fn held_after(held: Seq<usize>, input: MessageV<BroadcastPayloadV>) -> Seq<usize> {
    match input.payload {
        BroadcastPayloadV::Broadcast { message } => held.push(message),
        _ => held,
    }
}

impl Node<(), BroadcastPayload> for BroadcastNode {
    /// With its counter spent the node fails and stays as it was; otherwise
    /// it keeps its node id, uses up one id, appends a broadcast value to those
    /// it holds, and sends the reply `broadcast_reply` gives, if any.
    open spec fn step_post(
        pre: BroadcastNode,
        input: MessageV<BroadcastPayloadV>,
        post: BroadcastNode,
        replies: Option<Seq<MessageV<BroadcastPayloadV>>>,
    ) -> bool {
        if pre.id == usize::MAX {
            post == pre && replies is None
        } else {
            &&& post.id == pre.id + 1
            &&& post.node == pre.node
            &&& post.messages@ == held_after(pre.messages@, input)
            &&& replies == Some(replies_of(broadcast_reply(input, pre.id, post.messages@)))
        }
    }

    fn from_init(_state: (), init: Init) -> (r: Result<Self, NodeError>)
        ensures
            r matches Ok(n) && n.id == 1 && n.node@ == init.node_id@ && n.messages@.len() == 0,
    {
        Ok(BroadcastNode { node: init.node_id, id: 1, messages: Vec::new() })
    }

    fn step(&mut self, input: Message<BroadcastPayload>) -> (r: Result<Vec<Message<BroadcastPayload>>, NodeError>) {
        if self.id == usize::MAX {
            return Err(NodeError { reason: "message ids exhausted".to_owned() });
        }
        let mut out: Vec<Message<BroadcastPayload>> = Vec::new();
        match self.respond(input) {
            Some(m) => out.push(m),
            None => {},
        }
        assert(message_views(out@) =~= replies_of(broadcast_reply(input@, old(self).id, self.messages@)));
        Ok(out)
    }
}

/// The values held after taking in a run of messages, in order of receipt.
pub open spec fn held_after_all(held: Seq<usize>, inputs: Seq<MessageV<BroadcastPayloadV>>) -> Seq<
    usize,
>
    decreases inputs.len(),
{
    if inputs.len() == 0 {
        held
    } else {
        held_after(held_after_all(held, inputs.drop_last()), inputs.last())
    }
}

/// Over a run of steps, each as `step_post` states it and none failing, the
/// node holds after the `i`-th message what it held at first followed by the
/// broadcast values of the first `i` messages, in order of receipt.
pub proof fn lemma_broadcast_run(
    states: Seq<BroadcastNode>,
    inputs: Seq<MessageV<BroadcastPayloadV>>,
    replies: Seq<Seq<MessageV<BroadcastPayloadV>>>,
    i: int,
)
    requires
        states.len() == inputs.len() + 1,
        replies.len() == inputs.len(),
        forall|k: int|
            0 <= k < inputs.len() ==> <BroadcastNode as Node<(), BroadcastPayload>>::step_post(
                #[trigger] states[k],
                inputs[k],
                states[k + 1],
                Some(replies[k]),
            ),
        0 <= i <= inputs.len(),
    ensures
        states[i].messages@ == held_after_all(states[0].messages@, inputs.take(i)),
    decreases i,
{
    if i == 0 {
        assert(inputs.take(0).len() == 0);
    } else {
        lemma_broadcast_run(states, inputs, replies, i - 1);
        assert(<BroadcastNode as Node<(), BroadcastPayload>>::step_post(
            states[i - 1],
            inputs[i - 1],
            states[i],
            Some(replies[i - 1]),
        ));
        assert(inputs.take(i).drop_last() =~= inputs.take(i - 1));
        assert(inputs.take(i).last() == inputs[i - 1]);
    }
}

} // verus!
