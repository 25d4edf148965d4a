//! A handler that hands out ids unique across the cluster, made of the
//! node's own id and a counter.
use vstd::prelude::*;
use crate::json::{Json, JsonV, view_fields, lookup, str_of, find, lemma_view_fields, lemma_lookup_distinct};
use crate::fields::{has_tag, is_tag, tag, decode_text};
use crate::codec::Payload;
use crate::message::{Message, MessageV, message_views, replies_of};
use crate::node::{Init, Node, NodeError};

verus! {

/// The character of a decimal digit.
pub open spec fn digit_char(d: nat) -> char {
    if d == 0 {
        '0'
    } else if d == 1 {
        '1'
    } else if d == 2 {
        '2'
    } else if d == 3 {
        '3'
    } else if d == 4 {
        '4'
    } else if d == 5 {
        '5'
    } else if d == 6 {
        '6'
    } else if d == 7 {
        '7'
    } else if d == 8 {
        '8'
    } else {
        '9'
    }
}

/// The decimal digits of `n`, without leading zeros.
pub open spec fn decimal(n: nat) -> Seq<char>
    decreases n,
{
    if n < 10 {
        seq![digit_char(n)]
    } else {
        decimal(n / 10).push(digit_char(n % 10))
    }
}

/// The id handed out for counter value `n` on node `node`.
pub open spec fn guid_text(node: Seq<char>, n: nat) -> Seq<char> {
    node + seq!['-'] + decimal(n)
}

proof fn lemma_decimal_len(n: nat)
    ensures
        decimal(n).len() >= 1,
        n >= 10 ==> decimal(n).len() >= 2,
    decreases n,
{
    if n >= 10 {
        lemma_decimal_len(n / 10);
    }
}

/// Different numbers have different decimal forms.
pub proof fn lemma_decimal_injective(a: nat, b: nat)
    requires
        decimal(a) == decimal(b),
    ensures
        a == b,
    decreases a,
{
    lemma_decimal_len(a);
    lemma_decimal_len(b);
    if a >= 10 && b >= 10 {
        let da = decimal(a);
        assert(da.last() == digit_char(a % 10));
        assert(decimal(b).last() == digit_char(b % 10));
        assert(da.drop_last() =~= decimal(a / 10));
        assert(decimal(b).drop_last() =~= decimal(b / 10));
        lemma_decimal_injective(a / 10, b / 10);
    } else if a < 10 && b < 10 {
        assert(decimal(a)[0] == digit_char(a));
        assert(decimal(b)[0] == digit_char(b));
    }
}

/// Two different counter values give two different ids on the same node.
pub proof fn lemma_generated_ids_distinct(node: Seq<char>, a: nat, b: nat)
    requires
        a != b,
    ensures
        guid_text(node, a) != guid_text(node, b),
{
    if guid_text(node, a) == guid_text(node, b) {
        let start: int = node.len() as int + 1;
        assert(guid_text(node, a).subrange(start, guid_text(node, a).len() as int) =~= decimal(a));
        assert(guid_text(node, b).subrange(start, guid_text(node, b).len() as int) =~= decimal(b));
        lemma_decimal_injective(a, b);
    }
}

/// Relies on std's formatting of `"{}-{}"`: the text, a hyphen, and the
/// number in decimal digits without leading zeros.
#[verifier::external_body]
fn hyphenated(node: &String, n: usize) -> (r: String)
    ensures
        r@ == guid_text(node@, n as nat),
{
    format!("{}-{}", node, n)
}

#[derive(Debug)]
pub enum UniquePayload {
    Generate,
    GenerateOk { guid: String },
}

pub enum UniquePayloadV {
    Generate,
    GenerateOk { guid: Seq<char> },
}

impl View for UniquePayload {
    type V = UniquePayloadV;

    open spec fn view(&self) -> UniquePayloadV {
        match self {
            UniquePayload::Generate => UniquePayloadV::Generate,
            UniquePayload::GenerateOk { guid } => UniquePayloadV::GenerateOk { guid: guid@ },
        }
    }
}

impl Payload for UniquePayload {
    open spec fn spec_decode(fs: Seq<(Seq<char>, JsonV)>) -> Option<UniquePayloadV> {
        if has_tag(fs, "generate"@) {
            Some(UniquePayloadV::Generate)
        } else if has_tag(fs, "generate_ok"@) {
            match str_of(lookup(fs, "id"@)) {
                Some(guid) => Some(UniquePayloadV::GenerateOk { guid }),
                None => None,
            }
        } else {
            None
        }
    }

    fn decode(fields: &Vec<(String, Json)>) -> (r: Option<Self>) {
        if is_tag(fields, "generate") {
            Some(UniquePayload::Generate)
        } else if is_tag(fields, "generate_ok") {
            match decode_text(find(fields, &"id".to_owned())) {
                Some(guid) => Some(UniquePayload::GenerateOk { guid }),
                None => None,
            }
        } else {
            None
        }
    }

    fn encode(&self) -> (r: Vec<(String, Json)>) {
        let mut r: Vec<(String, Json)> = Vec::new();
        match self {
            UniquePayload::Generate => {
                r.push(tag("generate"));
            },
            UniquePayload::GenerateOk { guid } => {
                r.push(tag("generate_ok"));
                r.push(("id".to_owned(), Json::Str(guid.clone())));
            },
        }
        proof {
            reveal_strlit("type");
            reveal_strlit("id");
            reveal_strlit("generate");
            reveal_strlit("generate_ok");
            reveal_strlit("msg_id");
            reveal_strlit("in_reply_to");
            lemma_view_fields(r@);
            let m = view_fields(r@);
            assert("type"@[0] != "id"@[0] && "generate"@.len() != "generate_ok"@.len());
            assert forall|rest: Seq<(Seq<char>, JsonV)>|
                Self::spec_decode(#[trigger] (m + rest)) == Some(self@) by {
                lemma_lookup_distinct(m, rest);
                assert(lookup(m + rest, m[0].0) == Some(m[0].1));
                if m.len() == 2 {
                    assert(lookup(m + rest, m[1].0) == Some(m[1].1));
                }
            }
            assert forall|i: int| 0 <= i < r@.len() implies (#[trigger] r@[i]).0@ != "msg_id"@
                && r@[i].0@ != "in_reply_to"@ by {
                assert(m[i].0 == r@[i].0@);
                assert("msg_id"@[0] != "type"@[0] && "msg_id"@[0] != "id"@[0]);
                assert("in_reply_to"@[0] != "type"@[0] && "in_reply_to"@.len() != "id"@.len());
            }
        }
        r
    }
}

/// The id handler's state: its own node id and its message counter.
#[derive(Debug)]
pub struct UniqueNode {
    pub node: String,
    pub id: usize,
}

/// The reply an id node called `node` with counter `id` owes `input`: a
/// generate request is answered with the id for the counter's next value; an
/// acknowledgement gets no answer.
pub open spec fn unique_reply(input: MessageV<UniquePayloadV>, node: Seq<char>, id: usize) -> Option<
    MessageV<UniquePayloadV>,
> {
    match input.payload {
        UniquePayloadV::Generate => Some(
            MessageV {
                src: input.dst,
                dst: input.src,
                id: Some(id),
                in_reply_to: input.id,
                payload: UniquePayloadV::GenerateOk { guid: guid_text(node, id as nat + 1) },
            },
        ),
        UniquePayloadV::GenerateOk { .. } => None,
    }
}

impl UniqueNode {
    /// Answers a generate request with the id made of the node id and the
    /// counter as it stands after this reply took its own message id; an
    /// acknowledgement gets no answer. Every message uses up one id.
    pub fn respond(&mut self, input: Message<UniquePayload>) -> (r: Option<Message<UniquePayload>>)
        requires
            old(self).id < usize::MAX,
        ensures
            final(self).id == old(self).id + 1,
            final(self).node == old(self).node,
            match r {
                Some(m) => unique_reply(input@, old(self).node@, old(self).id) == Some(m@),
                None => unique_reply(input@, old(self).node@, old(self).id) is None,
            },
    {
        let mut reply = input.into_reply(Some(&mut self.id));
        match reply.body.msg_type {
            UniquePayload::Generate => {
                let guid = hyphenated(&self.node, self.id);
                reply.body.msg_type = UniquePayload::GenerateOk { guid };
                Some(reply)
            },
            UniquePayload::GenerateOk { .. } => None,
        }
    }
}

impl Node<(), UniquePayload> for UniqueNode {
    /// With its counter spent the node fails and stays as it was; otherwise
    /// it keeps its node id, uses up one id and sends the reply `unique_reply`
    /// gives, if any.
    open spec fn step_post(
        pre: UniqueNode,
        input: MessageV<UniquePayloadV>,
        post: UniqueNode,
        replies: Option<Seq<MessageV<UniquePayloadV>>>,
    ) -> bool {
        if pre.id == usize::MAX {
            post == pre && replies is None
        } else {
            &&& post.id == pre.id + 1
            &&& post.node == pre.node
            &&& replies == Some(replies_of(unique_reply(input, pre.node@, pre.id)))
        }
    }

    fn from_init(_state: (), init: Init) -> (r: Result<Self, NodeError>)
        ensures
            r matches Ok(n) && n.id == 1 && n.node@ == init.node_id@,
    {
        Ok(UniqueNode { node: init.node_id, id: 1 })
    }

    fn step(&mut self, input: Message<UniquePayload>) -> (r: Result<Vec<Message<UniquePayload>>, NodeError>) {
        if self.id == usize::MAX {
            return Err(NodeError { reason: "message ids exhausted".to_owned() });
        }
        let mut out: Vec<Message<UniquePayload>> = Vec::new();
        match self.respond(input) {
            Some(m) => out.push(m),
            None => {},
        }
        assert(message_views(out@) =~= replies_of(unique_reply(input@, old(self).node@, old(self).id)));
        Ok(out)
    }
}

/// Two successive generate requests on the same node, each step as
/// `step_post` states it, get one reply each, and the two ids differ.
pub proof fn lemma_successive_ids_differ(
    s0: UniqueNode,
    s1: UniqueNode,
    s2: UniqueNode,
    a: MessageV<UniquePayloadV>,
    b: MessageV<UniquePayloadV>,
    ra: Seq<MessageV<UniquePayloadV>>,
    rb: Seq<MessageV<UniquePayloadV>>,
)
    requires
        <UniqueNode as Node<(), UniquePayload>>::step_post(s0, a, s1, Some(ra)),
        <UniqueNode as Node<(), UniquePayload>>::step_post(s1, b, s2, Some(rb)),
        a.payload is Generate,
        b.payload is Generate,
    ensures
        ra.len() == 1,
        rb.len() == 1,
        ra[0].payload->GenerateOk_guid != rb[0].payload->GenerateOk_guid,
{
    lemma_generated_ids_distinct(s0.node@, s0.id as nat + 1, s1.id as nat + 1);
}

} // verus!
