//! The message envelope, the reply builder, and the envelope's JSON form.
use vstd::prelude::*;

verus! {

/// One protocol message: who sent it, to whom, and its body.
#[derive(Debug)]
pub struct Message<P> {
    pub src: String,
    pub dst: String,
    pub body: Body<P>,
}

/// A message body: its own id, the id it answers, and the payload.
#[derive(Debug)]
pub struct Body<P> {
    pub id: Option<usize>,
    pub in_reply_to: Option<usize>,
    pub msg_type: P,
}

/// The model of a message.
pub struct MessageV<V> {
    pub src: Seq<char>,
    pub dst: Seq<char>,
    pub id: Option<usize>,
    pub in_reply_to: Option<usize>,
    pub payload: V,
}

impl<P: View> View for Message<P> {
    type V = MessageV<P::V>;

    open spec fn view(&self) -> MessageV<P::V> {
        MessageV {
            src: self.src@,
            dst: self.dst@,
            id: self.body.id,
            in_reply_to: self.body.in_reply_to,
            payload: self.body.msg_type@,
        }
    }
}

/// The models of a run of messages.
pub open spec fn message_views<P: View>(s: Seq<Message<P>>) -> Seq<MessageV<P::V>> {
    Seq::new(s.len(), |i: int| s[i]@)
}

/// The replies sent for one answer, if any.
pub open spec fn replies_of<V>(answer: Option<MessageV<V>>) -> Seq<MessageV<V>> {
    match answer {
        Some(m) => seq![m],
        None => Seq::empty(),
    }
}

/// `r` is the reply to `m` with id `id`: roles swapped, `m`'s id as the id
/// answered, and `m`'s payload until the caller puts the answer in.
pub open spec fn is_reply_of<P>(r: Message<P>, m: Message<P>, id: Option<usize>) -> bool {
    &&& r.src == m.dst
    &&& r.dst == m.src
    &&& r.body.id == id
    &&& r.body.in_reply_to == m.body.id
    &&& r.body.msg_type == m.body.msg_type
}

/// Replying to a reply addresses the first sender again: the roles swap back,
/// the payload is kept, the id answered is the first reply's id, and the second
/// reply carries the id it was given.
pub proof fn lemma_reply_of_reply<P>(
    m: Message<P>,
    first: Message<P>,
    second: Message<P>,
    first_id: Option<usize>,
    second_id: Option<usize>,
)
    requires
        is_reply_of(first, m, first_id),
        is_reply_of(second, first, second_id),
    ensures
        second.src == m.src,
        second.dst == m.dst,
        second.body.id == second_id,
        second.body.in_reply_to == first_id,
        second.body.msg_type == m.body.msg_type,
{
}

impl<P> Message<P> {
    /// Builds the reply envelope to this message. With a counter, the reply
    /// takes the counter's value as its id and the counter moves on by one.
    pub fn into_reply(self, id: Option<&mut usize>) -> (r: Self)
        requires
            match id {
                Some(c) => *c < usize::MAX,
                None => true,
            },
        ensures
            match id {
                Some(c) => is_reply_of(r, self, Some(*c)) && *final(c) == *c + 1,
                None => is_reply_of(r, self, None),
            },
    {
        let next = match id {
            Some(c) => {
                let mid = *c;
                *c = *c + 1;
                Some(mid)
            },
            None => None,
        };
        Message {
            src: self.dst,
            dst: self.src,
            body: Body { id: next, in_reply_to: self.body.id, msg_type: self.body.msg_type },
        }
    }
}

} // verus!
