//! Reading a message out of its JSON form and writing it back.
use vstd::prelude::*;
use crate::json::{Json, JsonV, view_fields, lookup, field, str_of, find, lemma_view_fields, lemma_lookup_absent, lemma_lookup_skip};
use crate::message::{Message, MessageV, Body};
use crate::fields::decode_text;

verus! {

/// Why a JSON value is not a message.
#[derive(PartialEq, Eq, Structural, Clone, Copy, Debug)]
pub enum DecodeError {
    /// `src` is missing or not a string.
    Src,
    /// `dest` is missing or not a string.
    Dest,
    /// `body` is missing or not an object.
    Body,
    /// `msg_id` is neither absent, null, nor an id.
    MsgId,
    /// `in_reply_to` is neither absent, null, nor an id.
    InReplyTo,
    /// The body's other fields are not a payload of the expected kind.
    Payload,
}

/// A payload kind: a closed set of variants told apart by the body's `type`
/// field, whose other fields sit beside `msg_id` and `in_reply_to`.
pub trait Payload: View + Sized {
    /// The payload that a body's fields hold, if any.
    spec fn spec_decode(fields: Seq<(Seq<char>, JsonV)>) -> Option<Self::V>;

    fn decode(fields: &Vec<(String, Json)>) -> (r: Option<Self>)
        ensures
            match r {
                Some(p) => Self::spec_decode(view_fields(fields@)) == Some(p@),
                None => Self::spec_decode(view_fields(fields@)) is None,
            },
    ;

    /// The payload's fields. They read back as the payload whatever fields
    /// follow them, and leave the envelope's own names free.
    fn encode(&self) -> (r: Vec<(String, Json)>)
        ensures
            forall|rest: Seq<(Seq<char>, JsonV)>|
                Self::spec_decode(#[trigger] (view_fields(r@) + rest)) == Some(self@),
            forall|i: int|
                0 <= i < r@.len() ==> (#[trigger] r@[i]).0@ != "msg_id"@ && r@[i].0@
                    != "in_reply_to"@,
    ;
}

/// An id field: absent or null is no id; an integer that fits is that id;
/// anything else is malformed.
pub open spec fn id_of(j: Option<JsonV>) -> Option<Option<usize>> {
    match j {
        None => Some(None),
        Some(JsonV::Null) => Some(None),
        Some(JsonV::Number(n)) => if n <= usize::MAX {
            Some(Some(n as usize))
        } else {
            None
        },
        _ => None,
    }
}

/// The JSON form of an id.
pub open spec fn id_json(id: Option<usize>) -> JsonV {
    match id {
        Some(n) => JsonV::Number(n as u64),
        None => JsonV::Null,
    }
}

/// The message that a JSON value holds, or the first thing wrong with it.
pub open spec fn decode_spec<P: Payload>(j: JsonV) -> Result<MessageV<P::V>, DecodeError> {
    if str_of(field(j, "src"@)) is None {
        Err(DecodeError::Src)
    } else if str_of(field(j, "dest"@)) is None {
        Err(DecodeError::Dest)
    } else if !(field(j, "body"@) matches Some(JsonV::Object(_))) {
        Err(DecodeError::Body)
    } else {
        let body = field(j, "body"@).unwrap();
        if id_of(field(body, "msg_id"@)) is None {
            Err(DecodeError::MsgId)
        } else if id_of(field(body, "in_reply_to"@)) is None {
            Err(DecodeError::InReplyTo)
        } else {
            match body {
                JsonV::Object(fs) => match P::spec_decode(fs) {
                    Some(p) => Ok(
                        MessageV {
                            src: str_of(field(j, "src"@)).unwrap(),
                            dst: str_of(field(j, "dest"@)).unwrap(),
                            id: id_of(field(body, "msg_id"@)).unwrap(),
                            in_reply_to: id_of(field(body, "in_reply_to"@)).unwrap(),
                            payload: p,
                        },
                    ),
                    None => Err(DecodeError::Payload),
                },
                _ => Err(DecodeError::Body),
            }
        }
    }
}

fn decode_id(v: Option<&Json>) -> (r: Option<Option<usize>>)
    ensures
        r == id_of(
            match v {
                Some(x) => Some(x@),
                None => None,
            },
        ),
{
    match v {
        None => Some(None),
        Some(Json::Null) => Some(None),
        Some(Json::Number(n)) => {
            if *n <= usize::MAX as u64 {
                Some(Some(*n as usize))
            } else {
                None
            }
        },
        Some(_) => None,
    }
}

fn encode_id(id: Option<usize>) -> (r: Json)
    ensures
        r@ == id_json(id),
        id_of(Some(r@)) == Some(id),
{
    match id {
        Some(n) => Json::Number(n as u64),
        None => Json::Null,
    }
}

impl<P: Payload> Message<P> {
    /// Reads a message out of a JSON value.
    pub fn decode(j: &Json) -> (r: Result<Self, DecodeError>)
        ensures
            match r {
                Ok(m) => decode_spec::<P>(j@) == Ok::<MessageV<P::V>, DecodeError>(m@),
                Err(e) => decode_spec::<P>(j@) == Err::<MessageV<P::V>, DecodeError>(e),
            },
    {
        let fields = match j {
            Json::Object(fs) => fs,
            _ => {
                return Err(DecodeError::Src);
            },
        };
        let src = match decode_text(find(fields, &"src".to_owned())) {
            Some(s) => s,
            None => {
                return Err(DecodeError::Src);
            },
        };
        let dst = match decode_text(find(fields, &"dest".to_owned())) {
            Some(s) => s,
            None => {
                return Err(DecodeError::Dest);
            },
        };
        let body = match find(fields, &"body".to_owned()) {
            Some(Json::Object(b)) => b,
            _ => {
                return Err(DecodeError::Body);
            },
        };
        let id = match decode_id(find(body, &"msg_id".to_owned())) {
            Some(id) => id,
            None => {
                return Err(DecodeError::MsgId);
            },
        };
        let in_reply_to = match decode_id(find(body, &"in_reply_to".to_owned())) {
            Some(id) => id,
            None => {
                return Err(DecodeError::InReplyTo);
            },
        };
        match P::decode(body) {
            Some(p) => Ok(Message { src, dst, body: Body { id, in_reply_to, msg_type: p } }),
            None => Err(DecodeError::Payload),
        }
    }

    /// Writes the message as a JSON value, which reads back as the same message.
    pub fn encode(&self) -> (r: Json)
        ensures
            decode_spec::<P>(r@) == Ok::<MessageV<P::V>, DecodeError>(self@),
    {
        let payload = self.body.msg_type.encode();
        let ghost pf = payload@;
        let mut body = payload;
        body.push(("msg_id".to_owned(), encode_id(self.body.id)));
        body.push(("in_reply_to".to_owned(), encode_id(self.body.in_reply_to)));
        let mut top: Vec<(String, Json)> = Vec::new();
        top.push(("src".to_owned(), Json::Str(self.src.clone())));
        top.push(("dest".to_owned(), Json::Str(self.dst.clone())));
        let ghost bodyv = body@;
        top.push(("body".to_owned(), Json::Object(body)));
        let r = Json::Object(top);
        proof {
            reveal_strlit("src");
            reveal_strlit("dest");
            reveal_strlit("body");
            reveal_strlit("msg_id");
            reveal_strlit("in_reply_to");
            lemma_view_fields(pf);
            lemma_view_fields(bodyv);
            lemma_view_fields(top@);
            let pm = view_fields(pf);
            let tail = seq![
                ("msg_id"@, id_json(self.body.id)),
                ("in_reply_to"@, id_json(self.body.in_reply_to)),
            ];
            assert(view_fields(bodyv) =~= pm + tail);
            lemma_lookup_absent(pm, "msg_id"@);
            lemma_lookup_absent(pm, "in_reply_to"@);
            lemma_lookup_skip(pm, tail, "msg_id"@);
            lemma_lookup_skip(pm, tail, "in_reply_to"@);
            assert(tail.drop_first() =~= seq![("in_reply_to"@, id_json(self.body.in_reply_to))]);
            assert(P::spec_decode(pm + tail) == Some(self.body.msg_type@));
            let tm = view_fields(top@);
            assert(tm.drop_first()[0] == tm[1]);
            assert(tm.drop_first().drop_first()[0] == tm[2]);
            assert(r@ == JsonV::Object(tm));
            assert("src"@[0] != "dest"@[0] && "src"@[0] != "body"@[0] && "dest"@[0] != "body"@[0]);
            assert(tm.drop_first().drop_first() =~= seq![tm[2]]);
            let t1 = tm.drop_first();
            let t2 = t1.drop_first();
            assert(lookup(t2, "body"@) == Some(tm[2].1));
            assert(lookup(t1, "body"@) == lookup(t2, "body"@));
            assert(lookup(t1, "dest"@) == Some(tm[1].1));
            assert(field(r@, "src"@) == Some(JsonV::Str(self.src@)));
            assert(field(r@, "dest"@) == Some(JsonV::Str(self.dst@)));
            assert(field(r@, "body"@) == Some(JsonV::Object(pm + tail)));
            assert(lookup(pm + tail, "msg_id"@) == Some(id_json(self.body.id)));
            assert("msg_id"@[0] != "in_reply_to"@[0]);
            assert(lookup(tail.drop_first(), "in_reply_to"@) == Some(id_json(self.body.in_reply_to)));
            assert(lookup(tail, "in_reply_to"@) == Some(id_json(self.body.in_reply_to)));
            assert(id_of(Some(id_json(self.body.id))) == Some(self.body.id));
            assert(id_of(Some(id_json(self.body.in_reply_to))) == Some(self.body.in_reply_to));
        }
        r
    }
}

} // verus!
