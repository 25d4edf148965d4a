//! Typed reading and writing of single JSON fields.
use vstd::prelude::*;
use crate::json::{Json, JsonV, view_fields, view_items, lemma_view_fields, lemma_view_items, lookup, str_of, find};

verus! {

/// Turns a found value into its model.
pub open spec fn opt_view(v: Option<&Json>) -> Option<JsonV> {
    match v {
        Some(x) => Some(x@),
        None => None,
    }
}

/// An unsigned integer that fits a `usize`.
pub open spec fn num_of(j: Option<JsonV>) -> Option<usize> {
    match j {
        Some(JsonV::Number(n)) => if n <= usize::MAX {
            Some(n as usize)
        } else {
            None
        },
        _ => None,
    }
}

/// An array of strings.
pub open spec fn texts_of(j: Option<JsonV>) -> Option<Seq<Seq<char>>> {
    match j {
        Some(JsonV::Array(items)) => if forall|i: int| 0 <= i < items.len() ==> #[trigger] items[i] is Str {
            Some(Seq::new(items.len(), |i: int| items[i]->Str_0))
        } else {
            None
        },
        _ => None,
    }
}

/// An array of unsigned integers that fit a `usize`.
pub open spec fn nums_of(j: Option<JsonV>) -> Option<Seq<usize>> {
    match j {
        Some(JsonV::Array(items)) => if forall|i: int|
            0 <= i < items.len() ==> #[trigger] num_of(Some(items[i])) is Some {
            Some(Seq::new(items.len(), |i: int| num_of(Some(items[i]))->0))
        } else {
            None
        },
        _ => None,
    }
}

/// An object whose every value is an array of strings.
pub open spec fn adjacency_of(j: Option<JsonV>) -> Option<Seq<(Seq<char>, Seq<Seq<char>>)>> {
    match j {
        Some(JsonV::Object(fs)) => if forall|i: int|
            0 <= i < fs.len() ==> #[trigger] texts_of(Some(fs[i].1)) is Some {
            Some(Seq::new(fs.len(), |i: int| (fs[i].0, texts_of(Some(fs[i].1))->0)))
        } else {
            None
        },
        _ => None,
    }
}

/// Whether the `type` field of a body's fields is the string `name`.
pub open spec fn has_tag(fs: Seq<(Seq<char>, JsonV)>, name: Seq<char>) -> bool {
    str_of(lookup(fs, "type"@)) == Some(name)
}

pub fn is_tag(fields: &Vec<(String, Json)>, name: &str) -> (r: bool)
    ensures
        r == has_tag(view_fields(fields@), name@),
{
    match find(fields, &"type".to_owned()) {
        Some(Json::Str(s)) => *s == name.to_owned(),
        _ => false,
    }
}

pub fn tag(name: &str) -> (r: (String, Json))
    ensures
        r.0@ == "type"@,
        r.1@ == JsonV::Str(name@),
{
    ("type".to_owned(), Json::Str(name.to_owned()))
}

pub fn decode_text(v: Option<&Json>) -> (r: Option<String>)
    ensures
        match r {
            Some(s) => str_of(opt_view(v)) == Some(s@),
            None => str_of(opt_view(v)) is None,
        },
{
    match v {
        Some(Json::Str(s)) => Some(s.clone()),
        _ => None,
    }
}

pub fn decode_num(v: Option<&Json>) -> (r: Option<usize>)
    ensures
        r == num_of(opt_view(v)),
{
    match v {
        Some(Json::Number(n)) => {
            if *n <= usize::MAX as u64 {
                Some(*n as usize)
            } else {
                None
            }
        },
        _ => None,
    }
}

pub fn encode_num(n: usize) -> (r: Json)
    ensures
        num_of(Some(r@)) == Some(n),
{
    Json::Number(n as u64)
}

pub fn decode_texts(v: Option<&Json>) -> (r: Option<Vec<String>>)
    ensures
        match r {
            Some(t) => texts_of(opt_view(v)) == Some(t.deep_view()),
            None => texts_of(opt_view(v)) is None,
        },
{
    let j = match v {
        Some(j) => j,
        None => {
            return None;
        },
    };
    let items = match j {
        Json::Array(items) => items,
        _ => {
            return None;
        },
    };
    assert(opt_view(v) == Some(JsonV::Array(view_items(items@))));
    proof {
        lemma_view_items(items@);
    }
    let ghost m = view_items(items@);
    let mut out: Vec<String> = Vec::new();
    let mut i: usize = 0;
    while i < items.len()
        invariant
            0 <= i <= items.len(),
            m.len() == items.len(),
            opt_view(v) == Some(JsonV::Array(m)),
            forall|k: int| 0 <= k < items.len() ==> #[trigger] m[k] == items@[k]@,
            out@.len() == i,
            forall|k: int| 0 <= k < i ==> #[trigger] m[k] is Str && out@[k]@ == m[k]->Str_0,
        decreases items.len() - i,
    {
        match &items[i] {
            Json::Str(s) => {
                out.push(s.clone());
            },
            _ => {
                assert(!(m[i as int] is Str));
                return None;
            },
        }
        i = i + 1;
    }
    assert(out.deep_view() =~= Seq::new(m.len(), |k: int| m[k]->Str_0));
    Some(out)
}

pub fn encode_texts(t: &Vec<String>) -> (r: Json)
    ensures
        texts_of(Some(r@)) == Some(t.deep_view()),
{
    let mut items: Vec<Json> = Vec::new();
    let mut i: usize = 0;
    while i < t.len()
        invariant
            0 <= i <= t.len(),
            items@.len() == i,
            forall|k: int| 0 <= k < i ==> #[trigger] items@[k]@ == JsonV::Str(t@[k]@),
        decreases t.len() - i,
    {
        items.push(Json::Str(t[i].clone()));
        i = i + 1;
    }
    proof {
        lemma_view_items(items@);
        let m = view_items(items@);
        assert forall|k: int| 0 <= k < m.len() implies #[trigger] m[k] is Str by {
            assert(m[k] == items@[k]@);
        }
        assert(Seq::new(m.len(), |k: int| m[k]->Str_0) =~= t.deep_view());
    }
    Json::Array(items)
}

pub fn decode_nums(v: Option<&Json>) -> (r: Option<Vec<usize>>)
    ensures
        match r {
            Some(t) => nums_of(opt_view(v)) == Some(t@),
            None => nums_of(opt_view(v)) is None,
        },
{
    let j = match v {
        Some(j) => j,
        None => {
            return None;
        },
    };
    let items = match j {
        Json::Array(items) => items,
        _ => {
            return None;
        },
    };
    assert(opt_view(v) == Some(JsonV::Array(view_items(items@))));
    proof {
        lemma_view_items(items@);
    }
    let ghost m = view_items(items@);
    let mut out: Vec<usize> = Vec::new();
    let mut i: usize = 0;
    while i < items.len()
        invariant
            0 <= i <= items.len(),
            m.len() == items.len(),
            opt_view(v) == Some(JsonV::Array(m)),
            forall|k: int| 0 <= k < items.len() ==> #[trigger] m[k] == items@[k]@,
            out@.len() == i,
            forall|k: int|
                0 <= k < i ==> #[trigger] num_of(Some(m[k])) == Some(out@[k]),
        decreases items.len() - i,
    {
        match decode_num(Some(&items[i])) {
            Some(n) => {
                out.push(n);
            },
            None => {
                assert(num_of(Some(m[i as int])) is None);
                return None;
            },
        }
        i = i + 1;
    }
    assert(out@ =~= Seq::new(m.len(), |k: int| num_of(Some(m[k]))->0));
    Some(out)
}

pub fn encode_nums(t: &Vec<usize>) -> (r: Json)
    ensures
        nums_of(Some(r@)) == Some(t@),
{
    let mut items: Vec<Json> = Vec::new();
    let mut i: usize = 0;
    while i < t.len()
        invariant
            0 <= i <= t.len(),
            items@.len() == i,
            forall|k: int| 0 <= k < i ==> #[trigger] num_of(Some(items@[k]@)) == Some(t@[k]),
        decreases t.len() - i,
    {
        items.push(encode_num(t[i]));
        i = i + 1;
    }
    proof {
        lemma_view_items(items@);
        let m = view_items(items@);
        assert forall|k: int| 0 <= k < m.len() implies #[trigger] num_of(Some(m[k])) is Some by {
            assert(m[k] == items@[k]@);
        }
        assert(Seq::new(m.len(), |k: int| num_of(Some(m[k]))->0) =~= t@);
    }
    Json::Array(items)
}

pub fn decode_adjacency(v: Option<&Json>) -> (r: Option<Vec<(String, Vec<String>)>>)
    ensures
        match r {
            Some(t) => adjacency_of(opt_view(v)) == Some(t.deep_view()),
            None => adjacency_of(opt_view(v)) is None,
        },
{
    let j = match v {
        Some(j) => j,
        None => {
            return None;
        },
    };
    let fs = match j {
        Json::Object(fs) => fs,
        _ => {
            return None;
        },
    };
    proof {
        lemma_view_fields(fs@);
    }
    let ghost m = view_fields(fs@);
    assert(opt_view(v) == Some(JsonV::Object(m)));
    let mut out: Vec<(String, Vec<String>)> = Vec::new();
    let mut i: usize = 0;
    while i < fs.len()
        invariant
            0 <= i <= fs.len(),
            m.len() == fs.len(),
            opt_view(v) == Some(JsonV::Object(m)),
            forall|k: int| 0 <= k < fs.len() ==> #[trigger] m[k] == (fs@[k].0@, fs@[k].1@),
            out@.len() == i,
            forall|k: int|
                0 <= k < i ==> #[trigger] texts_of(Some(m[k].1)) == Some(out@[k].1.deep_view())
                    && out@[k].0@ == m[k].0,
        decreases fs.len() - i,
    {
        match decode_texts(Some(&fs[i].1)) {
            Some(t) => {
                out.push((fs[i].0.clone(), t));
            },
            None => {
                assert(texts_of(Some(m[i as int].1)) is None);
                return None;
            },
        }
        i = i + 1;
    }
    assert(out.deep_view() =~= Seq::new(m.len(), |k: int| (m[k].0, texts_of(Some(m[k].1))->0)));
    Some(out)
}

pub fn encode_adjacency(t: &Vec<(String, Vec<String>)>) -> (r: Json)
    ensures
        adjacency_of(Some(r@)) == Some(t.deep_view()),
{
    let mut fs: Vec<(String, Json)> = Vec::new();
    let mut i: usize = 0;
    while i < t.len()
        invariant
            0 <= i <= t.len(),
            fs@.len() == i,
            forall|k: int|
                0 <= k < i ==> #[trigger] texts_of(Some(fs@[k].1@)) == Some(t@[k].1.deep_view())
                    && fs@[k].0@ == t@[k].0@,
        decreases t.len() - i,
    {
        fs.push((t[i].0.clone(), encode_texts(&t[i].1)));
        i = i + 1;
    }
    proof {
        lemma_view_fields(fs@);
        let m = view_fields(fs@);
        assert forall|k: int| 0 <= k < m.len() implies #[trigger] texts_of(Some(m[k].1)) is Some by {
            assert(m[k] == (fs@[k].0@, fs@[k].1@));
        }
        assert(Seq::new(m.len(), |k: int| (m[k].0, texts_of(Some(m[k].1))->0)) =~= t.deep_view());
    }
    Json::Object(fs)
}

} // verus!
