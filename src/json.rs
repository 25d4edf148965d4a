//! A JSON document as the protocol reads and writes it, and its model.
use vstd::prelude::*;

verus! {

broadcast use vstd::std_specs::vec::group_vec_axioms;

/// A JSON value. Numbers that are not unsigned 64-bit integers are kept only
/// as such: nothing in the protocol reads them.
#[derive(Debug)]
pub enum Json {
    Null,
    Bool(bool),
    Number(u64),
    OtherNumber,
    Str(String),
    Array(Vec<Json>),
    Object(Vec<(String, Json)>),
}

/// The mathematical model of a JSON value.
pub enum JsonV {
    Null,
    Bool(bool),
    Number(u64),
    OtherNumber,
    Str(Seq<char>),
    Array(Seq<JsonV>),
    Object(Seq<(Seq<char>, JsonV)>),
}

pub open spec fn view_items(s: Seq<Json>) -> Seq<JsonV>
    decreases s,
{
    if s.len() == 0 {
        Seq::empty()
    } else {
        seq![s[0].view()] + view_items(s.drop_first())
    }
}

pub open spec fn view_fields(s: Seq<(String, Json)>) -> Seq<(Seq<char>, JsonV)>
    decreases s,
{
    if s.len() == 0 {
        Seq::empty()
    } else {
        seq![(s[0].0@, s[0].1.view())] + view_fields(s.drop_first())
    }
}

impl View for Json {
    type V = JsonV;

    open spec fn view(&self) -> JsonV
        decreases self,
    {
        match self {
            Json::Null => JsonV::Null,
            Json::Bool(b) => JsonV::Bool(*b),
            Json::Number(n) => JsonV::Number(*n),
            Json::OtherNumber => JsonV::OtherNumber,
            Json::Str(s) => JsonV::Str(s@),
            Json::Array(v) => JsonV::Array(view_items(v@)),
            Json::Object(fs) => JsonV::Object(view_fields(fs@)),
        }
    }
}


/// The value under `key` in an object's fields: the first field of that name.
pub open spec fn lookup(fs: Seq<(Seq<char>, JsonV)>, key: Seq<char>) -> Option<JsonV>
    decreases fs.len(),
{
    if fs.len() == 0 {
        None
    } else if fs[0].0 == key {
        Some(fs[0].1)
    } else {
        lookup(fs.drop_first(), key)
    }
}

/// The value under `key` when `j` is an object.
pub open spec fn field(j: JsonV, key: Seq<char>) -> Option<JsonV> {
    match j {
        JsonV::Object(fs) => lookup(fs, key),
        _ => None,
    }
}

/// The text of a value that is a string.
pub open spec fn str_of(j: Option<JsonV>) -> Option<Seq<char>> {
    match j {
        Some(JsonV::Str(s)) => Some(s),
        _ => None,
    }
}

pub proof fn lemma_view_items(s: Seq<Json>)
    ensures
        view_items(s).len() == s.len(),
        forall|i: int| 0 <= i < s.len() ==> #[trigger] view_items(s)[i] == s[i]@,
    decreases s.len(),
{
    if s.len() > 0 {
        lemma_view_items(s.drop_first());
        assert(view_items(s) == seq![s[0]@] + view_items(s.drop_first()));
        assert forall|i: int| 0 <= i < s.len() implies #[trigger] view_items(s)[i] == s[i]@ by {
            if i > 0 {
                assert(s.drop_first()[i - 1] == s[i]);
            }
        }
    }
}

pub proof fn lemma_view_fields(s: Seq<(String, Json)>)
    ensures
        view_fields(s).len() == s.len(),
        forall|i: int|
            0 <= i < s.len() ==> #[trigger] view_fields(s)[i] == (s[i].0@, s[i].1@),
    decreases s.len(),
{
    if s.len() > 0 {
        lemma_view_fields(s.drop_first());
        assert(view_fields(s) == seq![(s[0].0@, s[0].1@)] + view_fields(s.drop_first()));
        assert forall|i: int| 0 <= i < s.len() implies #[trigger] view_fields(s)[i] == (
        s[i].0@, s[i].1@) by {
            if i > 0 {
                assert(s.drop_first()[i - 1] == s[i]);
            }
        }
    }
}

/// A lookup that finds its key in `a` is not affected by what follows `a`.
pub proof fn lemma_lookup_prefix(
    a: Seq<(Seq<char>, JsonV)>,
    b: Seq<(Seq<char>, JsonV)>,
    key: Seq<char>,
)
    requires
        lookup(a, key) is Some,
    ensures
        lookup(a + b, key) == lookup(a, key),
    decreases a.len(),
{
    if a[0].0 != key {
        assert((a + b).drop_first() =~= a.drop_first() + b);
        lemma_lookup_prefix(a.drop_first(), b, key);
    }
}

/// A lookup that does not find its key in `a` goes on in what follows `a`.
pub proof fn lemma_lookup_skip(a: Seq<(Seq<char>, JsonV)>, b: Seq<(Seq<char>, JsonV)>, key: Seq<char>)
    requires
        lookup(a, key) is None,
    ensures
        lookup(a + b, key) == lookup(b, key),
    decreases a.len(),
{
    if a.len() == 0 {
        assert(a + b =~= b);
    } else {
        assert((a + b).drop_first() =~= a.drop_first() + b);
        lemma_lookup_skip(a.drop_first(), b, key);
    }
}

/// The first field named `key` gives the value under it.
pub proof fn lemma_lookup_at(fs: Seq<(Seq<char>, JsonV)>, key: Seq<char>, i: int)
    requires
        0 <= i < fs.len(),
        fs[i].0 == key,
        forall|j: int| 0 <= j < i ==> #[trigger] fs[j].0 != key,
    ensures
        lookup(fs, key) == Some(fs[i].1),
    decreases i,
{
    if i > 0 {
        assert forall|j: int| 0 <= j < i - 1 implies #[trigger] fs.drop_first()[j].0 != key by {
            assert(fs.drop_first()[j] == fs[j + 1]);
        }
        lemma_lookup_at(fs.drop_first(), key, i - 1);
    }
}

/// In fields whose names are all different, each name finds its own value,
/// whatever fields follow.
pub proof fn lemma_lookup_distinct(fs: Seq<(Seq<char>, JsonV)>, rest: Seq<(Seq<char>, JsonV)>)
    requires
        forall|i: int, j: int| 0 <= i < j < fs.len() ==> fs[i].0 != fs[j].0,
    ensures
        forall|i: int|
            0 <= i < fs.len() ==> #[trigger] lookup(fs + rest, fs[i].0) == Some(fs[i].1),
{
    assert forall|i: int| 0 <= i < fs.len() implies #[trigger] lookup(fs + rest, fs[i].0) == Some(
        fs[i].1) by {
        let all = fs + rest;
        assert forall|j: int| 0 <= j < i implies #[trigger] all[j].0 != fs[i].0 by {
            assert(all[j] == fs[j]);
        }
        lemma_lookup_at(all, fs[i].0, i);
    }
}

/// No field named `key`, no value under it.
pub proof fn lemma_lookup_absent(fs: Seq<(Seq<char>, JsonV)>, key: Seq<char>)
    requires
        forall|i: int| 0 <= i < fs.len() ==> #[trigger] fs[i].0 != key,
    ensures
        lookup(fs, key) is None,
    decreases fs.len(),
{
    if fs.len() > 0 {
        assert forall|i: int| 0 <= i < fs.len() - 1 implies #[trigger] fs.drop_first()[i].0
            != key by {
            assert(fs.drop_first()[i] == fs[i + 1]);
        }
        lemma_lookup_absent(fs.drop_first(), key);
    }
}

/// Finds the value under `key` among an object's fields.
pub fn find<'a>(fields: &'a Vec<(String, Json)>, key: &String) -> (r: Option<&'a Json>)
    ensures
        match r {
            Some(v) => lookup(view_fields(fields@), key@) == Some(v@),
            None => lookup(view_fields(fields@), key@) is None,
        },
{
    proof {
        lemma_view_fields(fields@);
    }
    let ghost m = view_fields(fields@);
    assert(m.subrange(0, m.len() as int) =~= m);
    let mut i: usize = 0;
    while i < fields.len()
        invariant
            0 <= i <= fields.len(),
            m == view_fields(fields@),
            m.len() == fields.len(),
            forall|k: int| 0 <= k < fields.len() ==> #[trigger] m[k] == (fields@[k].0@, fields@[k].1@),
            lookup(m, key@) == lookup(m.subrange(i as int, m.len() as int), key@),
        decreases fields.len() - i,
    {
        let ghost rest = m.subrange(i as int, m.len() as int);
        assert(rest[0] == m[i as int]);
        if fields[i].0 == *key {
            return Some(&fields[i].1);
        }
        assert(rest.drop_first() =~= m.subrange(i + 1, m.len() as int));
        i = i + 1;
    }
    None
}

} // verus!
