use vstd::prelude::*;

use crate::chars::str_eq;

verus! {

broadcast use vstd::std_specs::vec::group_vec_axioms;

/// A JSON number, held as serde_json holds it: a non-negative integer, a
/// negative integer, or a finite binary64 floating-point number kept as its
/// IEEE 754 bits.
#[derive(Debug, Clone, Copy, PartialEq, Eq, Structural)]
pub enum Number {
    PosInt(u64),
    NegInt(i64),
    Float(u64),
}

/// A JSON value as Home Assistant sends and receives it.
#[derive(Debug, PartialEq)]
pub enum Json {
    Null,
    Bool(bool),
    Number(Number),
    Str(String),
    Array(Vec<Json>),
    Object(JsonMap),
}

/// The members of a JSON object, in the order given.
#[derive(Debug, PartialEq)]
pub struct JsonMap {
    pub entries: Vec<(String, Json)>,
}

/// The mathematical value of a JSON value.
pub enum JsonView {
    Null,
    Bool(bool),
    Number(Number),
    Str(Seq<char>),
    Array(Seq<JsonView>),
    Object(Seq<(Seq<char>, JsonView)>),
}

/// The value of a JSON value.
pub open spec fn jv(j: Json) -> JsonView
    decreases j,
{
    match j {
        Json::Null => JsonView::Null,
        Json::Bool(b) => JsonView::Bool(b),
        Json::Number(n) => JsonView::Number(n),
        Json::Str(s) => JsonView::Str(s@),
        Json::Array(items) => JsonView::Array(
            Seq::new(
                items@.len(),
                |i: int|
                    if 0 <= i < items@.len() {
                        jv(items@[i])
                    } else {
                        JsonView::Null
                    },
            ),
        ),
        Json::Object(m) => JsonView::Object(members_view(m.entries@)),
    }
}

/// The value of the members of an object.
pub open spec fn members_view(entries: Seq<(String, Json)>) -> Seq<(Seq<char>, JsonView)>
    decreases entries,
{
    Seq::new(
        entries.len(),
        |i: int|
            if 0 <= i < entries.len() {
                (entries[i].0@, jv(entries[i].1))
            } else {
                (Seq::empty(), JsonView::Null)
            },
    )
}

impl View for Json {
    type V = JsonView;

    open spec fn view(&self) -> JsonView {
        jv(*self)
    }
}

/// The value of the first member named `key`.
pub open spec fn map_get(entries: Seq<(Seq<char>, JsonView)>, key: Seq<char>) -> Option<JsonView>
    decreases entries.len(),
{
    if entries.len() == 0 {
        None
    } else if entries[0].0 == key {
        Some(entries[0].1)
    } else {
        map_get(entries.drop_first(), key)
    }
}

/// The member `key` of an object; nothing for any other value.
pub open spec fn json_get(v: JsonView, key: Seq<char>) -> Option<JsonView> {
    match v {
        JsonView::Object(m) => map_get(m, key),
        _ => None,
    }
}

/// The text of a string value.
pub open spec fn json_as_str(v: JsonView) -> Option<Seq<char>> {
    match v {
        JsonView::Str(s) => Some(s),
        _ => None,
    }
}

/// A number that is a non-negative integer (serde_json's `as_u64`).
pub open spec fn json_as_u64(v: JsonView) -> Option<u64> {
    match v {
        JsonView::Number(Number::PosInt(u)) => Some(u),
        _ => None,
    }
}

/// A boolean value.
pub open spec fn json_as_bool(v: JsonView) -> Option<bool> {
    match v {
        JsonView::Bool(b) => Some(b),
        _ => None,
    }
}

/// The member `key` of `v`, if `v` is an object that has one.
pub open spec fn get_opt(v: Option<JsonView>, key: Seq<char>) -> Option<JsonView> {
    match v {
        Some(v) => json_get(v, key),
        None => None,
    }
}

/// The text of `v`, if it is a string.
pub open spec fn as_str_opt(v: Option<JsonView>) -> Option<Seq<char>> {
    match v {
        Some(v) => json_as_str(v),
        None => None,
    }
}

/// The value of an optional borrowed JSON value.
pub open spec fn opt_view(v: Option<&Json>) -> Option<JsonView> {
    match v {
        Some(v) => Some(v@),
        None => None,
    }
}

impl JsonMap {
    pub fn new() -> (r: JsonMap)
        ensures
            r.entries@.len() == 0,
    {
        JsonMap { entries: Vec::new() }
    }

    /// The value of the first member named `key`.
    pub fn get(&self, key: &str) -> (r: Option<&Json>)
        ensures
            opt_view(r) == map_get(members_view(self.entries@), key@),
    {
        let ghost mv = members_view(self.entries@);
        let mut i: usize = 0;
        assert(mv.skip(0) =~= mv);
        while i < self.entries.len()
            invariant
                mv == members_view(self.entries@),
                i <= self.entries@.len(),
                map_get(mv, key@) == map_get(mv.skip(i as int), key@),
            decreases self.entries@.len() - i,
        {
            assert(mv.skip(i as int)[0] == mv[i as int]);
            if str_eq(self.entries[i].0.as_str(), key) {
                return Some(&self.entries[i].1);
            }
            assert(mv.skip(i as int).drop_first() =~= mv.skip(i + 1));
            i = i + 1;
        }
        None
    }

    /// Whether there is a member named `key`.
    pub fn contains_key(&self, key: &str) -> (r: bool)
        ensures
            r == (map_get(members_view(self.entries@), key@) is Some),
    {
        self.get(key).is_some()
    }
}

impl Json {
    /// The member `key` of an object; `None` for any other value.
    pub fn get(&self, key: &str) -> (r: Option<&Json>)
        ensures
            opt_view(r) == json_get(self@, key@),
    {
        match self {
            Json::Object(m) => m.get(key),
            _ => None,
        }
    }

    /// The text of a string value.
    pub fn as_str(&self) -> (r: Option<&str>)
        ensures
            match r {
                Some(s) => json_as_str(self@) == Some(s@),
                None => json_as_str(self@) is None,
            },
    {
        match self {
            Json::Str(s) => Some(s.as_str()),
            _ => None,
        }
    }

    /// A non-negative integer number.
    pub fn as_u64(&self) -> (r: Option<u64>)
        ensures
            r == json_as_u64(self@),
    {
        match self {
            Json::Number(Number::PosInt(u)) => Some(*u),
            _ => None,
        }
    }

    /// A boolean value.
    pub fn as_bool(&self) -> (r: Option<bool>)
        ensures
            r == json_as_bool(self@),
    {
        match self {
            Json::Bool(b) => Some(*b),
            _ => None,
        }
    }

    /// Whether this is `null`.
    pub fn is_null(&self) -> (r: bool)
        ensures
            r == (self@ is Null),
    {
        match self {
            Json::Null => true,
            _ => false,
        }
    }
}

/// A copy of a JSON value.
pub fn clone_json(v: &Json) -> (r: Json)
    ensures
        r@ == v@,
    decreases *v,
{
    match v {
        Json::Null => Json::Null,
        Json::Bool(b) => Json::Bool(*b),
        Json::Number(n) => Json::Number(*n),
        Json::Str(s) => Json::Str(s.clone()),
        Json::Array(items) => {
            let mut out: Vec<Json> = Vec::new();
            let mut i: usize = 0;
            while i < items.len()
                invariant
                    *v == Json::Array(*items),
                    i <= items@.len(),
                    out@.len() == i,
                    forall|j: int| 0 <= j < i ==> (#[trigger] out@[j])@ == items@[j]@,
                decreases items@.len() - i,
            {
                assert(decreases_to!(*v => v->Array_0));
                assert(decreases_to!(v->Array_0 => items@));
                assert(decreases_to!(items@ => items@[i as int]));
                let c = clone_json(&items[i]);
                out.push(c);
                i = i + 1;
            }
            let r = Json::Array(out);
            proof {
                let a1 = jv(r)->Array_0;
                let a2 = jv(*v)->Array_0;
                assert(a1.len() == out@.len());
                assert(a2.len() == items@.len());
                assert forall|j: int| 0 <= j < a1.len() implies a1[j] == a2[j] by {
                    assert(a1[j] == jv(out@[j]));
                    assert(a2[j] == jv(items@[j]));
                }
                assert(a1 =~= a2);
            }
            r
        },
        Json::Object(m) => {
            let mut out: Vec<(String, Json)> = Vec::new();
            let mut i: usize = 0;
            while i < m.entries.len()
                invariant
                    *v == Json::Object(*m),
                    i <= m.entries@.len(),
                    out@.len() == i,
                    forall|j: int| 0 <= j < i ==> (#[trigger] out@[j]).0@ == m.entries@[j].0@ && out@[j].1@ == m.entries@[j].1@,
                decreases m.entries@.len() - i,
            {
                assert(decreases_to!(*v => v->Object_0));
                assert(decreases_to!(v->Object_0 => m.entries));
                assert(decreases_to!(m.entries => m.entries@));
                assert(decreases_to!(m.entries@ => m.entries@[i as int]));
                assert(decreases_to!(m.entries@[i as int] => m.entries@[i as int].1));
                let c = clone_json(&m.entries[i].1);
                out.push((m.entries[i].0.clone(), c));
                i = i + 1;
            }
            let r = Json::Object(JsonMap { entries: out });
            proof {
                assert(members_view(out@) =~= members_view(m.entries@));
            }
            r
        },
    }
}

} // verus!
