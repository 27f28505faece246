//! A JSON value as the bridge reads and writes it.
use vstd::prelude::*;
use crate::text::{copy, owned, str_eq};

verus! {

/// A JSON number: an integer when it fits one, else its decimal text as the
/// wire carried it.
#[derive(Clone, Debug, PartialEq, Eq)]
pub enum Number {
    Unsigned(u64),
    Signed(i64),
    Decimal(String),
}

/// A JSON value. Object members keep their order.
#[derive(Debug)]
pub enum Json {
    Null,
    Bool(bool),
    Number(Number),
    Text(String),
    Array(Vec<Json>),
    Object(Vec<(String, Json)>),
}

/// The content of a [`Number`].
pub enum NumberView {
    Unsigned(u64),
    Signed(i64),
    Decimal(Seq<char>),
}

/// The content of a [`Json`] value.
pub enum JsonView {
    Null,
    Bool(bool),
    Number(NumberView),
    Text(Seq<char>),
    Array(Seq<JsonView>),
    Object(Seq<(Seq<char>, JsonView)>),
}

impl View for Json {
    type V = JsonView;

    open spec fn view(&self) -> JsonView {
        jv(*self)
    }
}

pub open spec fn number_view(n: Number) -> NumberView {
    match n {
        Number::Unsigned(u) => NumberView::Unsigned(u),
        Number::Signed(i) => NumberView::Signed(i),
        Number::Decimal(s) => NumberView::Decimal(s@),
    }
}

/// The content of a JSON value.
pub open spec fn jv(j: Json) -> JsonView
    decreases j,
{
    match j {
        Json::Null => JsonView::Null,
        Json::Bool(b) => JsonView::Bool(b),
        Json::Number(n) => JsonView::Number(number_view(n)),
        Json::Text(s) => JsonView::Text(s@),
        Json::Array(items) => JsonView::Array(
            Seq::new(items@.len(), |i: int| if 0 <= i < items@.len() { jv(items@[i]) } else { JsonView::Null }),
        ),
        Json::Object(fields) => JsonView::Object(
            Seq::new(
                fields@.len(),
                |i: int| if 0 <= i < fields@.len() { (fields@[i].0@, jv(fields@[i].1)) } else { (Seq::empty(), JsonView::Null) },
            ),
        ),
    }
}

/// The index of the first member of `fs`, at or after `from`, named `key`.
pub open spec fn first_key(fs: Seq<(Seq<char>, JsonView)>, key: Seq<char>, from: int) -> Option<int>
    decreases fs.len() - from,
{
    if from < 0 || from >= fs.len() {
        None
    } else if fs[from].0 == key {
        Some(from)
    } else {
        first_key(fs, key, from + 1)
    }
}

/// `j[key]`: the member named `key` of an object, or null.
pub open spec fn member(j: JsonView, key: Seq<char>) -> JsonView {
    match j {
        JsonView::Object(fs) => match first_key(fs, key, 0) {
            Some(i) => fs[i].1,
            None => JsonView::Null,
        },
        _ => JsonView::Null,
    }
}

/// `j.as_str()`.
pub open spec fn text_of(j: JsonView) -> Option<Seq<char>> {
    match j {
        JsonView::Text(s) => Some(s),
        _ => None,
    }
}

/// `j[key].as_str().unwrap_or("")`.
pub open spec fn text_or_blank(j: JsonView, key: Seq<char>) -> Seq<char> {
    match text_of(member(j, key)) {
        Some(s) => s,
        None => Seq::empty(),
    }
}

/// `j.as_u64()`.
pub open spec fn u64_of(j: JsonView) -> Option<u64> {
    match j {
        JsonView::Number(NumberView::Unsigned(n)) => Some(n),
        JsonView::Number(NumberView::Signed(i)) => if i >= 0 {
            Some(i as u64)
        } else {
            None
        },
        _ => None,
    }
}

/// `j.as_bool()`.
pub open spec fn bool_of(j: JsonView) -> Option<bool> {
    match j {
        JsonView::Bool(b) => Some(b),
        _ => None,
    }
}

/// `j.as_array()`.
pub open spec fn array_of(j: JsonView) -> Option<Seq<JsonView>> {
    match j {
        JsonView::Array(items) => Some(items),
        _ => None,
    }
}

/// `j.as_f64()`, as the number it would be read from.
pub open spec fn number_of(j: JsonView) -> Option<NumberView> {
    match j {
        JsonView::Number(n) => Some(n),
        _ => None,
    }
}

/// The member named `key` of `j`, when `j` is an object that has one.
pub fn get<'a>(j: &'a Json, key: &str) -> (r: Option<&'a Json>)
    ensures
        match r {
            Some(v) => jv(*v) == member(jv(*j), key@),
            None => member(jv(*j), key@) == JsonView::Null,
        },
{
    match j {
        Json::Object(fields) => {
            let ghost fs = match jv(*j) {
                JsonView::Object(fs) => fs,
                _ => Seq::empty(),
            };
            assert(fs.len() == fields@.len());
            let mut i: usize = 0;
            while i < fields.len()
                invariant
                    i <= fields@.len(),
                    fs.len() == fields@.len(),
                    jv(*j) == JsonView::Object(fs),
                    forall|k: int| 0 <= k < fields@.len() ==> (#[trigger] fs[k]) == (fields@[k].0@, jv(fields@[k].1)),
                    first_key(fs, key@, 0) == first_key(fs, key@, i as int),
                decreases fields.len() - i,
            {
                if str_eq(fields[i].0.as_str(), key) {
                    return Some(&fields[i].1);
                }
                i = i + 1;
            }
            None
        },
        _ => None,
    }
}

/// `j[key].as_str()`, copied out.
pub fn text_at(j: &Json, key: &str) -> (r: Option<String>)
    ensures
        match r {
            Some(s) => text_of(member(jv(*j), key@)) == Some(s@),
            None => text_of(member(jv(*j), key@)) is None,
        },
{
    match get(j, key) {
        Some(Json::Text(s)) => Some(copy(s)),
        _ => None,
    }
}

/// `j[key].as_str().unwrap_or("")`, copied out.
pub fn text_or_empty(j: &Json, key: &str) -> (r: String)
    ensures
        r@ == text_or_blank(jv(*j), key@),
{
    match text_at(j, key) {
        Some(s) => s,
        None => String::new(),
    }
}

/// `j[key].as_u64()`.
pub fn u64_at(j: &Json, key: &str) -> (r: Option<u64>)
    ensures
        r == u64_of(member(jv(*j), key@)),
{
    match get(j, key) {
        Some(Json::Number(Number::Unsigned(n))) => Some(*n),
        Some(Json::Number(Number::Signed(i))) => if *i >= 0 {
            Some(*i as u64)
        } else {
            None
        },
        _ => None,
    }
}

/// `j[key].as_bool()`.
pub fn bool_at(j: &Json, key: &str) -> (r: Option<bool>)
    ensures
        r == bool_of(member(jv(*j), key@)),
{
    match get(j, key) {
        Some(Json::Bool(b)) => Some(*b),
        _ => None,
    }
}

/// `j[key].as_array()`.
pub fn array_at<'a>(j: &'a Json, key: &str) -> (r: Option<&'a Vec<Json>>)
    ensures
        match r {
            Some(items) => array_of(member(jv(*j), key@)) is Some && {
                let a = array_of(member(jv(*j), key@))->0;
                &&& a.len() == items@.len()
                &&& forall|k: int| 0 <= k < a.len() ==> #[trigger] a[k] == jv(items@[k])
            },
            None => array_of(member(jv(*j), key@)) is None,
        },
{
    match get(j, key) {
        Some(Json::Array(items)) => {
            Some(items)
        },
        _ => None,
    }
}

/// A copy of a number.
pub fn copy_number(n: &Number) -> (r: Number)
    ensures
        number_view(r) == number_view(*n),
{
    match n {
        Number::Unsigned(u) => Number::Unsigned(*u),
        Number::Signed(i) => Number::Signed(*i),
        Number::Decimal(s) => Number::Decimal(copy(s)),
    }
}

/// `j[key].as_f64()`, as the number it would be read from.
pub fn number_at(j: &Json, key: &str) -> (r: Option<Number>)
    ensures
        match r {
            Some(n) => number_of(member(jv(*j), key@)) == Some(number_view(n)),
            None => number_of(member(jv(*j), key@)) is None,
        },
{
    match get(j, key) {
        Some(Json::Number(n)) => Some(copy_number(n)),
        _ => None,
    }
}

/// A copy of a JSON value.
pub fn copy_json(j: &Json) -> (r: Json)
    ensures
        jv(r) == jv(*j),
    decreases j,
{
    match j {
        Json::Null => Json::Null,
        Json::Bool(b) => Json::Bool(*b),
        Json::Number(n) => Json::Number(copy_number(n)),
        Json::Text(s) => Json::Text(copy(s)),
        Json::Array(items) => {
            let mut out: Vec<Json> = Vec::new();
            let mut i: usize = 0;
            while i < items.len()
                invariant
                    i <= items@.len(),
                    out@.len() == i,
                    *j is Array && j->Array_0 == *items,
                    forall|k: int| 0 <= k < i ==> jv(#[trigger] out@[k]) == jv(items@[k]),
                decreases items.len() - i,
            {
                proof {
                    vstd::std_specs::vec::axiom_vec_index_decreases(*items, i as int);
                    assert(decreases_to!(*j => j->Array_0));
                    assert(decreases_to!(*j => items[i as int]));
                }
                let c = copy_json(&items[i]);
                out.push(c);
                i = i + 1;
            }
            let r = Json::Array(out);
            assert(jv(r) == jv(*j)) by {
                if let JsonView::Array(a) = jv(r) {
                    if let JsonView::Array(b) = jv(*j) {
                        assert(a =~= b);
                    }
                }
            }
            r
        },
        Json::Object(fields) => {
            let mut out: Vec<(String, Json)> = Vec::new();
            let mut i: usize = 0;
            while i < fields.len()
                invariant
                    i <= fields@.len(),
                    out@.len() == i,
                    *j is Object && j->Object_0 == *fields,
                    forall|k: int| 0 <= k < i ==> (#[trigger] out@[k]).0@ == fields@[k].0@ && jv(out@[k].1) == jv(fields@[k].1),
                decreases fields.len() - i,
            {
                proof {
                    vstd::std_specs::vec::axiom_vec_index_decreases(*fields, i as int);
                    assert(decreases_to!(*j => j->Object_0));
                    assert(decreases_to!(*j => fields[i as int]));
                    assert(decreases_to!(*j => fields[i as int].1));
                }
                let c = copy_json(&fields[i].1);
                out.push((copy(&fields[i].0), c));
                i = i + 1;
            }
            let r = Json::Object(out);
            assert(jv(r) == jv(*j)) by {
                if let JsonView::Object(a) = jv(r) {
                    if let JsonView::Object(b) = jv(*j) {
                        assert(a =~= b);
                    }
                }
            }
            r
        },
    }
}

/// The content of a list of members.
pub open spec fn members_view(fs: Seq<(String, Json)>) -> Seq<(Seq<char>, JsonView)> {
    Seq::new(fs.len(), |i: int| (fs[i].0@, jv(fs[i].1)))
}

/// An object with the given members.
pub fn object(fields: Vec<(String, Json)>) -> (r: Json)
    ensures
        jv(r) == JsonView::Object(members_view(fields@)),
{
    let r = Json::Object(fields);
    proof {
        if let JsonView::Object(a) = jv(r) {
            assert(a =~= members_view(fields@));
        }
    }
    r
}

/// A member holding a string.
pub fn text_member(key: &str, value: String) -> (m: (String, Json))
    ensures
        m.0@ == key@,
        jv(m.1) == JsonView::Text(value@),
{
    (owned(key), Json::Text(value))
}

/// A member holding an unsigned integer.
pub fn u64_member(key: &str, value: u64) -> (m: (String, Json))
    ensures
        m.0@ == key@,
        jv(m.1) == JsonView::Number(NumberView::Unsigned(value)),
{
    (owned(key), Json::Number(Number::Unsigned(value)))
}

} // verus!
