//! The structured value that documents are made of, with its mathematical model.
use vstd::prelude::*;

verus! {

/// A JSON number: a non-negative integer, a negative integer, or any other
/// number kept as its decimal text.
#[derive(Debug)]
pub enum JsonNumber {
    PosInt(u64),
    NegInt(i64),
    Float(String),
}

/// A structured value: null, boolean, number, string, array or object.
/// An object is the list of its members; a key is looked up at its first member.
#[derive(Debug)]
pub enum JsonValue {
    Null,
    Bool(bool),
    Number(JsonNumber),
    String(String),
    Array(Vec<JsonValue>),
    Object(Vec<(String, JsonValue)>),
}

/// Model of a number.
pub enum Num {
    PosInt(u64),
    NegInt(i64),
    Float(Seq<char>),
}

/// Model of a structured value.
pub enum Json {
    Null,
    Bool(bool),
    Num(Num),
    Str(Seq<char>),
    Arr(Seq<Json>),
    Obj(Seq<(Seq<char>, Json)>),
}

impl JsonNumber {
    pub open spec fn view(&self) -> Num {
        match self {
            JsonNumber::PosInt(u) => Num::PosInt(*u),
            JsonNumber::NegInt(i) => Num::NegInt(*i),
            JsonNumber::Float(s) => Num::Float(s@),
        }
    }
}

/// Models of an array's items.
pub open spec fn view_items(s: Seq<JsonValue>) -> Seq<Json>
    decreases s,
{
    if s.len() == 0 {
        Seq::empty()
    } else {
        view_items(s.drop_last()).push(s.last().view())
    }
}

/// Models of an object's members.
pub open spec fn view_members(s: Seq<(String, JsonValue)>) -> Seq<(Seq<char>, Json)>
    decreases s,
{
    if s.len() == 0 {
        Seq::empty()
    } else {
        view_members(s.drop_last()).push((s.last().0@, s.last().1.view()))
    }
}

impl JsonValue {
    pub open spec fn view(&self) -> Json
        decreases self,
    {
        match self {
            JsonValue::Null => Json::Null,
            JsonValue::Bool(b) => Json::Bool(*b),
            JsonValue::Number(n) => Json::Num(n.view()),
            JsonValue::String(s) => Json::Str(s@),
            JsonValue::Array(items) => Json::Arr(view_items(items@)),
            JsonValue::Object(members) => Json::Obj(view_members(members@)),
        }
    }
}


/// Length of the model of an array's items.
pub broadcast proof fn lemma_view_items_len(s: Seq<JsonValue>)
    ensures
        #[trigger] view_items(s).len() == s.len(),
    decreases s.len(),
{
    if s.len() > 0 {
        lemma_view_items_len(s.drop_last());
    }
}

/// Entries of the model of an array's items.
pub broadcast proof fn lemma_view_items_index(s: Seq<JsonValue>, i: int)
    requires
        0 <= i < s.len(),
    ensures
        #[trigger] view_items(s)[i] == s[i].view(),
    decreases s.len(),
{
    if i < s.len() - 1 {
        lemma_view_items_index(s.drop_last(), i);
    }
    lemma_view_items_len(s.drop_last());
}

/// Length of the model of an object's members.
pub broadcast proof fn lemma_view_members_len(s: Seq<(String, JsonValue)>)
    ensures
        #[trigger] view_members(s).len() == s.len(),
    decreases s.len(),
{
    if s.len() > 0 {
        lemma_view_members_len(s.drop_last());
    }
}

/// Entries of the model of an object's members.
pub broadcast proof fn lemma_view_members_index(s: Seq<(String, JsonValue)>, i: int)
    requires
        0 <= i < s.len(),
    ensures
        #[trigger] view_members(s)[i] == (s[i].0@, s[i].1.view()),
    decreases s.len(),
{
    if i < s.len() - 1 {
        lemma_view_members_index(s.drop_last(), i);
    }
    lemma_view_members_len(s.drop_last());
}

pub broadcast group group_json_view {
    lemma_view_items_len,
    lemma_view_items_index,
    lemma_view_members_len,
    lemma_view_members_index,
}

/// The value of the first member with key `k`.
pub open spec fn lookup(m: Seq<(Seq<char>, Json)>, k: Seq<char>) -> Option<Json>
    decreases m.len(),
{
    if m.len() == 0 {
        None
    } else if m[0].0 == k {
        Some(m[0].1)
    } else {
        lookup(m.drop_first(), k)
    }
}

/// Whether some member has key `k`.
pub open spec fn has_key(m: Seq<(Seq<char>, Json)>, k: Seq<char>) -> bool {
    exists|i: int| 0 <= i < m.len() && m[i].0 == k
}

/// The model of an optional reference.
pub open spec fn oview(o: Option<&JsonValue>) -> Option<Json> {
    match o {
        Some(v) => Some(v@),
        None => None,
    }
}

pub open spec fn is_str(o: Option<Json>) -> bool {
    o matches Some(Json::Str(_))
}

pub open spec fn is_num(o: Option<Json>) -> bool {
    o matches Some(Json::Num(_))
}

pub open spec fn is_bool(o: Option<Json>) -> bool {
    o matches Some(Json::Bool(_))
}

pub open spec fn is_obj(o: Option<Json>) -> bool {
    o matches Some(Json::Obj(_))
}

pub open spec fn is_arr(o: Option<Json>) -> bool {
    o matches Some(Json::Arr(_))
}

/// Every item is a string.
pub open spec fn all_str(s: Seq<Json>) -> bool {
    forall|i: int| 0 <= i < s.len() ==> s[i] is Str
}

/// An array of strings.
pub open spec fn is_str_array(o: Option<Json>) -> bool {
    o matches Some(Json::Arr(items)) && all_str(items)
}

/// Absent, null, or a string.
pub open spec fn opt_str(o: Option<Json>) -> bool {
    o is None || o == Some(Json::Null) || is_str(o)
}

/// Absent or a number.
pub open spec fn opt_num(o: Option<Json>) -> bool {
    o is None || is_num(o)
}

/// Absent or a boolean.
pub open spec fn opt_bool(o: Option<Json>) -> bool {
    o is None || is_bool(o)
}

/// Absent or an object.
pub open spec fn opt_obj(o: Option<Json>) -> bool {
    o is None || is_obj(o)
}

/// Absent or an array of strings.
pub open spec fn opt_str_array(o: Option<Json>) -> bool {
    o is None || is_str_array(o)
}

/// `m` without any member whose key is `k`.
pub open spec fn without(m: Seq<(Seq<char>, Json)>, k: Seq<char>) -> Seq<(Seq<char>, Json)>
    decreases m.len(),
{
    if m.len() == 0 {
        m
    } else if m[0].0 == k {
        without(m.drop_first(), k)
    } else {
        seq![m[0]] + without(m.drop_first(), k)
    }
}

/// `m` with the value of its first member `k` replaced by `v`, or with `(k, v)`
/// appended when there is no such member.
pub open spec fn with_member(m: Seq<(Seq<char>, Json)>, k: Seq<char>, v: Json) -> Seq<(Seq<char>, Json)>
    decreases m.len(),
{
    if m.len() == 0 {
        seq![(k, v)]
    } else if m[0].0 == k {
        seq![(k, v)] + m.drop_first()
    } else {
        seq![m[0]] + with_member(m.drop_first(), k, v)
    }
}

/// Index of the first member with key `k`, or -1.
pub open spec fn key_index(m: Seq<(Seq<char>, Json)>, k: Seq<char>) -> int
    decreases m.len(),
{
    if m.len() == 0 {
        -1
    } else if m[0].0 == k {
        0
    } else {
        let j = key_index(m.drop_first(), k);
        if j < 0 {
            -1
        } else {
            j + 1
        }
    }
}

/// The keys of an object's members, in order.
pub open spec fn member_keys(m: Seq<(Seq<char>, Json)>) -> Seq<Seq<char>> {
    m.map_values(|p: (Seq<char>, Json)| p.0)
}

impl Json {
    /// The member `k` of an object; `None` for a missing key or a value that is no object.
    pub open spec fn get(self, k: Seq<char>) -> Option<Json> {
        match self {
            Json::Obj(m) => lookup(m, k),
            _ => None,
        }
    }
}

} // verus!
