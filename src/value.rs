//! Operations on structured values.
use vstd::prelude::*;

use crate::json::{
    group_json_view, has_key, is_arr, is_bool, is_num, is_obj, is_str, is_str_array,
    key_index, lookup, with_member, without, opt_bool, opt_num, opt_obj, opt_str, opt_str_array, oview, view_items, view_members, Json, JsonNumber, JsonValue, Num,
};

verus! {

broadcast use group_json_view;

pub proof fn lemma_lookup_some(m: Seq<(Seq<char>, Json)>, k: Seq<char>)
    ensures
        lookup(m, k) is Some <==> has_key(m, k),
        lookup(m, k) is Some ==> exists|i: int|
            0 <= i < m.len() && m[i].0 == k && m[i].1 == lookup(m, k)->0,
    decreases m.len(),
{
    if m.len() > 0 {
        lemma_lookup_some(m.drop_first(), k);
        if m[0].0 != k {
            if has_key(m, k) {
                let i = choose|i: int| 0 <= i < m.len() && m[i].0 == k;
                assert(m.drop_first()[i - 1].0 == k);
            }
            if lookup(m, k) is Some {
                let j = choose|j: int|
                    0 <= j < m.drop_first().len() && m.drop_first()[j].0 == k
                        && m.drop_first()[j].1 == lookup(m, k)->0;
                assert(m[j + 1] == m.drop_first()[j]);
            }
        }
    }
}

/// The first member of `members` whose key is `key`.
pub fn get_member<'a>(members: &'a Vec<(String, JsonValue)>, key: &str) -> (r: Option<&'a JsonValue>)
    ensures
        oview(r) == lookup(view_members(members@), key@),
{
    let ghost m = view_members(members@);
    let k = key.to_owned();
    let mut i: usize = 0;
    assert(m.subrange(0, m.len() as int) =~= m);
    while i < members.len()
        invariant
            0 <= i <= members.len(),
            m == view_members(members@),
            m.len() == members@.len(),
            k@ == key@,
            lookup(m, key@) == lookup(m.subrange(i as int, m.len() as int), key@),
        decreases members.len() - i,
    {
        proof {
            assert(m.subrange(i as int, m.len() as int).drop_first() =~= m.subrange(
                i + 1,
                m.len() as int,
            ));
        }
        if members[i].0 == k {
            return Some(&members[i].1);
        }
        i += 1;
    }
    None
}

impl JsonNumber {
    pub fn copy(&self) -> (r: JsonNumber)
        ensures
            r.view() == self.view(),
    {
        match self {
            JsonNumber::PosInt(u) => JsonNumber::PosInt(*u),
            JsonNumber::NegInt(i) => JsonNumber::NegInt(*i),
            JsonNumber::Float(s) => JsonNumber::Float(s.clone()),
        }
    }

    pub fn equals(&self, other: &JsonNumber) -> (r: bool)
        ensures
            r == (self.view() == other.view()),
    {
        match (self, other) {
            (JsonNumber::PosInt(a), JsonNumber::PosInt(b)) => *a == *b,
            (JsonNumber::NegInt(a), JsonNumber::NegInt(b)) => *a == *b,
            (JsonNumber::Float(a), JsonNumber::Float(b)) => *a == *b,
            _ => false,
        }
    }
}

impl JsonNumber {
    /// Whether this is the integer zero.
    pub fn is_zero(&self) -> (r: bool)
        ensures
            r == (self.view() == Num::PosInt(0) || self.view() == Num::NegInt(0)),
    {
        match self {
            JsonNumber::PosInt(u) => *u == 0,
            JsonNumber::NegInt(i) => *i == 0,
            JsonNumber::Float(_) => false,
        }
    }
}

impl JsonValue {
    /// The member `key` of an object; `None` for a missing key or a value that is no object.
    pub fn get(&self, key: &str) -> (r: Option<&JsonValue>)
        ensures
            oview(r) == self@.get(key@),
    {
        match self {
            JsonValue::Object(members) => get_member(members, key),
            _ => None,
        }
    }

    /// The text of a string value.
    pub fn as_str(&self) -> (r: Option<&str>)
        ensures
            match r {
                Some(s) => self@ == Json::Str(s@),
                None => !(self@ is Str),
            },
    {
        match self {
            JsonValue::String(s) => Some(s.as_str()),
            _ => None,
        }
    }

    /// The members of an object value.
    pub fn as_object(&self) -> (r: Option<&Vec<(String, JsonValue)>>)
        ensures
            match r {
                Some(m) => self@ == Json::Obj(view_members(m@)),
                None => !(self@ is Obj),
            },
    {
        match self {
            JsonValue::Object(m) => Some(m),
            _ => None,
        }
    }

    /// The value as a signed 64-bit integer, when it is one.
    pub fn as_i64(&self) -> (r: Option<i64>)
        ensures
            match r {
                Some(i) => self@ == Json::Num(Num::NegInt(i)) || (i >= 0 && self@ == Json::Num(
                    Num::PosInt(i as u64),
                )),
                None => !(self@ matches Json::Num(Num::NegInt(_))) && !(self@ matches Json::Num(
                    Num::PosInt(u),
                ) && u <= i64::MAX),
            },
    {
        match self {
            JsonValue::Number(JsonNumber::PosInt(u)) => {
                if *u <= 0x7fff_ffff_ffff_ffffu64 {
                    Some(*u as i64)
                } else {
                    None
                }
            },
            JsonValue::Number(JsonNumber::NegInt(i)) => Some(*i),
            _ => None,
        }
    }

    /// A copy of the whole tree.
    #[verifier::loop_isolation(false)]
    pub fn deep_copy(&self) -> (r: JsonValue)
        ensures
            r@ == self@,
        decreases self,
    {
        match self {
            JsonValue::Null => JsonValue::Null,
            JsonValue::Bool(b) => JsonValue::Bool(*b),
            JsonValue::Number(n) => JsonValue::Number(n.copy()),
            JsonValue::String(s) => JsonValue::String(s.clone()),
            JsonValue::Array(items) => {
                let mut out: Vec<JsonValue> = Vec::new();
                let mut i: usize = 0;
                while i < items.len()
                    invariant
                        i <= items.len(),
                        out@.len() == i,
                        forall|j: int| 0 <= j < i ==> (#[trigger] out@[j])@ == items@[j]@,
                    decreases items.len() - i,
                {
                    let c = items[i].deep_copy();
                    out.push(c);
                    i += 1;
                }
                assert(view_items(out@) =~= view_items(items@));
                JsonValue::Array(out)
            },
            JsonValue::Object(members) => {
                let mut out: Vec<(String, JsonValue)> = Vec::new();
                let mut i: usize = 0;
                while i < members.len()
                    invariant
                        i <= members.len(),
                        out@.len() == i,
                        forall|j: int|
                            0 <= j < i ==> (#[trigger] out@[j]).0@ == members@[j].0@ && out@[j].1@
                                == members@[j].1@,
                    decreases members.len() - i,
                {
                    assert(decreases_to!(members@ => members@[i as int]));
                    assert(decreases_to!(members@[i as int] => members@[i as int].1));
                    let c = members[i].1.deep_copy();
                    out.push((members[i].0.clone(), c));
                    i += 1;
                }
                assert(view_members(out@) =~= view_members(members@));
                JsonValue::Object(out)
            },
        }
    }
}

/// Whether two values are equal as trees.
#[verifier::loop_isolation(false)]
pub fn json_equal(a: &JsonValue, b: &JsonValue) -> (r: bool)
    ensures
        r == (a@ == b@),
    decreases a,
{
    match (a, b) {
        (JsonValue::Null, JsonValue::Null) => true,
        (JsonValue::Bool(x), JsonValue::Bool(y)) => *x == *y,
        (JsonValue::Number(x), JsonValue::Number(y)) => x.equals(y),
        (JsonValue::String(x), JsonValue::String(y)) => *x == *y,
        (JsonValue::Array(x), JsonValue::Array(y)) => {
            if x.len() != y.len() {
                assert(view_items(x@).len() != view_items(y@).len());
                return false;
            }
            let mut i: usize = 0;
            while i < x.len()
                invariant
                    i <= x.len(),
                    x.len() == y.len(),
                    forall|j: int| 0 <= j < i ==> (#[trigger] x@[j])@ == y@[j]@,
                decreases x.len() - i,
            {
                assert(decreases_to!(x@ => x@[i as int]));
                if !json_equal(&x[i], &y[i]) {
                    assert(view_items(x@)[i as int] != view_items(y@)[i as int]);
                    return false;
                }
                i += 1;
            }
            assert(view_items(x@) =~= view_items(y@));
            true
        },
        (JsonValue::Object(x), JsonValue::Object(y)) => {
            if x.len() != y.len() {
                assert(view_members(x@).len() != view_members(y@).len());
                return false;
            }
            let mut i: usize = 0;
            while i < x.len()
                invariant
                    i <= x.len(),
                    x.len() == y.len(),
                    forall|j: int|
                        0 <= j < i ==> (#[trigger] x@[j]).0@ == y@[j].0@ && x@[j].1@ == y@[j].1@,
                decreases x.len() - i,
            {
                assert(decreases_to!(x@ => x@[i as int]));
                assert(decreases_to!(x@[i as int] => x@[i as int].1));
                if x[i].0 != y[i].0 || !json_equal(&x[i].1, &y[i].1) {
                    assert(view_members(x@)[i as int] != view_members(y@)[i as int]);
                    return false;
                }
                i += 1;
            }
            assert(view_members(x@) =~= view_members(y@));
            true
        },
        _ => false,
    }
}

pub fn is_string(o: Option<&JsonValue>) -> (r: bool)
    ensures
        r == is_str(oview(o)),
{
    match o {
        Some(JsonValue::String(_)) => true,
        _ => false,
    }
}

pub fn is_number(o: Option<&JsonValue>) -> (r: bool)
    ensures
        r == is_num(oview(o)),
{
    match o {
        Some(JsonValue::Number(_)) => true,
        _ => false,
    }
}

pub fn is_boolean(o: Option<&JsonValue>) -> (r: bool)
    ensures
        r == is_bool(oview(o)),
{
    match o {
        Some(JsonValue::Bool(_)) => true,
        _ => false,
    }
}

pub fn is_object(o: Option<&JsonValue>) -> (r: bool)
    ensures
        r == is_obj(oview(o)),
{
    match o {
        Some(JsonValue::Object(_)) => true,
        _ => false,
    }
}

pub fn is_array(o: Option<&JsonValue>) -> (r: bool)
    ensures
        r == is_arr(oview(o)),
{
    match o {
        Some(JsonValue::Array(_)) => true,
        _ => false,
    }
}

#[verifier::loop_isolation(false)]
pub fn is_string_array(o: Option<&JsonValue>) -> (r: bool)
    ensures
        r == is_str_array(oview(o)),
{
    match o {
        Some(JsonValue::Array(items)) => {
            let mut i: usize = 0;
            while i < items.len()
                invariant
                    i <= items.len(),
                    forall|j: int| 0 <= j < i ==> (#[trigger] view_items(items@)[j]) is Str,
                decreases items.len() - i,
            {
                match &items[i] {
                    JsonValue::String(_) => {},
                    _ => {
                        assert(!(view_items(items@)[i as int] is Str));
                        return false;
                    },
                }
                i += 1;
            }
            true
        },
        _ => false,
    }
}

pub fn optional_string(o: Option<&JsonValue>) -> (r: bool)
    ensures
        r == opt_str(oview(o)),
{
    match o {
        None => true,
        Some(JsonValue::Null) => true,
        Some(JsonValue::String(_)) => true,
        _ => false,
    }
}

pub fn optional_number(o: Option<&JsonValue>) -> (r: bool)
    ensures
        r == opt_num(oview(o)),
{
    o.is_none() || is_number(o)
}

pub fn optional_boolean(o: Option<&JsonValue>) -> (r: bool)
    ensures
        r == opt_bool(oview(o)),
{
    o.is_none() || is_boolean(o)
}

pub fn optional_object(o: Option<&JsonValue>) -> (r: bool)
    ensures
        r == opt_obj(oview(o)),
{
    o.is_none() || is_object(o)
}

pub fn optional_string_array(o: Option<&JsonValue>) -> (r: bool)
    ensures
        r == opt_str_array(oview(o)),
{
    o.is_none() || is_string_array(o)
}

pub broadcast proof fn lemma_lookup_without(m: Seq<(Seq<char>, Json)>, k: Seq<char>, j: Seq<char>)
    ensures
        #[trigger] lookup(without(m, k), j) == if j == k {
            None
        } else {
            lookup(m, j)
        },
    decreases m.len(),
{
    if m.len() > 0 {
        lemma_lookup_without(m.drop_first(), k, j);
        if m[0].0 != k {
            assert((seq![m[0]] + without(m.drop_first(), k)).drop_first() =~= without(
                m.drop_first(),
                k,
            ));
        }
    }
}

pub broadcast proof fn lemma_lookup_set(
    m: Seq<(Seq<char>, Json)>,
    k: Seq<char>,
    v: Json,
    j: Seq<char>,
)
    ensures
        #[trigger] lookup(with_member(m, k, v), j) == if j == k {
            Some(v)
        } else {
            lookup(m, j)
        },
    decreases m.len(),
{
    let w = with_member(m, k, v);
    if m.len() > 0 {
        lemma_lookup_set(m.drop_first(), k, v, j);
        if m[0].0 == k {
            assert(w.drop_first() =~= m.drop_first());
            assert(w[0] == (k, v));
        } else {
            assert(w.drop_first() =~= with_member(m.drop_first(), k, v));
            assert(w[0] == m[0]);
        }
    } else {
        assert(w.drop_first() =~= Seq::<(Seq<char>, Json)>::empty());
        assert(lookup(w.drop_first(), j) is None);
        assert(w[0] == (k, v));
    }
}

/// Taking out a key that is not there changes nothing.
pub broadcast proof fn lemma_without_absent(m: Seq<(Seq<char>, Json)>, k: Seq<char>)
    requires
        lookup(m, k) is None,
    ensures
        #[trigger] without(m, k) == m,
    decreases m.len(),
{
    if m.len() > 0 {
        lemma_without_absent(m.drop_first(), k);
        assert(seq![m[0]] + m.drop_first() =~= m);
    }
}

pub broadcast group group_member_updates {
    lemma_without_absent,
    lemma_lookup_without,
    lemma_lookup_set,
}

proof fn lemma_set_at(m: Seq<(Seq<char>, Json)>, k: Seq<char>, v: Json, i: int)
    requires
        0 <= i < m.len(),
        m[i].0 == k,
        forall|j: int| 0 <= j < i ==> m[j].0 != k,
    ensures
        with_member(m, k, v) == m.update(i, (k, v)),
    decreases m.len(),
{
    if i > 0 {
        lemma_set_at(m.drop_first(), k, v, i - 1);
        assert(seq![m[0]] + m.drop_first().update(i - 1, (k, v)) =~= m.update(i, (k, v)));
    } else {
        assert(seq![(k, v)] + m.drop_first() =~= m.update(0, (k, v)));
    }
}

proof fn lemma_set_absent(m: Seq<(Seq<char>, Json)>, k: Seq<char>, v: Json)
    requires
        forall|j: int| 0 <= j < m.len() ==> m[j].0 != k,
    ensures
        with_member(m, k, v) == m.push((k, v)),
    decreases m.len(),
{
    if m.len() > 0 {
        lemma_set_absent(m.drop_first(), k, v);
        assert(seq![m[0]] + m.drop_first().push((k, v)) =~= m.push((k, v)));
    } else {
        assert(seq![(k, v)] =~= m.push((k, v)));
    }
}

pub open spec fn oview_value(o: Option<JsonValue>) -> Option<Json> {
    match o {
        Some(v) => Some(v@),
        None => None,
    }
}

/// Takes every member `key` out of `members`, handing back the value of the first.
pub fn remove_member(members: &mut Vec<(String, JsonValue)>, key: &str) -> (r: Option<JsonValue>)
    ensures
        view_members(final(members)@) == without(view_members(old(members)@), key@),
        oview_value(r) == lookup(view_members(old(members)@), key@),
{
    let k = key.to_owned();
    let mut rest: Vec<(String, JsonValue)> = Vec::new();
    std::mem::swap(members, &mut rest);
    let ghost all = view_members(rest@);
    let mut found: Option<JsonValue> = None;
    assert(view_members(members@) + without(view_members(rest@), key@) =~= without(all, key@));
    while rest.len() > 0
        invariant
            k@ == key@,
            without(all, key@) == view_members(members@) + without(view_members(rest@), key@),
            lookup(all, key@) == match found {
                Some(v) => Some(v@),
                None => lookup(view_members(rest@), key@),
            },
        decreases rest.len(),
    {
        let ghost before = view_members(rest@);
        let ghost kept = view_members(members@);
        let (name, value) = rest.remove(0);
        assert(view_members(rest@) =~= before.drop_first());
        if name == k {
            if found.is_none() {
                found = Some(value);
            }
        } else {
            members.push((name, value));
            assert(view_members(members@) =~= kept.push(before[0]));
            assert(kept.push(before[0]) + without(before.drop_first(), key@) =~= kept + (seq![
                before[0],
            ] + without(before.drop_first(), key@)));
        }
    }
    assert(without(view_members(rest@), key@) =~= Seq::empty());
    assert(view_members(members@) + Seq::<(Seq<char>, Json)>::empty() =~= view_members(members@));
    found
}

/// What `key_index` says: the first matching index, and the value `lookup` finds there.
pub proof fn lemma_key_index(m: Seq<(Seq<char>, Json)>, k: Seq<char>)
    ensures
        -1 <= key_index(m, k) < m.len(),
        key_index(m, k) >= 0 ==> m[key_index(m, k)].0 == k && lookup(m, k) == Some(
            m[key_index(m, k)].1,
        ) && forall|j: int| 0 <= j < key_index(m, k) ==> m[j].0 != k,
        key_index(m, k) < 0 ==> lookup(m, k) is None && forall|j: int|
            0 <= j < m.len() ==> m[j].0 != k,
    decreases m.len(),
{
    if m.len() > 0 {
        lemma_key_index(m.drop_first(), k);
        if m[0].0 != k {
            assert forall|j: int| 1 <= j < m.len() implies m[j] == m.drop_first()[j - 1] by {}
        }
    }
}

/// Index of the first member `key`, if any.
#[verifier::loop_isolation(false)]
pub fn find_member(members: &Vec<(String, JsonValue)>, key: &str) -> (r: Option<usize>)
    ensures
        match r {
            Some(i) => i < members@.len() && members@[i as int].0@ == key@ && forall|j: int|
                0 <= j < i ==> members@[j].0@ != key@,
            None => forall|j: int| 0 <= j < members@.len() ==> members@[j].0@ != key@,
        },
        match r {
            Some(i) => key_index(view_members(members@), key@) == i,
            None => key_index(view_members(members@), key@) == -1,
        },
{
    proof {
        lemma_key_index(view_members(members@), key@);
    }
    let k = key.to_owned();
    let mut i: usize = 0;
    while i < members.len()
        invariant
            i <= members.len(),
            k@ == key@,
            forall|j: int| 0 <= j < i ==> members@[j].0@ != key@,
        decreases members.len() - i,
    {
        if members[i].0 == k {
            proof {
                let m = view_members(members@);
                let q = key_index(m, key@);
                assert(m[i as int].0 == key@);
                if q >= 0 && q < i {
                    assert(m[q].0 == members@[q].0@);
                }
                if q > i {
                    assert(m[i as int].0 == key@);
                }
            }
            return Some(i);
        }
        i += 1;
    }
    None
}

/// Gives member `key` the value `value`, in place of the first such member or appended.
pub fn set_member(members: &mut Vec<(String, JsonValue)>, key: &str, value: JsonValue)
    ensures
        view_members(final(members)@) == with_member(view_members(old(members)@), key@, value@),
{
    let ghost m = view_members(members@);
    match find_member(members, key) {
        Some(i) => {
            let _ = members.remove(i);
            members.insert(i, (key.to_owned(), value));
            proof {
                lemma_set_at(m, key@, value@, i as int);
            }
            assert(view_members(members@) =~= m.update(i as int, (key@, value@)));
        },
        None => {
            members.push((key.to_owned(), value));
            proof {
                lemma_set_absent(m, key@, value@);
            }
            assert(view_members(members@) =~= m.push((key@, value@)));
        },
    }
}

/// A copy of an object's members.
pub fn copy_members(members: &Vec<(String, JsonValue)>) -> (r: Vec<(String, JsonValue)>)
    ensures
        view_members(r@) == view_members(members@),
{
    let mut out: Vec<(String, JsonValue)> = Vec::new();
    let mut i: usize = 0;
    while i < members.len()
        invariant
            i <= members.len(),
            out@.len() == i,
            forall|j: int|
                0 <= j < i ==> (#[trigger] out@[j]).0@ == members@[j].0@ && out@[j].1@
                    == members@[j].1@,
        decreases members.len() - i,
    {
        let c = members[i].1.deep_copy();
        out.push((members[i].0.clone(), c));
        i += 1;
    }
    assert(view_members(out@) =~= view_members(members@));
    out
}

} // verus!
