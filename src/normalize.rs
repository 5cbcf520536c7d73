//! Deterministic key order for every object of a tree.
use vstd::prelude::*;

use crate::json::{
    group_json_view, has_key, is_obj, lookup, view_items, view_members, without, Json,
    JsonValue,
};
use crate::validate::Members;
use crate::value::{get_member, group_member_updates, remove_member};

verus! {

broadcast use {group_json_view, group_member_updates};

/// Key order: lexicographic by character code, a proper prefix first.
pub open spec fn key_lt(a: Seq<char>, b: Seq<char>) -> bool
    decreases a.len(),
{
    if a.len() == 0 {
        b.len() > 0
    } else if b.len() == 0 {
        false
    } else if a[0] != b[0] {
        (a[0] as int) < (b[0] as int)
    } else {
        key_lt(a.drop_first(), b.drop_first())
    }
}

/// `(k, v)` placed before the first member whose key follows `k`, unless `k` is
/// there already.
pub open spec fn sorted_insert(s: Members, k: Seq<char>, v: Json) -> Members {
    if has_key(s, k) {
        s
    } else {
        insert_before_greater(s, k, v)
    }
}

pub open spec fn insert_before_greater(s: Members, k: Seq<char>, v: Json) -> Members
    decreases s.len(),
{
    if s.len() == 0 {
        seq![(k, v)]
    } else if key_lt(k, s[0].0) {
        seq![(k, v)] + s
    } else {
        seq![s[0]] + insert_before_greater(s.drop_first(), k, v)
    }
}

/// The tree with every object's members in key order, the first member of each key kept.
pub open spec fn normalized(v: Json) -> Json
    decreases v,
{
    match v {
        Json::Arr(items) => Json::Arr(normalized_items(items)),
        Json::Obj(m) => Json::Obj(normalized_members(m)),
        _ => v,
    }
}

pub open spec fn normalized_items(s: Seq<Json>) -> Seq<Json>
    decreases s,
{
    if s.len() == 0 {
        s
    } else {
        normalized_items(s.drop_last()).push(normalized(s.last()))
    }
}

pub open spec fn normalized_members(m: Members) -> Members
    decreases m,
{
    if m.len() == 0 {
        m
    } else {
        sorted_insert(normalized_members(m.drop_last()), m.last().0, normalized(m.last().1))
    }
}

/// Whether `a` comes before `b` in key order.
pub fn key_less(a: &str, b: &str) -> (r: bool)
    ensures
        r == key_lt(a@, b@),
{
    let n = a.unicode_len();
    let m = b.unicode_len();
    let mut i: usize = 0;
    assert(a@.subrange(0, n as int) =~= a@);
    assert(b@.subrange(0, m as int) =~= b@);
    while i < n && i < m
        invariant
            n == a@.len(),
            m == b@.len(),
            i <= n,
            i <= m,
            key_lt(a@, b@) == key_lt(a@.subrange(i as int, n as int), b@.subrange(i as int, m as int)),
        decreases n - i,
    {
        let x = a.get_char(i);
        let y = b.get_char(i);
        let ghost sa = a@.subrange(i as int, n as int);
        let ghost sb = b@.subrange(i as int, m as int);
        assert(sa[0] == x && sb[0] == y);
        if x != y {
            return (x as u32) < (y as u32);
        }
        assert(sa.drop_first() =~= a@.subrange(i + 1, n as int));
        assert(sb.drop_first() =~= b@.subrange(i + 1, m as int));
        i += 1;
    }
    i == n && i < m
}

/// Places `(key, value)` in key order among `members`, unless `key` is there already.
#[verifier::spinoff_prover]
pub fn insert_sorted(members: &mut Vec<(String, JsonValue)>, key: String, value: JsonValue)
    ensures
        view_members(final(members)@) == sorted_insert(view_members(old(members)@), key@, value@),
{
    let ghost s = view_members(members@);
    if get_member(members, key.as_str()).is_some() {
        proof {
            crate::value::lemma_lookup_some(s, key@);
        }
        return ;
    }
    proof {
        crate::value::lemma_lookup_some(s, key@);
    }
    let mut i: usize = 0;
    assert(s.subrange(0, 0) + insert_before_greater(s.subrange(0, s.len() as int), key@, value@)
        =~= insert_before_greater(s, key@, value@)) by {
        assert(s.subrange(0, s.len() as int) =~= s);
    }
    while i < members.len()
        invariant
            i <= members.len(),
            s == view_members(members@),
            s == view_members(old(members)@),
            s.len() == members.len(),
            !has_key(s, key@),
            insert_before_greater(s, key@, value@) == s.subrange(0, i as int)
                + insert_before_greater(s.subrange(i as int, s.len() as int), key@, value@),
        decreases members.len() - i,
    {
        let ghost rest = s.subrange(i as int, s.len() as int);
        assert(rest[0] == s[i as int]);
        if key_less(key.as_str(), members[i].0.as_str()) {
            assert(insert_before_greater(rest, key@, value@) == seq![(key@, value@)] + rest);
            members.insert(i, (key, value));
            assert(view_members(members@) =~= s.subrange(0, i as int) + (seq![(key@, value@)]
                + rest));
            return ;
        }
        assert(rest.drop_first() =~= s.subrange(i + 1, s.len() as int));
        assert(s.subrange(0, i as int) + (seq![rest[0]] + insert_before_greater(
            rest.drop_first(),
            key@,
            value@,
        )) =~= s.subrange(0, i + 1) + insert_before_greater(
            s.subrange(i + 1, s.len() as int),
            key@,
            value@,
        ));
        i += 1;
    }
    let ghost k = key@;
    let ghost v = value@;
    members.push((key, value));
    assert(view_members(members@) =~= s.subrange(0, s.len() as int) + seq![(k, v)]);
}

/// The tree with every object's members in key order.
#[verifier::spinoff_prover]
#[verifier::loop_isolation(false)]
pub fn normalize_value(value: &JsonValue) -> (r: JsonValue)
    ensures
        r@ == normalized(value@),
    decreases value,
{
    match value {
        JsonValue::Array(items) => {
            let ghost s = view_items(items@);
            let mut out: Vec<JsonValue> = Vec::new();
            let mut i: usize = 0;
            assert(view_items(out@) =~= normalized_items(s.subrange(0, 0)));
            while i < items.len()
                invariant
                    i <= items.len(),
                    s.len() == items.len(),
                    view_items(out@) == normalized_items(s.subrange(0, i as int)),
                decreases items.len() - i,
            {
                assert(decreases_to!(items@ => items@[i as int]));
                let c = normalize_value(&items[i]);
                let ghost before = out@;
                out.push(c);
                assert(out@.drop_last() =~= before);
                assert(s.subrange(0, i + 1).drop_last() =~= s.subrange(0, i as int));
                i += 1;
            }
            assert(s.subrange(0, s.len() as int) =~= s);
            JsonValue::Array(out)
        },
        JsonValue::Object(members) => {
            let ghost m = view_members(members@);
            let mut out: Vec<(String, JsonValue)> = Vec::new();
            let mut i: usize = 0;
            assert(view_members(out@) =~= normalized_members(m.subrange(0, 0)));
            while i < members.len()
                invariant
                    i <= members.len(),
                    m.len() == members.len(),
                    view_members(out@) == normalized_members(m.subrange(0, i as int)),
                decreases members.len() - i,
            {
                assert(decreases_to!(members@ => members@[i as int]));
                assert(decreases_to!(members@[i as int] => members@[i as int].1));
                let c = normalize_value(&members[i].1);
                insert_sorted(&mut out, members[i].0.clone(), c);
                assert(m.subrange(0, i + 1).drop_last() =~= m.subrange(0, i as int));
                i += 1;
            }
            assert(m.subrange(0, m.len() as int) =~= m);
            JsonValue::Object(out)
        },
        JsonValue::Null => JsonValue::Null,
        JsonValue::Bool(b) => JsonValue::Bool(*b),
        JsonValue::Number(n) => JsonValue::Number(n.copy()),
        JsonValue::String(s) => JsonValue::String(s.clone()),
    }
}

/// `m` with member `k` made an empty object, in key order, when it is not an object.
pub open spec fn with_default_object(m: Members, k: Seq<char>) -> Members {
    if is_obj(lookup(m, k)) {
        m
    } else {
        sorted_insert(without(m, k), k, Json::Obj(Seq::empty()))
    }
}

/// The three free-form blocks made objects where they are not.
pub open spec fn with_defaults(m: Members) -> Members {
    with_default_object(
        with_default_object(with_default_object(m, "app_specific_settings"@), "meta"@),
        "extensions"@,
    )
}

/// A normalized document: key order everywhere, and the three free-form blocks
/// present as objects.
pub open spec fn normalized_doc(v: Json) -> Json {
    match normalized(v) {
        Json::Obj(m) => Json::Obj(with_defaults(m)),
        other => other,
    }
}

fn default_object(members: &mut Vec<(String, JsonValue)>, key: &str)
    ensures
        view_members(final(members)@) == with_default_object(view_members(old(members)@), key@),
{
    match get_member(members, key) {
        Some(JsonValue::Object(_)) => {},
        _ => {
            let empty: Vec<(String, JsonValue)> = Vec::new();
            assert(view_members(empty@) =~= Seq::empty());
            let _ = remove_member(members, key);
            insert_sorted(members, key.to_owned(), JsonValue::Object(empty));
        },
    }
}

/// Normalizes a document: key order everywhere, and `app_specific_settings`,
/// `meta` and `extensions` present as objects.
pub fn normalize_uec(card: &JsonValue) -> (r: JsonValue)
    ensures
        r@ == normalized_doc(card@),
{
    match normalize_value(card) {
        JsonValue::Object(mut m) => {
            default_object(&mut m, "app_specific_settings");
            default_object(&mut m, "meta");
            default_object(&mut m, "extensions");
            JsonValue::Object(m)
        },
        other => other,
    }
}

} // verus!
