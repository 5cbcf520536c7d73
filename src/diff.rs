//! Structural comparison and merging of two documents.
use vstd::prelude::*;

use crate::json::{
    group_json_view, key_index, member_keys, view_items, view_members, Json, JsonValue,
};
use crate::normalize::{key_less, key_lt, normalize_uec, normalized_doc};
use crate::text::{index_path, index_path_text, key_path, key_path_text, texts};
use crate::types::{MergeOptions, MergeResult, UecDiffEntry};
use crate::validate::Members;
use crate::value::{find_member, json_equal, lemma_key_index, oview_value};

verus! {

broadcast use group_json_view;

// ---------------------------------------------------------------- key union

/// `ks` with `k` placed before the first key that follows it, unless `k` is there.
pub open spec fn key_inserted(ks: Seq<Seq<char>>, k: Seq<char>) -> Seq<Seq<char>> {
    if ks.contains(k) {
        ks
    } else {
        key_before_greater(ks, k)
    }
}

pub open spec fn key_before_greater(ks: Seq<Seq<char>>, k: Seq<char>) -> Seq<Seq<char>>
    decreases ks.len(),
{
    if ks.len() == 0 {
        seq![k]
    } else if key_lt(k, ks[0]) {
        seq![k] + ks
    } else {
        seq![ks[0]] + key_before_greater(ks.drop_first(), k)
    }
}

/// The distinct keys of `ks`, placed in key order one after another.
pub open spec fn keys_in_order(ks: Seq<Seq<char>>) -> Seq<Seq<char>>
    decreases ks.len(),
{
    if ks.len() == 0 {
        ks
    } else {
        key_inserted(keys_in_order(ks.drop_last()), ks.last())
    }
}

/// The keys of two objects together, each once, in key order.
pub open spec fn key_union(l: Members, r: Members) -> Seq<Seq<char>> {
    keys_in_order(member_keys(l) + member_keys(r))
}

/// Places `key` in key order among `keys`, unless it is there.
#[verifier::spinoff_prover]
pub fn insert_key(keys: &mut Vec<String>, key: &String)
    ensures
        texts(final(keys)@) == key_inserted(texts(old(keys)@), key@),
{
    let ghost s = texts(keys@);
    let mut i: usize = 0;
    while i < keys.len()
        invariant
            i <= keys.len(),
            s == texts(keys@),
            forall|j: int| 0 <= j < i ==> s[j] != key@,
        decreases keys.len() - i,
    {
        if keys[i] == *key {
            assert(s.contains(key@)) by {
                assert(s[i as int] == key@);
            }
            return ;
        }
        i += 1;
    }
    assert(!s.contains(key@));
    let mut i: usize = 0;
    assert(s.subrange(0, s.len() as int) =~= s);
    while i < keys.len()
        invariant
            i <= keys.len(),
            s == texts(keys@),
            s == texts(old(keys)@),
            !s.contains(key@),
            key_before_greater(s, key@) == s.subrange(0, i as int) + key_before_greater(
                s.subrange(i as int, s.len() as int),
                key@,
            ),
        decreases keys.len() - i,
    {
        let ghost rest = s.subrange(i as int, s.len() as int);
        assert(rest[0] == s[i as int]);
        if key_less(key.as_str(), keys[i].as_str()) {
            keys.insert(i, key.clone());
            assert(texts(keys@) =~= s.subrange(0, i as int) + (seq![key@] + rest));
            return ;
        }
        assert(rest.drop_first() =~= s.subrange(i + 1, s.len() as int));
        assert(s.subrange(0, i as int) + (seq![rest[0]] + key_before_greater(
            rest.drop_first(),
            key@,
        )) =~= s.subrange(0, i + 1) + key_before_greater(
            s.subrange(i + 1, s.len() as int),
            key@,
        ));
        i += 1;
    }
    keys.push(key.clone());
    assert(texts(keys@) =~= s.subrange(0, s.len() as int) + seq![key@]);
}

/// The keys of two objects together, each once, in key order.
#[verifier::spinoff_prover]
pub fn union_keys(l: &Vec<(String, JsonValue)>, r: &Vec<(String, JsonValue)>) -> (out: Vec<
    String,
>)
    ensures
        texts(out@) == key_union(view_members(l@), view_members(r@)),
{
    let ghost all = member_keys(view_members(l@)) + member_keys(view_members(r@));
    let mut out: Vec<String> = Vec::new();
    assert(texts(out@) =~= keys_in_order(all.subrange(0, 0)));
    let mut i: usize = 0;
    while i < l.len()
        invariant
            i <= l.len(),
            all == member_keys(view_members(l@)) + member_keys(view_members(r@)),
            texts(out@) == keys_in_order(all.subrange(0, i as int)),
        decreases l.len() - i,
    {
        assert(all[i as int] == l@[i as int].0@);
        insert_key(&mut out, &l[i].0);
        assert(all.subrange(0, i + 1).drop_last() =~= all.subrange(0, i as int));
        i += 1;
    }
    let mut j: usize = 0;
    while j < r.len()
        invariant
            i == l.len(),
            j <= r.len(),
            all == member_keys(view_members(l@)) + member_keys(view_members(r@)),
            texts(out@) == keys_in_order(all.subrange(0, (i + j) as int)),
        decreases r.len() - j,
    {
        assert(all[(i + j) as int] == r@[j as int].0@);
        insert_key(&mut out, &r[j].0);
        assert(all.subrange(0, (i + j + 1) as int).drop_last() =~= all.subrange(0, (i + j) as int));
        j += 1;
    }
    assert(all.subrange(0, (i + j) as int) =~= all);
    out
}

// ---------------------------------------------------------------- diff

/// One difference: path, `added` / `removed` / `changed`, value before, value after.
pub type Change = (Seq<char>, Seq<char>, Option<Json>, Option<Json>);

pub open spec fn entry_view(e: UecDiffEntry) -> Change {
    (e.path@, e.change_type@, oview_value(e.before), oview_value(e.after))
}

pub open spec fn entry_views(s: Seq<UecDiffEntry>) -> Seq<Change> {
    s.map_values(|e: UecDiffEntry| entry_view(e))
}

/// The path of a changed value; the root is called `root`.
pub open spec fn shown_path(path: Seq<char>) -> Seq<char> {
    if path.len() == 0 {
        "root"@
    } else {
        path
    }
}

/// `acc` and a `changed` entry, unless the two values are equal.
pub open spec fn leaf_diff(a: Json, b: Json, path: Seq<char>, acc: Seq<Change>) -> Seq<Change> {
    if a == b {
        acc
    } else {
        acc.push((shown_path(path), "changed"@, Some(a), Some(b)))
    }
}

/// `acc` followed by the differences between `a` and `b` under `path`.
pub open spec fn diff_walk(a: Json, b: Json, path: Seq<char>, acc: Seq<Change>) -> Seq<Change>
    decreases a, 0nat,
{
    if a == b {
        acc
    } else {
        match a {
            Json::Arr(l) => match b {
                Json::Arr(r) => diff_items(
                    l,
                    r,
                    path,
                    if l.len() >= r.len() {
                        l.len()
                    } else {
                        r.len()
                    },
                    acc,
                ),
                _ => leaf_diff(a, b, path, acc),
            },
            Json::Obj(l) => match b {
                Json::Obj(r) => diff_keys(l, r, path, key_union(l, r), key_union(l, r).len(), acc),
                _ => leaf_diff(a, b, path, acc),
            },
            _ => leaf_diff(a, b, path, acc),
        }
    }
}

/// Differences of the first `n` indices of two arrays; a missing element counts as null.
pub open spec fn diff_items(
    l: Seq<Json>,
    r: Seq<Json>,
    path: Seq<char>,
    n: nat,
    acc: Seq<Change>,
) -> Seq<Change>
    decreases l, n,
{
    if n == 0 {
        acc
    } else {
        let acc = diff_items(l, r, path, (n - 1) as nat, acc);
        let i = n - 1;
        let p = index_path(path, i as nat);
        if i < l.len() && i < r.len() {
            diff_walk(l[i], r[i], p, acc)
        } else if i < l.len() {
            leaf_diff(l[i], Json::Null, p, acc)
        } else if i < r.len() {
            leaf_diff(Json::Null, r[i], p, acc)
        } else {
            acc
        }
    }
}

/// Differences of two objects over the first `n` of `keys`.
pub open spec fn diff_keys(
    l: Members,
    r: Members,
    path: Seq<char>,
    keys: Seq<Seq<char>>,
    n: nat,
    acc: Seq<Change>,
) -> Seq<Change>
    decreases l, n,
{
    if n == 0 {
        acc
    } else {
        let acc = diff_keys(l, r, path, keys, (n - 1) as nat, acc);
        let k = keys[n - 1];
        let p = key_path(path, k);
        let i = key_index(l, k);
        let j = key_index(r, k);
        if 0 <= i < l.len() && 0 <= j < r.len() {
            diff_walk(l[i].1, r[j].1, p, acc)
        } else if 0 <= j < r.len() {
            acc.push((p, "added"@, None, Some(r[j].1)))
        } else if 0 <= i < l.len() {
            acc.push((p, "removed"@, Some(l[i].1), None))
        } else {
            acc
        }
    }
}

fn push_entry(
    out: &mut Vec<UecDiffEntry>,
    path: String,
    kind: &str,
    before: Option<JsonValue>,
    after: Option<JsonValue>,
)
    ensures
        entry_views(final(out)@) == entry_views(old(out)@).push(
            (path@, kind@, oview_value(before), oview_value(after)),
        ),
{
    let ghost old_out = out@;
    out.push(UecDiffEntry { path, change_type: String::from_str(kind), before, after });
    assert(entry_views(out@) =~= entry_views(old_out).push(
        (path@, kind@, oview_value(before), oview_value(after)),
    ));
}

fn shown_path_text(path: &str) -> (r: String)
    ensures
        r@ == shown_path(path@),
{
    if path.unicode_len() == 0 {
        String::from_str("root")
    } else {
        path.to_owned()
    }
}

fn walk_leaf(a: &JsonValue, b: &JsonValue, path: &str, out: &mut Vec<UecDiffEntry>)
    ensures
        entry_views(final(out)@) == leaf_diff(a@, b@, path@, entry_views(old(out)@)),
{
    if !json_equal(a, b) {
        push_entry(out, shown_path_text(path), "changed", Some(a.deep_copy()), Some(b.deep_copy()));
    }
}

#[verifier::spinoff_prover]
#[verifier::loop_isolation(false)]
fn walk_diff(a: &JsonValue, b: &JsonValue, path: &str, out: &mut Vec<UecDiffEntry>)
    ensures
        entry_views(final(out)@) == diff_walk(a@, b@, path@, entry_views(old(out)@)),
    decreases a, 0nat,
{
    if json_equal(a, b) {
        return ;
    }
    match (a, b) {
        (JsonValue::Array(left), JsonValue::Array(right)) => {
            let ghost l = view_items(left@);
            let ghost r = view_items(right@);
            let ghost e0 = entry_views(out@);
            let n = if left.len() >= right.len() {
                left.len()
            } else {
                right.len()
            };
            let null = JsonValue::Null;
            let mut i: usize = 0;
            while i < n
                invariant
                    i <= n,
                    entry_views(out@) == diff_items(l, r, path@, i as nat, e0),
                decreases n - i,
            {
                let p = index_path_text(path, i);
                if i < left.len() && i < right.len() {
                    assert(decreases_to!(left@ => left@[i as int]));
                    walk_diff(&left[i], &right[i], p.as_str(), out);
                } else if i < left.len() {
                    walk_leaf(&left[i], &null, p.as_str(), out);
                } else {
                    walk_leaf(&null, &right[i], p.as_str(), out);
                }
                i += 1;
            }
        },
        (JsonValue::Object(left), JsonValue::Object(right)) => {
            let ghost l = view_members(left@);
            let ghost r = view_members(right@);
            let ghost e0 = entry_views(out@);
            let keys = union_keys(left, right);
            let mut n: usize = 0;
            while n < keys.len()
                invariant
                    n <= keys.len(),
                    texts(keys@) == crate::diff::key_union(l, r),
                    entry_views(out@) == diff_keys(l, r, path@, texts(keys@), n as nat, e0),
                decreases keys.len() - n,
            {
                let k = &keys[n];
                let p = key_path_text(path, k.as_str());
                let fi = find_member(left, k.as_str());
                let fj = find_member(right, k.as_str());
                proof {
                    lemma_key_index(l, k@);
                    lemma_key_index(r, k@);
                }
                match (fi, fj) {
                    (Some(i), Some(j)) => {
                        assert(decreases_to!(left@ => left@[i as int]));
                        assert(decreases_to!(left@[i as int] => left@[i as int].1));
                        walk_diff(&left[i].1, &right[j].1, p.as_str(), out);
                    },
                    (None, Some(j)) => {
                        push_entry(out, p, "added", None, Some(right[j].1.deep_copy()));
                    },
                    (Some(i), None) => {
                        push_entry(out, p, "removed", Some(left[i].1.deep_copy()), None);
                    },
                    (None, None) => {},
                }
                n += 1;
            }
        },
        _ => {
            push_entry(out, shown_path_text(path), "changed", Some(a.deep_copy()), Some(b.deep_copy()));
        },
    }
}

/// The differences between two documents, both normalized first.
pub fn diff_uec(left: &JsonValue, right: &JsonValue) -> (r: Vec<UecDiffEntry>)
    ensures
        entry_views(r@) == diff_walk(normalized_doc(left@), normalized_doc(right@), ""@, seq![]),
{
    let a = normalize_uec(left);
    let b = normalize_uec(right);
    let mut changes: Vec<UecDiffEntry> = Vec::new();
    assert(entry_views(changes@) =~= seq![]);
    walk_diff(&a, &b, "", &mut changes);
    changes
}

// ---------------------------------------------------------------- merge

/// A scalar or mismatched pair: one side wins, and unequal sides are a conflict at `path`.
pub open spec fn merge_leaf(
    base: Json,
    incoming: Json,
    path: Seq<char>,
    keep_base: bool,
    acc: Seq<Seq<char>>,
) -> (Json, Seq<Seq<char>>) {
    (
        if keep_base {
            base
        } else {
            incoming
        },
        if base != incoming {
            acc.push(path)
        } else {
            acc
        },
    )
}

/// `incoming` merged into `base` under `path`, with `acc` followed by the conflict paths.
pub open spec fn merged(
    base: Json,
    incoming: Json,
    path: Seq<char>,
    concat: bool,
    keep_base: bool,
    acc: Seq<Seq<char>>,
) -> (Json, Seq<Seq<char>>)
    decreases base, 0nat,
{
    if incoming == Json::Null {
        (base, acc)
    } else {
        match base {
            Json::Arr(l) => match incoming {
                Json::Arr(r) => if concat {
                    (Json::Arr(l + r), acc)
                } else {
                    (
                        Json::Arr(r),
                        if l != r {
                            acc.push(path)
                        } else {
                            acc
                        },
                    )
                },
                _ => merge_leaf(base, incoming, path, keep_base, acc),
            },
            Json::Obj(l) => match incoming {
                Json::Obj(r) => {
                    let keys = key_union(l, r);
                    let mm = merged_members(l, r, path, concat, keep_base, keys, keys.len(), acc);
                    (Json::Obj(mm.0), mm.1)
                },
                _ => merge_leaf(base, incoming, path, keep_base, acc),
            },
            _ => merge_leaf(base, incoming, path, keep_base, acc),
        }
    }
}

/// The members of a merged object over the first `n` of `keys`; a key missing from
/// `incoming` keeps the base value as it is.
pub open spec fn merged_members(
    l: Members,
    r: Members,
    path: Seq<char>,
    concat: bool,
    keep_base: bool,
    keys: Seq<Seq<char>>,
    n: nat,
    acc: Seq<Seq<char>>,
) -> (Members, Seq<Seq<char>>)
    decreases l, n,
{
    if n == 0 {
        (seq![], acc)
    } else {
        let prev = merged_members(l, r, path, concat, keep_base, keys, (n - 1) as nat, acc);
        let k = keys[n - 1];
        let i = key_index(l, k);
        let j = key_index(r, k);
        let p = key_path(path, k);
        let vc = if !(0 <= j < r.len()) {
            (
                if 0 <= i < l.len() {
                    l[i].1
                } else {
                    Json::Null
                },
                prev.1,
            )
        } else if 0 <= i < l.len() {
            merged(l[i].1, r[j].1, p, concat, keep_base, prev.1)
        } else if r[j].1 == Json::Null {
            (Json::Null, prev.1)
        } else {
            merge_leaf(Json::Null, r[j].1, p, keep_base, prev.1)
        };
        (prev.0.push((k, vc.0)), vc.1)
    }
}

fn push_conflict(conflicts: &mut Vec<String>, path: &str)
    ensures
        texts(final(conflicts)@) == texts(old(conflicts)@).push(path@),
{
    let ghost before = conflicts@;
    conflicts.push(path.to_owned());
    assert(texts(conflicts@) =~= texts(before).push(path@));
}

fn merge_leaf_value(
    base: &JsonValue,
    incoming: &JsonValue,
    path: &str,
    keep_base: bool,
    conflicts: &mut Vec<String>,
) -> (r: JsonValue)
    ensures
        (r@, texts(final(conflicts)@)) == merge_leaf(
            base@,
            incoming@,
            path@,
            keep_base,
            texts(old(conflicts)@),
        ),
{
    if !json_equal(base, incoming) {
        push_conflict(conflicts, path);
    }
    if keep_base {
        base.deep_copy()
    } else {
        incoming.deep_copy()
    }
}

#[verifier::spinoff_prover]
#[verifier::loop_isolation(false)]
fn merge_values(
    base: &JsonValue,
    incoming: &JsonValue,
    path: &str,
    concat: bool,
    keep_base: bool,
    conflicts: &mut Vec<String>,
) -> (r: JsonValue)
    ensures
        (r@, texts(final(conflicts)@)) == merged(
            base@,
            incoming@,
            path@,
            concat,
            keep_base,
            texts(old(conflicts)@),
        ),
    decreases base, 0nat,
{
    if let JsonValue::Null = incoming {
        return base.deep_copy();
    }
    match (base, incoming) {
        (JsonValue::Array(left), JsonValue::Array(right)) => {
            if concat {
                let mut out: Vec<JsonValue> = Vec::new();
                let mut i: usize = 0;
                while i < left.len()
                    invariant
                        i <= left.len(),
                        out@.len() == i,
                        forall|j: int| 0 <= j < i ==> (#[trigger] out@[j])@ == left@[j]@,
                    decreases left.len() - i,
                {
                    out.push(left[i].deep_copy());
                    i += 1;
                }
                let mut j: usize = 0;
                while j < right.len()
                    invariant
                        j <= right.len(),
                        out@.len() == left.len() + j,
                        forall|x: int| 0 <= x < left.len() ==> (#[trigger] out@[x])@ == left@[x]@,
                        forall|x: int|
                            0 <= x < j ==> (#[trigger] out@[left.len() + x])@ == right@[x]@,
                    decreases right.len() - j,
                {
                    out.push(right[j].deep_copy());
                    j += 1;
                }
                assert(view_items(out@) =~= view_items(left@) + view_items(right@)) by {
                    assert forall|x: int| left.len() <= x < out@.len() implies out@[x]@
                        == right@[x - left.len()]@ by {
                        assert(out@[left.len() + (x - left.len())] == out@[x]);
                    }
                }
                JsonValue::Array(out)
            } else {
                if !json_equal(base, incoming) {
                    push_conflict(conflicts, path);
                }
                incoming.deep_copy()
            }
        },
        (JsonValue::Object(left), JsonValue::Object(right)) => {
            let ghost l = view_members(left@);
            let ghost r = view_members(right@);
            let ghost c0 = texts(conflicts@);
            let keys = union_keys(left, right);
            let mut merged_out: Vec<(String, JsonValue)> = Vec::new();
            let mut n: usize = 0;
            assert(view_members(merged_out@) =~= seq![]);
            while n < keys.len()
                invariant
                    n <= keys.len(),
                    texts(keys@) == key_union(l, r),
                    (view_members(merged_out@), texts(conflicts@)) == merged_members(
                        l,
                        r,
                        path@,
                        concat,
                        keep_base,
                        texts(keys@),
                        n as nat,
                        c0,
                    ),
                decreases keys.len() - n,
            {
                let k = &keys[n];
                let p = key_path_text(path, k.as_str());
                let fi = find_member(left, k.as_str());
                let fj = find_member(right, k.as_str());
                proof {
                    lemma_key_index(l, k@);
                    lemma_key_index(r, k@);
                }
                let v = match fj {
                    None => match fi {
                        Some(i) => left[i].1.deep_copy(),
                        None => JsonValue::Null,
                    },
                    Some(j) => match fi {
                        Some(i) => {
                            assert(decreases_to!(left@ => left@[i as int]));
                            assert(decreases_to!(left@[i as int] => left@[i as int].1));
                            merge_values(&left[i].1, &right[j].1, p.as_str(), concat, keep_base, conflicts)
                        },
                        None => {
                            if let JsonValue::Null = &right[j].1 {
                                JsonValue::Null
                            } else {
                                merge_leaf_value(&JsonValue::Null, &right[j].1, p.as_str(), keep_base, conflicts)
                            }
                        },
                    },
                };
                let ghost before = view_members(merged_out@);
                merged_out.push((k.clone(), v));
                assert(view_members(merged_out@) =~= before.push((k@, v@)));
                n += 1;
            }
            JsonValue::Object(merged_out)
        },
        _ => merge_leaf_value(base, incoming, path, keep_base, conflicts),
    }
}

/// The conflict paths, each once, in key order, without the root's empty path.
pub open spec fn conflict_list(raw: Seq<Seq<char>>) -> Seq<Seq<char>>
    decreases raw.len(),
{
    if raw.len() == 0 {
        raw
    } else {
        let prev = conflict_list(raw.drop_last());
        if raw.last().len() > 0 {
            key_inserted(prev, raw.last())
        } else {
            prev
        }
    }
}

/// Whether an optional setting is the text `t`.
pub open spec fn option_is(o: Option<String>, t: Seq<char>) -> bool {
    o matches Some(s) && s@ == t
}

fn option_text_is(o: &Option<String>, t: &str) -> (r: bool)
    ensures
        r == option_is(*o, t@),
{
    match o {
        Some(s) => crate::text::text_is(s, t),
        None => false,
    }
}

/// Merges `incoming` into `base`: `incoming` cannot delete a key by leaving it out,
/// null in `incoming` changes nothing, and conflicts are resolved by `options`.
pub fn merge_uec(base: &JsonValue, incoming: &JsonValue, options: MergeOptions) -> (r:
    MergeResult)
    ensures
        r.value@ == merged(
            base@,
            incoming@,
            ""@,
            option_is(options.array, "concat"@),
            option_is(options.conflict, "base"@),
            seq![],
        ).0,
        texts(r.conflicts@) == conflict_list(
            merged(
                base@,
                incoming@,
                ""@,
                option_is(options.array, "concat"@),
                option_is(options.conflict, "base"@),
                seq![],
            ).1,
        ),
{
    let concat = option_text_is(&options.array, "concat");
    let keep_base = option_text_is(&options.conflict, "base");
    let mut raw: Vec<String> = Vec::new();
    assert(texts(raw@) =~= seq![]);
    let value = merge_values(base, incoming, "", concat, keep_base, &mut raw);
    let ghost all = texts(raw@);
    let mut conflicts: Vec<String> = Vec::new();
    let mut i: usize = 0;
    assert(texts(conflicts@) =~= conflict_list(all.subrange(0, 0)));
    while i < raw.len()
        invariant
            i <= raw.len(),
            all == texts(raw@),
            texts(conflicts@) == conflict_list(all.subrange(0, i as int)),
        decreases raw.len() - i,
    {
        assert(all.subrange(0, i + 1).drop_last() =~= all.subrange(0, i as int));
        if raw[i].unicode_len() > 0 {
            insert_key(&mut conflicts, &raw[i]);
        }
        i += 1;
    }
    assert(all.subrange(0, raw.len() as int) =~= all);
    MergeResult { value, conflicts }
}

} // verus!
