//! Finding and rewriting asset references anywhere in a tree.
use vstd::prelude::*;

use crate::json::{group_json_view, view_items, view_members, Json, JsonValue};
use crate::text::{has_prefix, index_path, index_path_text, key_path, key_path_text, starts_with};
use crate::types::AssetReference;
use crate::validate::is_locator_type;

verus! {

broadcast use group_json_view;

/// A string that reads as a URL or a data URI.
pub open spec fn is_asset_string(v: Json) -> bool {
    v matches Json::Str(s) && (starts_with(s, "http://"@) || starts_with(s, "https://"@)
        || starts_with(s, "data:"@))
}

/// An object whose `type` names one of the three locator mechanisms.
pub open spec fn is_asset_locator(v: Json) -> bool {
    v is Obj && is_locator_type(v.get("type"@))
}

/// `"string"` or `"locator"` for an asset, none for anything else.
pub open spec fn asset_kind(v: Json) -> Option<Seq<char>> {
    if is_asset_string(v) {
        Some("string"@)
    } else if is_asset_locator(v) {
        Some("locator"@)
    } else {
        None
    }
}

/// An asset as path, kind and value.
pub type AssetView = (Seq<char>, Seq<char>, Json);

pub open spec fn asset_view(a: AssetReference) -> AssetView {
    (a.path@, a.kind@, a.value@)
}

pub open spec fn asset_views(s: Seq<AssetReference>) -> Seq<AssetView> {
    s.map_values(|a: AssetReference| asset_view(a))
}

/// `acc` followed by the assets of `v` in pre-order; an asset is not looked into.
pub open spec fn assets_walk(v: Json, path: Seq<char>, acc: Seq<AssetView>) -> Seq<AssetView>
    decreases v, 0nat,
{
    match asset_kind(v) {
        Some(k) => acc.push((path, k, v)),
        None => match v {
            Json::Arr(items) => assets_items(items, path, items.len(), acc),
            Json::Obj(m) => assets_members(m, path, m.len(), acc),
            _ => acc,
        },
    }
}

pub open spec fn assets_items(
    items: Seq<Json>,
    path: Seq<char>,
    n: nat,
    acc: Seq<AssetView>,
) -> Seq<AssetView>
    decreases items, n,
{
    if n == 0 || n > items.len() {
        acc
    } else {
        assets_walk(
            items[n - 1],
            index_path(path, (n - 1) as nat),
            assets_items(items, path, (n - 1) as nat, acc),
        )
    }
}

pub open spec fn assets_members(
    m: Seq<(Seq<char>, Json)>,
    path: Seq<char>,
    n: nat,
    acc: Seq<AssetView>,
) -> Seq<AssetView>
    decreases m, n,
{
    if n == 0 || n > m.len() {
        acc
    } else {
        assets_walk(
            m[n - 1].1,
            key_path(path, m[n - 1].0),
            assets_members(m, path, (n - 1) as nat, acc),
        )
    }
}

pub fn is_likely_asset_string(value: &JsonValue) -> (r: bool)
    ensures
        r == is_asset_string(value@),
{
    match value {
        JsonValue::String(s) => has_prefix(s.as_str(), "http://") || has_prefix(s.as_str(), "https://")
            || has_prefix(s.as_str(), "data:"),
        _ => false,
    }
}

pub fn is_asset_locator_object(value: &JsonValue) -> (r: bool)
    ensures
        r == is_asset_locator(value@),
{
    match value {
        JsonValue::Object(_) => match value.get("type") {
            Some(JsonValue::String(t)) => crate::text::text_is(t, "inline_base64")
                || crate::text::text_is(t, "remote_url") || crate::text::text_is(t, "asset_ref"),
            _ => false,
        },
        _ => false,
    }
}

/// The kind of asset `value` is, if any.
fn asset_kind_of(value: &JsonValue) -> (r: Option<&'static str>)
    ensures
        match r {
            Some(k) => asset_kind(value@) == Some(k@),
            None => asset_kind(value@) is None,
        },
{
    if is_likely_asset_string(value) {
        Some("string")
    } else if is_asset_locator_object(value) {
        Some("locator")
    } else {
        None
    }
}

fn push_asset(assets: &mut Vec<AssetReference>, path: &str, kind: &str, value: &JsonValue)
    ensures
        asset_views(final(assets)@) == asset_views(old(assets)@).push((path@, kind@, value@)),
{
    let ghost before = assets@;
    assets.push(
        AssetReference {
            path: path.to_owned(),
            kind: String::from_str(kind),
            value: value.deep_copy(),
        },
    );
    assert(asset_views(assets@) =~= asset_views(before).push((path@, kind@, value@)));
}

#[verifier::spinoff_prover]
#[verifier::loop_isolation(false)]
fn extract_assets_walk(value: &JsonValue, path: &str, assets: &mut Vec<AssetReference>)
    ensures
        asset_views(final(assets)@) == assets_walk(value@, path@, asset_views(old(assets)@)),
    decreases value, 0nat,
{
    if let Some(kind) = asset_kind_of(value) {
        push_asset(assets, path, kind, value);
        return ;
    }
    let ghost a0 = asset_views(assets@);
    match value {
        JsonValue::Array(items) => {
            let ghost s = view_items(items@);
            let mut i: usize = 0;
            while i < items.len()
                invariant
                    i <= items.len(),
                    asset_views(assets@) == assets_items(s, path@, i as nat, a0),
                decreases items.len() - i,
            {
                assert(decreases_to!(items@ => items@[i as int]));
                let p = index_path_text(path, i);
                extract_assets_walk(&items[i], p.as_str(), assets);
                i += 1;
            }
        },
        JsonValue::Object(members) => {
            let ghost m = view_members(members@);
            let mut i: usize = 0;
            while i < members.len()
                invariant
                    i <= members.len(),
                    asset_views(assets@) == assets_members(m, path@, i as nat, a0),
                decreases members.len() - i,
            {
                assert(decreases_to!(members@ => members@[i as int]));
                assert(decreases_to!(members@[i as int] => members@[i as int].1));
                let p = key_path_text(path, members[i].0.as_str());
                extract_assets_walk(&members[i].1, p.as_str(), assets);
                i += 1;
            }
        },
        _ => {},
    }
}

/// Every asset of `card`, in pre-order.
pub fn extract_assets(card: &JsonValue) -> (r: Vec<AssetReference>)
    ensures
        asset_views(r@) == assets_walk(card@, ""@, seq![]),
{
    let mut assets: Vec<AssetReference> = Vec::new();
    assert(asset_views(assets@) =~= seq![]);
    extract_assets_walk(card, "", &mut assets);
    assets
}

/// Whether `out` is `v` with each asset at `path` or below replaced by a value that
/// `mapper` may return for it.
pub open spec fn rewritten<F: Fn(AssetReference) -> JsonValue>(
    v: Json,
    path: Seq<char>,
    out: Json,
    mapper: F,
) -> bool
    decreases v, 0nat,
{
    match asset_kind(v) {
        Some(k) => exists|a: AssetReference, o: JsonValue|
            asset_view(a) == (path, k, v) && call_ensures(mapper, (a,), o) && o@ == out,
        None => match v {
            Json::Arr(items) => out matches Json::Arr(outs) && outs.len() == items.len() && forall|
                i: int,
            |
                0 <= i < items.len() ==> rewritten(
                    items[i],
                    index_path(path, i as nat),
                    #[trigger] outs[i],
                    mapper,
                ),
            Json::Obj(m) => out matches Json::Obj(om) && om.len() == m.len() && forall|i: int|
                0 <= i < m.len() ==> (#[trigger] om[i]).0 == m[i].0 && rewritten(
                    m[i].1,
                    key_path(path, m[i].0),
                    om[i].1,
                    mapper,
                ),
            _ => out == v,
        },
    }
}

#[verifier::spinoff_prover]
#[verifier::loop_isolation(false)]
fn rewrite_walk<F: Fn(AssetReference) -> JsonValue>(
    value: &JsonValue,
    path: &str,
    mapper: &F,
) -> (r: JsonValue)
    requires
        forall|a: AssetReference| call_requires(*mapper, (a,)),
    ensures
        rewritten(value@, path@, r@, *mapper),
    decreases value, 0nat,
{
    if let Some(kind) = asset_kind_of(value) {
        let a = AssetReference {
            path: path.to_owned(),
            kind: String::from_str(kind),
            value: value.deep_copy(),
        };
        let ghost av = a;
        let o = mapper(a);
        assert(asset_view(av) == (path@, kind@, value@));
        return o;
    }
    match value {
        JsonValue::Array(items) => {
            let ghost s = view_items(items@);
            let mut out: Vec<JsonValue> = Vec::new();
            let mut i: usize = 0;
            while i < items.len()
                invariant
                    i <= items.len(),
                    out@.len() == i,
                    forall|j: int|
                        0 <= j < i ==> rewritten(
                            s[j],
                            index_path(path@, j as nat),
                            #[trigger] out@[j]@,
                            *mapper,
                        ),
                decreases items.len() - i,
            {
                assert(decreases_to!(items@ => items@[i as int]));
                let p = index_path_text(path, i);
                let o = rewrite_walk(&items[i], p.as_str(), mapper);
                out.push(o);
                i += 1;
            }
            let res = JsonValue::Array(out);
            assert forall|j: int| 0 <= j < s.len() implies rewritten(
                s[j],
                index_path(path@, j as nat),
                #[trigger] view_items(out@)[j],
                *mapper,
            ) by {
                assert(view_items(out@)[j] == out@[j]@);
            }
            assert(view_items(out@).len() == s.len());
            assert(value@ == Json::Arr(s));
            assert(res@ == Json::Arr(view_items(out@)));
            res
        },
        JsonValue::Object(members) => {
            let ghost m = view_members(members@);
            let mut out: Vec<(String, JsonValue)> = Vec::new();
            let mut i: usize = 0;
            while i < members.len()
                invariant
                    i <= members.len(),
                    out@.len() == i,
                    forall|j: int|
                        0 <= j < i ==> (#[trigger] out@[j]).0@ == m[j].0 && rewritten(
                            m[j].1,
                            key_path(path@, m[j].0),
                            out@[j].1@,
                            *mapper,
                        ),
                decreases members.len() - i,
            {
                assert(decreases_to!(members@ => members@[i as int]));
                assert(decreases_to!(members@[i as int] => members@[i as int].1));
                let p = key_path_text(path, members[i].0.as_str());
                let o = rewrite_walk(&members[i].1, p.as_str(), mapper);
                out.push((members[i].0.clone(), o));
                i += 1;
            }
            let res = JsonValue::Object(out);
            assert forall|j: int| 0 <= j < m.len() implies (#[trigger] view_members(out@)[j]).0
                == m[j].0 && rewritten(
                m[j].1,
                key_path(path@, m[j].0),
                view_members(out@)[j].1,
                *mapper,
            ) by {
                assert(view_members(out@)[j] == (out@[j].0@, out@[j].1@));
            }
            assert(view_members(out@).len() == m.len());
            assert(value@ == Json::Obj(m));
            assert(res@ == Json::Obj(view_members(out@)));
            res
        },
        _ => value.deep_copy(),
    }
}

/// `card` with each asset replaced by what `mapper` returns for it; everything
/// else is kept as it is.
pub fn rewrite_assets<F: Fn(AssetReference) -> JsonValue>(card: &JsonValue, mapper: &F) -> (r:
    JsonValue)
    requires
        forall|a: AssetReference| call_requires(*mapper, (a,)),
    ensures
        rewritten(card@, ""@, r@, *mapper),
{
    rewrite_walk(card, "", mapper)
}

} // verus!
