//! Advisory quality warnings about a document.
use vstd::prelude::*;

use crate::assets::{asset_view, asset_views, assets_walk, extract_assets, AssetView};
use crate::json::{group_json_view, lookup, oview, view_items, view_members, Json, JsonValue, Num};
use crate::text::{all_white, is_blank, join, text_is, texts, SCHEMA_VERSION_V2};
use crate::types::LintResult;
use crate::validate::{doc_version, version_of, Members};
use crate::value::get_member;

verus! {

broadcast use group_json_view;

/// Largest inline asset payload, in characters, that draws no warning.
pub const MAX_INLINE_CHARS: usize = 200000;

/// The value as a signed 64-bit integer, when it is one.
pub open spec fn as_i64(o: Option<Json>) -> Option<int> {
    match o {
        Some(Json::Num(Num::PosInt(u))) => if u <= i64::MAX {
            Some(u as int)
        } else {
            None
        },
        Some(Json::Num(Num::NegInt(i))) => Some(i as int),
        _ => None,
    }
}

/// Creation time after update time.
pub open spec fn inverted_times(m: Members) -> bool {
    let c = as_i64(lookup(m, "createdAt"@));
    let u = as_i64(lookup(m, "updatedAt"@));
    c is Some && u is Some && c->0 > u->0
}

/// Some variant is an object whose `id` is the string `sel`.
pub open spec fn names_variant(vs: Seq<Json>, sel: Seq<char>) -> bool {
    exists|i: int| 0 <= i < vs.len() && vs[i].get("id"@) == Some(Json::Str(sel))
}

/// A second-generation scene whose selected variant names no variant.
pub open spec fn dangling_selection(doc: Json, p: Members) -> bool {
    &&& doc_version(doc) == Some(SCHEMA_VERSION_V2@)
    &&& lookup(p, "scene"@) matches Some(Json::Obj(sm))
    &&& lookup(sm, "selectedVariant"@) matches Some(Json::Str(sel))
    &&& lookup(sm, "variants"@) matches Some(Json::Arr(vs))
    &&& !names_variant(vs, sel)
}

/// An inline locator whose data is longer than the allowed number of characters.
pub open spec fn oversized(a: AssetView) -> bool {
    &&& a.1 == "locator"@
    &&& a.2.get("type"@) == Some(Json::Str("inline_base64"@))
    &&& a.2.get("data"@) matches Some(Json::Str(d))
    &&& d.len() > MAX_INLINE_CHARS
}

/// Warnings for the oversized ones among the first `n` assets.
pub open spec fn size_warnings(assets: Seq<AssetView>, n: nat, acc: Seq<Seq<char>>) -> Seq<
    Seq<char>,
>
    decreases n,
{
    if n == 0 {
        acc
    } else {
        let acc = size_warnings(assets, (n - 1) as nat, acc);
        if oversized(assets[n - 1]) {
            acc.push(assets[n - 1].0 + ": inline_base64 asset is very large"@)
        } else {
            acc
        }
    }
}

pub open spec fn when(c: bool, w: Seq<Seq<char>>, message: Seq<char>) -> Seq<Seq<char>> {
    if c {
        w.push(message)
    } else {
        w
    }
}

/// The warnings of a document, in the order they are checked.
pub open spec fn lint_warnings(doc: Json) -> Seq<Seq<char>> {
    match doc.get("payload"@) {
        Some(Json::Obj(p)) => {
            let w = when(
                lookup(p, "description"@) matches Some(Json::Str(d)) && all_white(d),
                seq![],
                "payload.description is an empty string"@,
            );
            let w = when(
                inverted_times(p),
                w,
                "payload.createdAt is greater than payload.updatedAt"@,
            );
            let w = when(
                doc.get("meta"@) matches Some(Json::Obj(mm)) && inverted_times(mm),
                w,
                "meta.createdAt is greater than meta.updatedAt"@,
            );
            let w = when(
                dangling_selection(doc, p),
                w,
                "payload.scene.selectedVariant does not match any variant id"@,
            );
            let assets = assets_walk(doc, ""@, seq![]);
            size_warnings(assets, assets.len(), w)
        },
        _ => seq!["root: not a valid UEC object shape"@],
    }
}

fn int_value(o: Option<&JsonValue>) -> (r: Option<i64>)
    ensures
        match r {
            Some(i) => as_i64(oview(o)) == Some(i as int),
            None => as_i64(oview(o)) is None,
        },
{
    match o {
        Some(JsonValue::Number(crate::json::JsonNumber::PosInt(u))) => {
            if *u <= 0x7fff_ffff_ffff_ffffu64 {
                Some(*u as i64)
            } else {
                None
            }
        },
        Some(JsonValue::Number(crate::json::JsonNumber::NegInt(i))) => Some(*i),
        _ => None,
    }
}

fn times_inverted(m: &Vec<(String, JsonValue)>) -> (r: bool)
    ensures
        r == inverted_times(view_members(m@)),
{
    match (int_value(get_member(m, "createdAt")), int_value(get_member(m, "updatedAt"))) {
        (Some(c), Some(u)) => c > u,
        _ => false,
    }
}

#[verifier::loop_isolation(false)]
fn selection_dangles(card: &JsonValue, p: &Vec<(String, JsonValue)>) -> (r: bool)
    ensures
        r == dangling_selection(card@, view_members(p@)),
{
    let v2 = match version_of(card) {
        Some(v) => text_is(v, SCHEMA_VERSION_V2),
        None => false,
    };
    if !v2 {
        return false;
    }
    let sm = match get_member(p, "scene") {
        Some(JsonValue::Object(sm)) => sm,
        _ => return false,
    };
    let sel = match get_member(sm, "selectedVariant") {
        Some(JsonValue::String(s)) => s,
        _ => return false,
    };
    let vs = match get_member(sm, "variants") {
        Some(JsonValue::Array(vs)) => vs,
        _ => return false,
    };
    let ghost s = view_items(vs@);
    let mut i: usize = 0;
    while i < vs.len()
        invariant
            i <= vs.len(),
            forall|j: int| 0 <= j < i ==> s[j].get("id"@) != Some(Json::Str(sel@)),
        decreases vs.len() - i,
    {
        let hit = match vs[i].get("id") {
            Some(JsonValue::String(id)) => *id == *sel,
            _ => false,
        };
        if hit {
            assert(names_variant(s, sel@)) by {
                assert(s[i as int].get("id"@) == Some(Json::Str(sel@)));
            }
            return false;
        }
        i += 1;
    }
    true
}

/// Advisory warnings: blank descriptions, creation after update (payload and meta),
/// a selected variant that names no variant, and oversized inline assets.
#[verifier::spinoff_prover]
#[verifier::loop_isolation(false)]
pub fn lint_uec(card: &JsonValue) -> (r: LintResult)
    ensures
        texts(r.warnings@) == lint_warnings(card@),
        r.ok == (r.warnings@.len() == 0),
{
    let p = match card.get("payload") {
        Some(JsonValue::Object(p)) => p,
        _ => {
            let mut warnings: Vec<String> = Vec::new();
            let w = String::from_str("root: not a valid UEC object shape");
            warnings.push(w);
            assert(texts(warnings@) =~= seq!["root: not a valid UEC object shape"@]);
            return LintResult { ok: false, warnings };
        },
    };
    let ghost pm = view_members(p@);
    let mut warnings: Vec<String> = Vec::new();
    assert(texts(warnings@) =~= seq![]);
    let blank = match get_member(p, "description") {
        Some(JsonValue::String(d)) => is_blank(d.as_str()),
        _ => false,
    };
    add_if(&mut warnings, blank, "payload.description is an empty string");
    add_if(
        &mut warnings,
        times_inverted(p),
        "payload.createdAt is greater than payload.updatedAt",
    );
    let meta_inverted = match card.get("meta") {
        Some(JsonValue::Object(mm)) => times_inverted(mm),
        _ => false,
    };
    add_if(&mut warnings, meta_inverted, "meta.createdAt is greater than meta.updatedAt");
    add_if(
        &mut warnings,
        selection_dangles(card, p),
        "payload.scene.selectedVariant does not match any variant id",
    );
    let assets = extract_assets(card);
    let ghost av = asset_views(assets@);
    let ghost w0 = texts(warnings@);
    let mut i: usize = 0;
    while i < assets.len()
        invariant
            i <= assets.len(),
            av == asset_views(assets@),
            texts(warnings@) == size_warnings(av, i as nat, w0),
        decreases assets.len() - i,
    {
        let a = &assets[i];
        assert(av[i as int] == asset_view(assets@[i as int]));
        let large = text_is(&a.kind, "locator") && match a.value.get("type") {
            Some(JsonValue::String(t)) => text_is(t, "inline_base64"),
            _ => false,
        } && match a.value.get("data") {
            Some(JsonValue::String(d)) => d.as_str().unicode_len() > MAX_INLINE_CHARS,
            _ => false,
        };
        if large {
            let w = join(a.path.as_str(), ": inline_base64 asset is very large");
            let ghost before = warnings@;
            warnings.push(w);
            assert(texts(warnings@) =~= texts(before).push(w@));
        }
        i += 1;
    }
    let ok = warnings.len() == 0;
    LintResult { ok, warnings }
}

fn add_if(warnings: &mut Vec<String>, c: bool, message: &str)
    ensures
        texts(final(warnings)@) == when(c, texts(old(warnings)@), message@),
{
    if c {
        let ghost before = warnings@;
        let w = String::from_str(message);
        warnings.push(w);
        assert(texts(warnings@) =~= texts(before).push(message@));
    }
}

} // verus!
