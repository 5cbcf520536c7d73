//! Properties that relate the library's operations, proved over their models.
use vstd::prelude::*;

use crate::assets::{asset_kind, asset_view, rewritten};
use crate::diff::{conflict_list, merged, merged_members};
use crate::json::{key_index, Json, JsonValue};
use crate::json::{all_str, has_key, lookup, without};
use crate::normalize::{
    insert_before_greater, normalized, normalized_doc, normalized_items, normalized_members,
    with_default_object, with_defaults,
};
use crate::convert::{
    scene_as_list, converted, converted_payload, downgraded, downgraded_payload, folded_scene, picked_scene,
    scene_with_id, unfolded_scene,
};
use crate::diff::{
    diff_items, diff_keys, diff_walk, key_before_greater, key_union, keys_in_order, leaf_diff,
    shown_path, Change,
};
use crate::normalize::key_lt;
use crate::json::member_keys;
use crate::types::AssetReference;
use crate::validate::{doc_version, is_zero};
use crate::text::index_path;
use crate::json::{is_obj, is_str, opt_bool, opt_num, opt_str};
use crate::validate::{
    asset_locator_errors, book_entry_errors, character_ident_errors, character_scenes_errors,
    character_v1_errors, character_v1_media_errors, character_v1_strict_errors,
    character_v1_tail_errors, character_v2_errors, character_v2_media_errors,
    character_v2_strict_errors, character_v2_tail_errors, character_v2_text_errors, meta_errors,
    meta_v2_errors, persona_common_errors, persona_tail_errors, persona_v1_errors,
    payload_errors, record_fits, persona_v2_errors, schema_errors, is_kind, validation_errors, schema_version, settings_errors, voice_v1_errors,
    voice_v2_errors, book_entry_list_errors, character_book_errors, note,
    scene_base_errors, scene_list_errors, scene_v1_errors, scene_v2_errors, variant_errors,
    variant_list_errors, Errs, Members,
};
use crate::value::lemma_key_index;

verus! {

/// Merging a value with itself records no conflict, whatever the options.
pub proof fn lemma_merge_self_no_conflicts(
    a: Json,
    path: Seq<char>,
    concat: bool,
    keep_base: bool,
    acc: Seq<Seq<char>>,
)
    ensures
        merged(a, a, path, concat, keep_base, acc).1 == acc,
    decreases a, 0nat,
{
    if let Json::Obj(l) = a {
        let keys = crate::diff::key_union(l, l);
        lemma_merge_self_members(l, path, concat, keep_base, keys, keys.len(), acc);
    }
}

proof fn lemma_merge_self_members(
    l: Seq<(Seq<char>, Json)>,
    path: Seq<char>,
    concat: bool,
    keep_base: bool,
    keys: Seq<Seq<char>>,
    n: nat,
    acc: Seq<Seq<char>>,
)
    ensures
        merged_members(l, l, path, concat, keep_base, keys, n, acc).1 == acc,
    decreases l, n,
{
    if n > 0 {
        lemma_merge_self_members(l, path, concat, keep_base, keys, (n - 1) as nat, acc);
        let k = keys[n - 1];
        lemma_key_index(l, k);
        let i = key_index(l, k);
        if 0 <= i < l.len() {
            lemma_merge_self_no_conflicts(
                l[i].1,
                crate::text::key_path(path, k),
                concat,
                keep_base,
                acc,
            );
        }
    }
}

/// `merge_uec(a, a, options)` reports no conflicts.
pub proof fn lemma_merge_uec_self(a: Json, concat: bool, keep_base: bool)
    ensures
        conflict_list(merged(a, a, ""@, concat, keep_base, seq![]).1) == Seq::<Seq<char>>::empty(),
{
    lemma_merge_self_no_conflicts(a, ""@, concat, keep_base, seq![]);
}

/// Rewriting with a mapper that hands every asset back unchanged gives the tree back.
pub proof fn lemma_rewrite_identity<F: Fn(AssetReference) -> JsonValue>(
    v: Json,
    path: Seq<char>,
    out: Json,
    mapper: F,
)
    requires
        forall|a: AssetReference, o: JsonValue| call_ensures(mapper, (a,), o) ==> o@ == a.value@,
        rewritten(v, path, out, mapper),
    ensures
        out == v,
    decreases v, 0nat,
{
    match asset_kind(v) {
        Some(k) => {
            let (a, o) = choose|a: AssetReference, o: JsonValue|
                asset_view(a) == (path, k, v) && call_ensures(mapper, (a,), o) && o@ == out;
        },
        None => match v {
            Json::Arr(items) => {
                let outs = out->Arr_0;
                assert forall|i: int| 0 <= i < items.len() implies outs[i] == items[i] by {
                    lemma_rewrite_identity(
                        items[i],
                        crate::text::index_path(path, i as nat),
                        outs[i],
                        mapper,
                    );
                }
                assert(outs =~= items);
            },
            Json::Obj(m) => {
                let om = out->Obj_0;
                assert forall|i: int| 0 <= i < m.len() implies om[i] == m[i] by {
                    lemma_rewrite_identity(
                        m[i].1,
                        crate::text::key_path(path, m[i].0),
                        om[i].1,
                        mapper,
                    );
                }
                assert(om =~= m);
            },
            _ => {},
        },
    }
}

// ---------------------------------------------------------------- normalization keeps validity

/// The normalized form of an optional value.
pub open spec fn onorm(o: Option<Json>) -> Option<Json> {
    match o {
        Some(x) => Some(normalized(x)),
        None => None,
    }
}

proof fn lemma_lookup_push(m: Members, x: (Seq<char>, Json), k: Seq<char>)
    ensures
        lookup(m.push(x), k) == if lookup(m, k) is Some {
            lookup(m, k)
        } else if x.0 == k {
            Some(x.1)
        } else {
            None
        },
    decreases m.len(),
{
    if m.len() > 0 {
        assert(m.push(x).drop_first() =~= m.drop_first().push(x));
        lemma_lookup_push(m.drop_first(), x, k);
    } else {
        assert(m.push(x).drop_first() =~= m);
    }
}

proof fn lemma_lookup_insert_before_greater(s: Members, k: Seq<char>, v: Json, j: Seq<char>)
    requires
        !has_key(s, k),
    ensures
        lookup(insert_before_greater(s, k, v), j) == if j == k {
            Some(v)
        } else {
            lookup(s, j)
        },
    decreases s.len(),
{
    let t = insert_before_greater(s, k, v);
    if s.len() == 0 {
        assert(t.drop_first() =~= s);
    } else if crate::normalize::key_lt(k, s[0].0) {
        assert(t.drop_first() =~= s);
        if j != k {
            crate::value::lemma_lookup_some(s, k);
        }
    } else {
        assert(!has_key(s.drop_first(), k)) by {
            if has_key(s.drop_first(), k) {
                let i = choose|i: int| 0 <= i < s.drop_first().len() && s.drop_first()[i].0 == k;
                assert(s[i + 1].0 == k);
            }
        }
        lemma_lookup_insert_before_greater(s.drop_first(), k, v, j);
        assert(t.drop_first() =~= insert_before_greater(s.drop_first(), k, v));
        assert(s[0].0 != k) by {
            assert(!(s[0].0 == k)) by {
                if s[0].0 == k {
                    assert(has_key(s, k));
                }
            }
        }
    }
}

/// Looking a key up in a normalized object finds the normalized value.
pub proof fn lemma_lookup_normalized(m: Members, k: Seq<char>)
    ensures
        lookup(normalized_members(m), k) == onorm(lookup(m, k)),
    decreases m.len(),
{
    if m.len() > 0 {
        let m0 = m.drop_last();
        let x = m.last();
        let n0 = normalized_members(m0);
        lemma_lookup_normalized(m0, k);
        lemma_lookup_normalized(m0, x.0);
        assert(m0.push(x) =~= m);
        lemma_lookup_push(m0, x, k);
        crate::value::lemma_lookup_some(n0, x.0);
        if !has_key(n0, x.0) {
            lemma_lookup_insert_before_greater(n0, x.0, normalized(x.1), k);
        }
    }
}

/// Normalizing an array normalizes each item.
pub proof fn lemma_normalized_items(s: Seq<Json>)
    ensures
        normalized_items(s).len() == s.len(),
        forall|i: int| 0 <= i < s.len() ==> #[trigger] normalized_items(s)[i] == normalized(s[i]),
    decreases s.len(),
{
    if s.len() > 0 {
        lemma_normalized_items(s.drop_last());
    }
}

pub broadcast proof fn lemma_lookup_normalized_auto(m: Members, k: Seq<char>)
    ensures
        #[trigger] lookup(normalized_members(m), k) == onorm(lookup(m, k)),
{
    lemma_lookup_normalized(m, k);
}

pub broadcast proof fn lemma_normalized_items_auto(s: Seq<Json>)
    ensures
        #[trigger] normalized_items(s).len() == s.len(),
        forall|i: int| 0 <= i < s.len() ==> #[trigger] normalized_items(s)[i] == normalized(s[i]),
{
    lemma_normalized_items(s);
}

/// An array of strings stays one under normalization, and nothing else becomes one.
pub broadcast proof fn lemma_str_array_normalized(o: Option<Json>)
    ensures
        #[trigger] crate::json::is_str_array(onorm(o)) == crate::json::is_str_array(o),
{
    if let Some(Json::Arr(items)) = o {
        lemma_normalized_items(items);
        if all_str(items) {
            assert(all_str(normalized_items(items)));
        }
        if all_str(normalized_items(items)) {
            assert forall|i: int| 0 <= i < items.len() implies items[i] is Str by {
                assert(normalized_items(items)[i] is Str);
            }
        }
    }
}

/// One step of normalization, at any depth.
pub broadcast proof fn lemma_normalized_step(v: Json)
    ensures
        #[trigger] normalized(v) == match v {
            Json::Arr(items) => Json::Arr(normalized_items(items)),
            Json::Obj(m) => Json::Obj(normalized_members(m)),
            _ => v,
        },
{
}

pub broadcast group group_normalized {
    lemma_normalized_step,
    lemma_lookup_normalized_auto,
    lemma_normalized_items_auto,
    lemma_str_array_normalized,
}

proof fn lemma_variant_n(v: Json, path: Seq<char>, e: Errs)
    ensures
        variant_errors(normalized(v), path, e) == variant_errors(v, path, e),
{
    broadcast use group_normalized;

}

proof fn lemma_variant_list_n(vs: Seq<Json>, path: Seq<char>, n: nat, e: Errs)
    requires
        n <= vs.len(),
    ensures
        variant_list_errors(normalized_items(vs), path, n, e) == variant_list_errors(vs, path, n, e),
    decreases n,
{
    broadcast use group_normalized;

    if n > 0 {
        lemma_variant_list_n(vs, path, (n - 1) as nat, e);
        lemma_normalized_items(vs);
        assert(normalized_items(vs)[n - 1] == normalized(vs[n - 1]));
        lemma_variant_n(
            vs[n - 1],
            index_path(path, (n - 1) as nat),
            variant_list_errors(vs, path, (n - 1) as nat, e),
        );
    }
}

#[verifier::spinoff_prover]
proof fn lemma_scene_base_n(v: Json, path: Seq<char>, strict: bool, e: Errs)
    ensures
        scene_base_errors(normalized(v), path, strict, e) == scene_base_errors(v, path, strict, e),
{
    broadcast use group_normalized;

    if let Json::Obj(m) = v {
        if let Some(Json::Arr(vs)) = lookup(m, "variants"@) {
            let e1 = note(
                note(
                    note(
                        note(e, !is_str(lookup(m, "id"@)), path + ".id"@, "must be a string"@),
                        !is_str(lookup(m, "content"@)),
                        path + ".content"@,
                        "must be a string"@,
                    ),
                    !opt_str(lookup(m, "direction"@)),
                    path + ".direction"@,
                    "must be a string"@,
                ),
                !opt_num(lookup(m, "createdAt"@)),
                path + ".createdAt"@,
                "must be a number"@,
            );
            lemma_variant_list_n(vs, path + ".variants"@, vs.len(), e1);
        }
    }
}

proof fn lemma_scene_v1_n(v: Json, path: Seq<char>, strict: bool, e: Errs)
    ensures
        scene_v1_errors(normalized(v), path, strict, e) == scene_v1_errors(v, path, strict, e),
{
    broadcast use group_normalized;

    lemma_scene_base_n(v, path, strict, e);
}

proof fn lemma_scene_v2_n(v: Json, path: Seq<char>, strict: bool, e: Errs)
    ensures
        scene_v2_errors(normalized(v), path, strict, e) == scene_v2_errors(v, path, strict, e),
{
    broadcast use group_normalized;

    lemma_scene_base_n(v, path, strict, e);
}

proof fn lemma_scene_list_n(ss: Seq<Json>, n: nat, strict: bool, e: Errs)
    requires
        n <= ss.len(),
    ensures
        scene_list_errors(normalized_items(ss), n, strict, e) == scene_list_errors(ss, n, strict, e),
    decreases n,
{
    broadcast use group_normalized;

    if n > 0 {
        lemma_scene_list_n(ss, (n - 1) as nat, strict, e);
        lemma_normalized_items(ss);
        lemma_scene_v1_n(
            ss[n - 1],
            index_path("payload.scenes"@, (n - 1) as nat),
            strict,
            scene_list_errors(ss, (n - 1) as nat, strict, e),
        );
    }
}

proof fn lemma_locator_n(o: Option<Json>, path: Seq<char>, e: Errs)
    ensures
        asset_locator_errors(onorm(o), path, e) == asset_locator_errors(o, path, e),
{
    broadcast use group_normalized;

}

proof fn lemma_book_entry_n(v: Json, path: Seq<char>, e: Errs)
    ensures
        book_entry_errors(normalized(v), path, e) == book_entry_errors(v, path, e),
{
    broadcast use group_normalized;

}

proof fn lemma_book_entry_list_n(es: Seq<Json>, n: nat, e: Errs)
    requires
        n <= es.len(),
    ensures
        book_entry_list_errors(normalized_items(es), n, e) == book_entry_list_errors(es, n, e),
    decreases n,
{
    broadcast use group_normalized;

    if n > 0 {
        lemma_book_entry_list_n(es, (n - 1) as nat, e);
        lemma_normalized_items(es);
        lemma_book_entry_n(
            es[n - 1],
            index_path("payload.characterBook.entries"@, (n - 1) as nat),
            book_entry_list_errors(es, (n - 1) as nat, e),
        );
    }
}

#[verifier::spinoff_prover]
proof fn lemma_book_n(o: Option<Json>, e: Errs)
    ensures
        character_book_errors(onorm(o), e) == character_book_errors(o, e),
{
    broadcast use group_normalized;

    if let Some(Json::Obj(m)) = o {
        if let Some(Json::Arr(es)) = lookup(m, "entries"@) {
            let e1 = note(
                note(
                    e,
                    !opt_str(lookup(m, "name"@)),
                    "payload.characterBook.name"@,
                    "must be a string or null"@,
                ),
                !opt_str(lookup(m, "description"@)),
                "payload.characterBook.description"@,
                "must be a string or null"@,
            );
            lemma_book_entry_list_n(es, es.len(), e1);
        }
    }
}

proof fn lemma_voice_n(o: Option<Json>, e: Errs)
    ensures
        voice_v1_errors(onorm(o), e) == voice_v1_errors(o, e),
        voice_v2_errors(onorm(o), e) == voice_v2_errors(o, e),
{
    broadcast use group_normalized;

}

#[verifier::spinoff_prover]
proof fn lemma_blocks_n(o: Option<Json>, strict: bool, e: Errs)
    ensures
        schema_errors(onorm(o), e) == schema_errors(o, e),
        schema_version(onorm(o)) == schema_version(o),
        settings_errors(onorm(o), e) == settings_errors(o, e),
        meta_errors(onorm(o), e) == meta_errors(o, e),
        meta_v2_errors(onorm(o), strict, e) == meta_v2_errors(o, strict, e),
{
    broadcast use group_normalized;

}

#[verifier::spinoff_prover]
proof fn lemma_character_v1_n(m: Members, strict: bool, e: Errs)
    ensures
        character_v1_errors(normalized_members(m), strict, e) == character_v1_errors(m, strict, e),
{
    broadcast use group_normalized;

    let n = normalized_members(m);
    let e1 = character_v1_media_errors(m, character_ident_errors(m, e));
    assert(character_ident_errors(n, e) == character_ident_errors(m, e));
    assert(character_v1_media_errors(n, character_ident_errors(m, e)) == e1);
    if let Some(Json::Arr(ss)) = lookup(m, "scenes"@) {
        lemma_scene_list_n(ss, ss.len(), strict, e1);
    }
    assert(character_scenes_errors(n, strict, e1) == character_scenes_errors(m, strict, e1));
    let e2 = character_scenes_errors(m, strict, e1);
    lemma_voice_n(lookup(m, "voiceConfig"@), note(
        note(
            note(
                e2,
                !opt_str(lookup(m, "defaultSceneId"@)),
                "payload.defaultSceneId"@,
                "must be a string or null"@,
            ),
            !opt_str(lookup(m, "defaultModelId"@)),
            "payload.defaultModelId"@,
            "must be a string or null"@,
        ),
        !opt_str(lookup(m, "systemPrompt"@)),
        "payload.systemPrompt"@,
        "must be a string or null"@,
    ));
    assert(character_v1_tail_errors(n, e2) == character_v1_tail_errors(m, e2));
    let e3 = character_v1_tail_errors(m, e2);
    assert(character_v1_strict_errors(n, e3) == character_v1_strict_errors(m, e3));
}

#[verifier::spinoff_prover]
proof fn lemma_character_v2_n(m: Members, strict: bool, e: Errs)
    ensures
        character_v2_errors(normalized_members(m), strict, e) == character_v2_errors(m, strict, e),
{
    broadcast use group_normalized;

    let n = normalized_members(m);
    let e0 = character_ident_errors(m, e);
    assert(character_ident_errors(n, e) == e0);
    let ea = asset_locator_errors(lookup(m, "avatar"@), "payload.avatar"@, e0);
    lemma_locator_n(lookup(m, "avatar"@), "payload.avatar"@, e0);
    lemma_locator_n(lookup(m, "chatBackground"@), "payload.chatBackground"@, ea);
    let eb = note(
        asset_locator_errors(lookup(m, "chatBackground"@), "payload.chatBackground"@, ea),
        strict && lookup(m, "rules"@) is Some,
        "payload.rules"@,
        "is not a valid field in v2; use systemPrompt or characterBook instead"@,
    );
    let scene = lookup(m, "scene"@);
    if scene is Some && scene != Some(Json::Null) {
        lemma_scene_v2_n(scene->0, "payload.scene"@, strict, eb);
    }
    assert(character_v2_media_errors(n, strict, e0) == character_v2_media_errors(m, strict, e0));
    let e1 = character_v2_media_errors(m, strict, e0);
    assert(character_v2_text_errors(n, e1) == character_v2_text_errors(m, e1));
    let e2 = character_v2_text_errors(m, e1);
    lemma_voice_n(lookup(m, "voiceConfig"@), e2);
    let ev = note(
        voice_v2_errors(lookup(m, "voiceConfig"@), e2),
        !opt_bool(lookup(m, "voiceAutoplay"@)),
        "payload.voiceAutoplay"@,
        "must be a boolean"@,
    );
    lemma_book_n(lookup(m, "characterBook"@), ev);
    assert(character_v2_tail_errors(n, e2) == character_v2_tail_errors(m, e2));
    let e3 = character_v2_tail_errors(m, e2);
    assert(character_v2_strict_errors(n, e3) == character_v2_strict_errors(m, e3));
}

#[verifier::spinoff_prover]
proof fn lemma_persona_n(m: Members, strict: bool, e: Errs)
    ensures
        persona_v1_errors(normalized_members(m), strict, e) == persona_v1_errors(m, strict, e),
        persona_v2_errors(normalized_members(m), strict, e) == persona_v2_errors(m, strict, e),
{
    broadcast use group_normalized;

    let e0 = persona_common_errors(m, e);
    lemma_locator_n(lookup(m, "avatar"@), "payload.avatar"@, e0);
    let n = normalized_members(m);
    assert(persona_common_errors(n, e) == e0);
    let e1 = asset_locator_errors(lookup(m, "avatar"@), "payload.avatar"@, e0);
    assert(persona_tail_errors(n, strict, e1) == persona_tail_errors(m, strict, e1));
    let e2 = note(
        e0,
        !opt_str(lookup(m, "avatar"@)),
        "payload.avatar"@,
        "must be a string or null"@,
    );
    assert(persona_tail_errors(n, strict, e2) == persona_tail_errors(m, strict, e2));
}

#[verifier::spinoff_prover]
proof fn lemma_payload_n(root: Members, r: Members, strict: bool, e: Errs)
    requires
        lookup(r, "schema"@) == onorm(lookup(root, "schema"@)),
        lookup(r, "kind"@) == onorm(lookup(root, "kind"@)),
        lookup(r, "payload"@) == onorm(lookup(root, "payload"@)),
    ensures
        payload_errors(r, strict, e) == payload_errors(root, strict, e),
{
    broadcast use group_normalized;

    lemma_blocks_n(lookup(root, "schema"@), strict, e);
    if let Some(Json::Obj(pm)) = lookup(root, "payload"@) {
        lemma_character_v1_n(pm, strict, e);
        lemma_character_v2_n(pm, strict, e);
        lemma_persona_n(pm, strict, e);
    }
}

/// `app_specific_settings`, `meta` and `extensions` of an object document are each
/// absent or an object.
pub open spec fn blocks_are_objects(d: Json) -> bool {
    d matches Json::Obj(root) ==> {
        &&& (lookup(root, "app_specific_settings"@) is None || is_obj(
            lookup(root, "app_specific_settings"@),
        ))
        &&& (lookup(root, "meta"@) is None || is_obj(lookup(root, "meta"@)))
        &&& (lookup(root, "extensions"@) is None || is_obj(lookup(root, "extensions"@)))
    }
}

proof fn lemma_defaults_lookup(n: Members, k: Seq<char>)
    ensures
        k != "app_specific_settings"@ && k != "meta"@ && k != "extensions"@ ==> lookup(
            with_defaults(n),
            k,
        ) == lookup(n, k),
        k == "app_specific_settings"@ || k == "meta"@ || k == "extensions"@ ==> lookup(
            with_defaults(n),
            k,
        ) == if is_obj(lookup(n, k)) {
            lookup(n, k)
        } else {
            Some(Json::Obj(Seq::empty()))
        },
{
    broadcast use crate::value::group_member_updates;

    reveal_strlit("app_specific_settings");
    reveal_strlit("meta");
    reveal_strlit("extensions");
    assert("app_specific_settings"@[0] != "meta"@[0] && "app_specific_settings"@[0]
        != "extensions"@[0] && "meta"@[0] != "extensions"@[0]);
    let empty = Json::Obj(Seq::empty());
    let m1 = with_default_object(n, "app_specific_settings"@);
    let m2 = with_default_object(m1, "meta"@);
    lemma_default_object_lookup(n, "app_specific_settings"@, k);
    lemma_default_object_lookup(m1, "meta"@, k);
    lemma_default_object_lookup(m2, "extensions"@, k);
}

proof fn lemma_default_object_lookup(m: Members, k: Seq<char>, j: Seq<char>)
    ensures
        lookup(with_default_object(m, k), j) == if j != k {
            lookup(m, j)
        } else if is_obj(lookup(m, k)) {
            lookup(m, k)
        } else {
            Some(Json::Obj(Seq::empty()))
        },
{
    broadcast use crate::value::group_member_updates;

    if !is_obj(lookup(m, k)) {
        let w = without(m, k);
        crate::value::lemma_lookup_some(w, k);
        lemma_lookup_insert_before_greater(w, k, Json::Obj(Seq::empty()), j);
    }
}

#[verifier::spinoff_prover]
proof fn lemma_root_n(root: Members, strict: bool, e: Errs)
    requires
        blocks_are_objects(Json::Obj(root)),
    ensures
        ({
            let r = with_defaults(normalized_members(root));
            &&& lookup(r, "schema"@) == onorm(lookup(root, "schema"@))
            &&& lookup(r, "kind"@) == onorm(lookup(root, "kind"@))
            &&& lookup(r, "payload"@) == onorm(lookup(root, "payload"@))
            &&& settings_errors(lookup(r, "app_specific_settings"@), e) == settings_errors(
                lookup(root, "app_specific_settings"@),
                e,
            )
            &&& meta_errors(lookup(r, "meta"@), e) == meta_errors(lookup(root, "meta"@), e)
            &&& meta_v2_errors(lookup(r, "meta"@), strict, e) == meta_v2_errors(
                lookup(root, "meta"@),
                strict,
                e,
            )
            &&& lookup(r, "extensions"@) == onorm(lookup(root, "extensions"@)) || (lookup(
                root,
                "extensions"@,
            ) is None && lookup(r, "extensions"@) == Some(Json::Obj(Seq::empty())))
        }),
{
    let n = normalized_members(root);
    reveal_strlit("schema");
    reveal_strlit("kind");
    reveal_strlit("payload");
    reveal_strlit("app_specific_settings");
    reveal_strlit("meta");
    reveal_strlit("extensions");
    assert("payload"@[0] != "meta"@[0] && "payload"@[0] != "extensions"@[0] && "payload"@[0]
        != "app_specific_settings"@[0]);
    assert("kind"@[0] != "meta"@[0] && "kind"@[0] != "extensions"@[0] && "kind"@[0]
        != "app_specific_settings"@[0]);
    assert("schema"@[0] != "meta"@[0] && "schema"@[0] != "extensions"@[0] && "schema"@[0]
        != "app_specific_settings"@[0]);
    lemma_defaults_lookup(n, "schema"@);
    lemma_defaults_lookup(n, "kind"@);
    lemma_defaults_lookup(n, "payload"@);
    lemma_defaults_lookup(n, "app_specific_settings"@);
    lemma_defaults_lookup(n, "meta"@);
    lemma_defaults_lookup(n, "extensions"@);
    lemma_lookup_normalized(root, "schema"@);
    lemma_lookup_normalized(root, "kind"@);
    lemma_lookup_normalized(root, "payload"@);
    lemma_lookup_normalized(root, "app_specific_settings"@);
    lemma_lookup_normalized(root, "meta"@);
    lemma_lookup_normalized(root, "extensions"@);
    lemma_blocks_n(lookup(root, "app_specific_settings"@), strict, e);
    lemma_blocks_n(lookup(root, "meta"@), strict, e);
    lemma_normalized_step(lookup(root, "app_specific_settings"@)->0);
    lemma_normalized_step(lookup(root, "meta"@)->0);
    lemma_normalized_step(lookup(root, "extensions"@)->0);
    assert(lookup(Seq::<(Seq<char>, Json)>::empty(), "createdAt"@) is None);
}

/// Normalization does not change what validation reports, for documents whose three
/// free-form blocks are absent or objects: there normalization only adds empty
/// objects and orders keys. (A block of another type is reported by validation and
/// replaced by an empty object by normalization.)
#[verifier::spinoff_prover]
pub proof fn lemma_normalize_keeps_validation(d: Json, strict: bool)
    requires
        blocks_are_objects(d),
    ensures
        validation_errors(normalized_doc(d), strict) == validation_errors(d, strict),
{
    reveal(validation_errors);
    if let Json::Obj(root) = d {
        let r = with_defaults(normalized_members(root));
        lemma_normalized_step(d);
        assert(normalized_doc(d) == Json::Obj(r));
        let schema = lookup(root, "schema"@);
        lemma_blocks_n(schema, strict, Seq::empty());
        let e0 = schema_errors(schema, Seq::empty());
        let kind = lookup(root, "kind"@);
        lemma_root_n(root, strict, e0);
        lemma_normalized_step(kind->0);
        let e1 = note(
            e0,
            !(is_kind(kind, "character"@) || is_kind(kind, "persona"@)),
            "kind"@,
            "must be \"character\" or \"persona\""@,
        );
        lemma_payload_n(root, r, strict, e1);
        let e2 = payload_errors(root, strict, e1);
        lemma_root_n(root, strict, e2);
        let e3 = settings_errors(lookup(root, "app_specific_settings"@), e2);
        lemma_root_n(root, strict, e3);
        lemma_blocks_n(schema, strict, e3);
        let e4 = if schema_version(schema) == Some(crate::text::SCHEMA_VERSION_V2@) {
            meta_v2_errors(lookup(root, "meta"@), strict, e3)
        } else {
            meta_errors(lookup(root, "meta"@), e3)
        };
        lemma_normalized_step(lookup(root, "extensions"@)->0);
    }
}

// ---------------------------------------------------------------- validation only adds errors

#[verifier::spinoff_prover]
proof fn lemma_variant_grows(vs: Seq<Json>, path: Seq<char>, n: nat, e: Errs)
    ensures
        variant_list_errors(vs, path, n, e).len() >= e.len(),
    decreases n,
{
    if n > 0 {
        let prev = variant_list_errors(vs, path, (n - 1) as nat, e);
        lemma_variant_grows(vs, path, (n - 1) as nat, e);
        assert(variant_errors(vs[n - 1], index_path(path, (n - 1) as nat), prev).len()
            >= prev.len());
    }
}

#[verifier::spinoff_prover]
proof fn lemma_scene_base_grows(v: Json, path: Seq<char>, strict: bool, e: Errs)
    ensures
        scene_base_errors(v, path, strict, e).len() >= e.len(),
        scene_v1_errors(v, path, strict, e).len() >= e.len(),
        scene_v2_errors(v, path, strict, e).len() >= e.len(),
{
    if let Json::Obj(m) = v {
        if let Some(Json::Arr(vs)) = lookup(m, "variants"@) {
            let e1 = note(
                note(
                    note(
                        note(e, !is_str(lookup(m, "id"@)), path + ".id"@, "must be a string"@),
                        !is_str(lookup(m, "content"@)),
                        path + ".content"@,
                        "must be a string"@,
                    ),
                    !opt_str(lookup(m, "direction"@)),
                    path + ".direction"@,
                    "must be a string"@,
                ),
                !opt_num(lookup(m, "createdAt"@)),
                path + ".createdAt"@,
                "must be a number"@,
            );
            lemma_variant_grows(vs, path + ".variants"@, vs.len(), e1);
        }
    }
}

proof fn lemma_scene_list_grows(ss: Seq<Json>, n: nat, strict: bool, e: Errs)
    ensures
        scene_list_errors(ss, n, strict, e).len() >= e.len(),
    decreases n,
{
    if n > 0 {
        lemma_scene_list_grows(ss, (n - 1) as nat, strict, e);
        lemma_scene_base_grows(
            ss[n - 1],
            index_path("payload.scenes"@, (n - 1) as nat),
            strict,
            scene_list_errors(ss, (n - 1) as nat, strict, e),
        );
    }
}

proof fn lemma_book_entry_grows(entry: Json, path: Seq<char>, e: Errs)
    ensures
        book_entry_errors(entry, path, e).len() >= e.len(),
{
}

#[verifier::spinoff_prover]
proof fn lemma_book_grows(es: Seq<Json>, n: nat, e: Errs)
    ensures
        book_entry_list_errors(es, n, e).len() >= e.len(),
    decreases n,
{
    if n > 0 {
        let prev = book_entry_list_errors(es, (n - 1) as nat, e);
        lemma_book_grows(es, (n - 1) as nat, e);
        lemma_book_entry_grows(
            es[n - 1],
            index_path("payload.characterBook.entries"@, (n - 1) as nat),
            prev,
        );
    }
}

#[verifier::spinoff_prover]
proof fn lemma_character_v1_grows(m: Members, strict: bool, e: Errs)
    ensures
        character_v1_errors(m, strict, e).len() >= e.len(),
{
    let e1 = character_v1_media_errors(m, character_ident_errors(m, e));
    if let Some(Json::Arr(ss)) = lookup(m, "scenes"@) {
        lemma_scene_list_grows(ss, ss.len(), strict, e1);
    }
    assert(character_scenes_errors(m, strict, e1).len() >= e1.len());
}

#[verifier::spinoff_prover]
proof fn lemma_character_v2_media_grows(m: Members, strict: bool, e: Errs)
    ensures
        character_v2_media_errors(m, strict, e).len() >= e.len(),
{
    let ea = asset_locator_errors(lookup(m, "avatar"@), "payload.avatar"@, e);
    let eb = note(
        asset_locator_errors(lookup(m, "chatBackground"@), "payload.chatBackground"@, ea),
        strict && lookup(m, "rules"@) is Some,
        "payload.rules"@,
        "is not a valid field in v2; use systemPrompt or characterBook instead"@,
    );
    let scene = lookup(m, "scene"@);
    if scene is Some && scene != Some(Json::Null) {
        lemma_scene_base_grows(scene->0, "payload.scene"@, strict, eb);
    }
}

#[verifier::spinoff_prover]
proof fn lemma_character_v2_tail_grows(m: Members, e: Errs)
    ensures
        character_v2_tail_errors(m, e).len() >= e.len(),
{
    let ev = note(
        voice_v2_errors(lookup(m, "voiceConfig"@), e),
        !opt_bool(lookup(m, "voiceAutoplay"@)),
        "payload.voiceAutoplay"@,
        "must be a boolean"@,
    );
    if let Some(Json::Obj(bm)) = lookup(m, "characterBook"@) {
        if let Some(Json::Arr(es)) = lookup(bm, "entries"@) {
            let e3 = note(
                note(
                    ev,
                    !opt_str(lookup(bm, "name"@)),
                    "payload.characterBook.name"@,
                    "must be a string or null"@,
                ),
                !opt_str(lookup(bm, "description"@)),
                "payload.characterBook.description"@,
                "must be a string or null"@,
            );
            lemma_book_grows(es, es.len(), e3);
        }
    }
    assert(character_book_errors(lookup(m, "characterBook"@), ev).len() >= ev.len());
}

#[verifier::spinoff_prover]
proof fn lemma_character_v2_grows(m: Members, strict: bool, e: Errs)
    ensures
        character_v2_errors(m, strict, e).len() >= e.len(),
{
    let e0 = character_ident_errors(m, e);
    lemma_character_v2_media_grows(m, strict, e0);
    let e1 = character_v2_media_errors(m, strict, e0);
    let e2 = character_v2_text_errors(m, e1);
    lemma_character_v2_tail_grows(m, e2);
}

#[verifier::spinoff_prover]
proof fn lemma_payload_grows(root: Members, strict: bool, e: Errs)
    ensures
        payload_errors(root, strict, e).len() >= e.len(),
{
    if let Some(Json::Obj(m)) = lookup(root, "payload"@) {
        lemma_character_v1_grows(m, strict, e);
        lemma_character_v2_grows(m, strict, e);
        assert(persona_v1_errors(m, strict, e).len() >= e.len());
        assert(persona_v2_errors(m, strict, e).len() >= e.len());
    }
}

/// A document that passes validation has the shape of a `Uec` record, so
/// `assert_uec` succeeds exactly on the documents that pass validation.
#[verifier::spinoff_prover]
pub proof fn lemma_valid_fits_record(d: Json, strict: bool)
    requires
        validation_errors(d, strict).len() == 0,
    ensures
        record_fits(d),
{
    reveal(validation_errors);
    if let Json::Obj(root) = d {
        let schema = lookup(root, "schema"@);
        let e0 = schema_errors(schema, Seq::empty());
        let kind = lookup(root, "kind"@);
        let e1 = note(
            e0,
            !(is_kind(kind, "character"@) || is_kind(kind, "persona"@)),
            "kind"@,
            "must be \"character\" or \"persona\""@,
        );
        lemma_payload_grows(root, strict, e1);
        let e2 = payload_errors(root, strict, e1);
        assert(lookup(root, "payload"@) is Some) by {
            if lookup(root, "payload"@) is None {
                assert(e2.len() >= 1);
            }
        }
    }
}

// ---------------------------------------------------------------- conversion round trip

proof fn lemma_keys_differ()
    ensures
        "scene"@ != "scenes"@,
        "scene"@ != "defaultSceneId"@,
        "scene"@ != "promptTemplateId"@,
        "scene"@ != "systemPrompt"@,
        "scene"@ != "rules"@,
        "scenes"@ != "rules"@,
        "scenes"@ != "defaultSceneId"@,
        "scenes"@ != "promptTemplateId"@,
        "scenes"@ != "systemPrompt"@,
        "scenes"@ != "fallbackModelId"@,
        "scenes"@ != "nickname"@,
        "scenes"@ != "creator"@,
        "scenes"@ != "creatorNotes"@,
        "scenes"@ != "creatorNotesMultilingual"@,
        "scenes"@ != "source"@,
        "scenes"@ != "characterBook"@,
        "id"@ != "selectedVariantId"@,
        "id"@ != "selectedVariant"@,
        "schema"@ != "payload"@,
        "schema"@ != "meta"@,
        "payload"@ != "meta"@,
        "defaultSceneId"@ != "promptTemplateId"@,
        "defaultSceneId"@ != "systemPrompt"@,
        "defaultSceneId"@ != "rules"@,
        "defaultSceneId"@ != "fallbackModelId"@,
        "defaultSceneId"@ != "nickname"@,
        "defaultSceneId"@ != "creator"@,
        "defaultSceneId"@ != "creatorNotes"@,
        "defaultSceneId"@ != "creatorNotesMultilingual"@,
        "defaultSceneId"@ != "source"@,
        "defaultSceneId"@ != "characterBook"@,
        "defaultSceneId"@ != "scene"@,
        "defaultSceneId"@ != "scenes"@,
        "selectedVariant"@ != "selectedVariantId"@,
{
    reveal_strlit("scene");
    reveal_strlit("scenes");
    reveal_strlit("defaultSceneId");
    reveal_strlit("promptTemplateId");
    reveal_strlit("systemPrompt");
    reveal_strlit("rules");
    reveal_strlit("fallbackModelId");
    reveal_strlit("nickname");
    reveal_strlit("creator");
    reveal_strlit("creatorNotes");
    reveal_strlit("creatorNotesMultilingual");
    reveal_strlit("source");
    reveal_strlit("characterBook");
    reveal_strlit("id");
    reveal_strlit("selectedVariantId");
    reveal_strlit("selectedVariant");
    reveal_strlit("schema");
    reveal_strlit("payload");
    reveal_strlit("meta");
    assert("scene"@.len() != "scenes"@.len());
    assert("scene"@[0] != "defaultSceneId"@[0]);
    assert("scene"@[0] != "promptTemplateId"@[0]);
    assert("scene"@[1] != "systemPrompt"@[1]);
    assert("scene"@[0] != "rules"@[0]);
    assert("scenes"@[0] != "rules"@[0]);
    assert("scenes"@[0] != "defaultSceneId"@[0]);
    assert("scenes"@[0] != "promptTemplateId"@[0]);
    assert("scenes"@[1] != "systemPrompt"@[1]);
    assert("scenes"@[0] != "fallbackModelId"@[0]);
    assert("scenes"@[0] != "nickname"@[0]);
    assert("scenes"@[0] != "creator"@[0]);
    assert("scenes"@[0] != "creatorNotes"@[0]);
    assert("scenes"@[0] != "creatorNotesMultilingual"@[0]);
    assert("scenes"@[1] != "source"@[1]);
    assert("scenes"@[0] != "characterBook"@[0]);
    assert("id"@[0] != "selectedVariantId"@[0]);
    assert("id"@[0] != "selectedVariant"@[0]);
    assert("schema"@[0] != "payload"@[0]);
    assert("schema"@[0] != "meta"@[0]);
    assert("payload"@[0] != "meta"@[0]);
    assert("selectedVariant"@.len() != "selectedVariantId"@.len());
    assert("defaultSceneId"@[0] != "promptTemplateId"@[0]);
    assert("defaultSceneId"@[0] != "systemPrompt"@[0]);
    assert("defaultSceneId"@[0] != "rules"@[0]);
    assert("defaultSceneId"@[0] != "fallbackModelId"@[0]);
    assert("defaultSceneId"@[0] != "nickname"@[0]);
    assert("defaultSceneId"@[0] != "creator"@[0]);
    assert("defaultSceneId"@[0] != "creatorNotes"@[0]);
    assert("defaultSceneId"@[0] != "creatorNotesMultilingual"@[0]);
    assert("defaultSceneId"@[0] != "source"@[0]);
    assert("defaultSceneId"@[0] != "characterBook"@[0]);
    assert("defaultSceneId"@[0] != "scene"@[0]);
    assert("defaultSceneId"@[0] != "scenes"@[0]);
}

/// The `scenes` of a document's payload, if any.
pub open spec fn payload_scenes(d: Json) -> Option<Json> {
    match d.get("payload"@) {
        Some(p) => p.get("scenes"@),
        None => None,
    }
}

/// Exactly one scene, an object.
pub open spec fn one_scene(d: Json) -> bool {
    payload_scenes(d) matches Some(Json::Arr(ss)) && ss.len() == 1 && ss[0] is Obj
}

/// The one scene of a document's payload.
pub open spec fn the_scene(d: Json) -> Json {
    payload_scenes(d)->0->Arr_0[0]
}

/// Converting a first-generation document up and back down gives a first-generation
/// document again. When the document had exactly one scene, the scene that comes
/// back has the same `id`, `defaultSceneId` names it, and its `selectedVariantId`
/// comes back too (a null or a variant id; the number 0 would come back as null).
#[verifier::spinoff_prover]
pub proof fn lemma_convert_round_trip(root: Members, keep_rules: bool)
    requires
        doc_version(Json::Obj(root)) == Some(crate::text::SCHEMA_VERSION@),
    ensures
        doc_version(converted(root)) == Some(crate::text::SCHEMA_VERSION_V2@),
        doc_version(downgraded(converted(root)->Obj_0, keep_rules).0) == Some(
            crate::text::SCHEMA_VERSION@,
        ),
        one_scene(Json::Obj(root)) ==> ({
            let back = downgraded(converted(root)->Obj_0, keep_rules).0;
            &&& payload_scenes(back) matches Some(Json::Arr(out))
            &&& out.len() == 1
            &&& out[0].get("id"@) == the_scene(Json::Obj(root)).get("id"@)
            &&& the_scene(Json::Obj(root)).get("id"@) is Some ==> back.get("payload"@)->0.get(
                "defaultSceneId"@,
            ) == the_scene(Json::Obj(root)).get("id"@)
            &&& the_scene(Json::Obj(root)).get("selectedVariantId"@) is Some && !is_zero(
                the_scene(Json::Obj(root)).get("selectedVariantId"@),
            ) ==> out[0].get("selectedVariantId"@) == the_scene(Json::Obj(root)).get(
                "selectedVariantId"@,
            )
        }),
{
    broadcast use crate::value::group_member_updates;

    lemma_keys_differ();
    let conv = converted(root);
    let croot = conv->Obj_0;
    if one_scene(Json::Obj(root)) {
        let pm = lookup(root, "payload"@)->0->Obj_0;
        let ss = lookup(pm, "scenes"@)->0->Arr_0;
        let p1 = without(pm, "rules"@);
        let d = lookup(p1, "defaultSceneId"@);
        if let Some(Json::Str(id)) = d {
            assert(ss.drop_first().len() == 0);
            assert(scene_with_id(ss.drop_first(), id) is None);
        }
        assert(picked_scene(ss, d) == ss[0]);
        let sm = ss[0]->Obj_0;
        let folded = folded_scene(sm);
        let cp = converted_payload(pm);
        assert(lookup(cp, "scene"@) == Some(Json::Obj(folded)));
        assert(lookup(croot, "payload"@) == Some(Json::Obj(cp)));
        let unfolded = unfolded_scene(folded);
        assert(lookup(unfolded, "id"@) == lookup(sm, "id"@));
        let sel = lookup(sm, "selectedVariantId"@);
        if sel is Some && !is_zero(sel) {
            assert(lookup(folded, "selectedVariant"@) == Some(
                if sel->0 == Json::Null {
                    Json::Num(crate::json::Num::PosInt(0))
                } else {
                    sel->0
                },
            ));
            assert(lookup(unfolded, "selectedVariantId"@) == sel);
        }
        let dp = downgraded_payload(cp, keep_rules);
        assert(lookup(dp.0, "scenes"@) == Some(Json::Arr(seq![Json::Obj(unfolded)])));
        if lookup(sm, "id"@) is Some {
            assert(lookup(scene_as_list(cp), "defaultSceneId"@) == lookup(sm, "id"@));
            assert(lookup(dp.0, "defaultSceneId"@) == lookup(sm, "id"@));
        }
    }
}

// ---------------------------------------------------------------- key order

proof fn lemma_key_lt_irreflexive(a: Seq<char>)
    ensures
        !key_lt(a, a),
    decreases a.len(),
{
    if a.len() > 0 {
        lemma_key_lt_irreflexive(a.drop_first());
    }
}

proof fn lemma_key_lt_total(a: Seq<char>, b: Seq<char>)
    ensures
        a != b ==> key_lt(a, b) || key_lt(b, a),
        key_lt(a, b) ==> !key_lt(b, a),
    decreases a.len(),
{
    if a.len() > 0 && b.len() > 0 {
        lemma_key_lt_total(a.drop_first(), b.drop_first());
        if a[0] != b[0] {
            assert((a[0] as int) != (b[0] as int));
        }
        if a[0] == b[0] && a != b {
            assert(a.drop_first() != b.drop_first()) by {
                if a.drop_first() == b.drop_first() {
                    assert(a =~= seq![a[0]] + a.drop_first());
                    assert(b =~= seq![b[0]] + b.drop_first());
                }
            }
        }
    } else if a.len() == 0 && b.len() == 0 {
        assert(a =~= b);
    }
}

proof fn lemma_key_lt_transitive(a: Seq<char>, b: Seq<char>, c: Seq<char>)
    requires
        key_lt(a, b),
        key_lt(b, c),
    ensures
        key_lt(a, c),
    decreases a.len(),
{
    if a.len() > 0 && b.len() > 0 && c.len() > 0 && a[0] == b[0] && b[0] == c[0] {
        lemma_key_lt_transitive(a.drop_first(), b.drop_first(), c.drop_first());
    }
}

/// Each key comes before every later one.
pub open spec fn strictly_sorted(ks: Seq<Seq<char>>) -> bool {
    forall|i: int, j: int| 0 <= i < j < ks.len() ==> key_lt(#[trigger] ks[i], #[trigger] ks[j])
}

#[verifier::spinoff_prover]
proof fn lemma_before_greater(ks: Seq<Seq<char>>, k: Seq<char>)
    requires
        strictly_sorted(ks),
        !ks.contains(k),
    ensures
        strictly_sorted(key_before_greater(ks, k)),
        forall|x: Seq<char>| #[trigger] key_before_greater(ks, k).contains(x) <==> (ks.contains(x) || x == k),
    decreases ks.len(),
{
    let t = key_before_greater(ks, k);
    if ks.len() == 0 {
        assert(t =~= seq![k]);
        assert forall|x: Seq<char>| t.contains(x) <==> (ks.contains(x) || x == k) by {
            if x == k {
                assert(t[0] == x);
            }
        }
    } else if key_lt(k, ks[0]) {
        assert(t =~= seq![k] + ks);
        assert forall|i: int, j: int| 0 <= i < j < t.len() implies key_lt(t[i], t[j]) by {
            if i == 0 && j > 1 {
                lemma_key_lt_transitive(k, ks[0], ks[j - 1]);
            }
        }
        assert forall|x: Seq<char>| t.contains(x) <==> (ks.contains(x) || x == k) by {
            if t.contains(x) {
                let i = choose|i: int| 0 <= i < t.len() && t[i] == x;
                if i > 0 {
                    assert(ks[i - 1] == x);
                }
            }
            if ks.contains(x) {
                let i = choose|i: int| 0 <= i < ks.len() && ks[i] == x;
                assert(t[i + 1] == x);
            }
            if x == k {
                assert(t[0] == x);
            }
        }
    } else {
        let rest = ks.drop_first();
        assert(!rest.contains(k)) by {
            if rest.contains(k) {
                let i = choose|i: int| 0 <= i < rest.len() && rest[i] == k;
                assert(ks[i + 1] == k);
            }
        }
        assert(strictly_sorted(rest)) by {
            assert forall|i: int, j: int| 0 <= i < j < rest.len() implies key_lt(rest[i], rest[j]) by {
                assert(ks[i + 1] == rest[i] && ks[j + 1] == rest[j]);
            }
        }
        lemma_before_greater(rest, k);
        let u = key_before_greater(rest, k);
        assert(t =~= seq![ks[0]] + u);
        lemma_key_lt_total(k, ks[0]);
        assert(k != ks[0]) by {
            if k == ks[0] {
                assert(ks.contains(k));
            }
        }
        assert forall|i: int, j: int| 0 <= i < j < t.len() implies key_lt(t[i], t[j]) by {
            if i == 0 {
                let x = u[j - 1];
                assert(u.contains(x));
                if x == k {
                } else {
                    let m = choose|m: int| 0 <= m < rest.len() && rest[m] == x;
                    assert(ks[m + 1] == x);
                }
            }
        }
        assert forall|x: Seq<char>| t.contains(x) <==> (ks.contains(x) || x == k) by {
            if t.contains(x) {
                let i = choose|i: int| 0 <= i < t.len() && t[i] == x;
                if i > 0 {
                    assert(u.contains(x));
                    if x != k {
                        let m = choose|m: int| 0 <= m < rest.len() && rest[m] == x;
                        assert(ks[m + 1] == x);
                    }
                } else {
                    assert(ks[0] == x);
                }
            }
            if ks.contains(x) {
                let i = choose|i: int| 0 <= i < ks.len() && ks[i] == x;
                if i == 0 {
                    assert(t[0] == x);
                } else {
                    assert(rest[i - 1] == x);
                    assert(u.contains(x));
                    let m = choose|m: int| 0 <= m < u.len() && u[m] == x;
                    assert(t[m + 1] == x);
                }
            }
            if x == k {
                assert(u.contains(x));
                let m = choose|m: int| 0 <= m < u.len() && u[m] == x;
                assert(t[m + 1] == x);
            }
        }
    }
}

/// `keys_in_order` gives each key once, in key order.
pub proof fn lemma_keys_in_order(ks: Seq<Seq<char>>)
    ensures
        strictly_sorted(keys_in_order(ks)),
        forall|x: Seq<char>| #[trigger] keys_in_order(ks).contains(x) <==> ks.contains(x),
    decreases ks.len(),
{
    if ks.len() > 0 {
        let prev = ks.drop_last();
        lemma_keys_in_order(prev);
        let o = keys_in_order(prev);
        if !o.contains(ks.last()) {
            lemma_before_greater(o, ks.last());
        }
        assert forall|x: Seq<char>| keys_in_order(ks).contains(x) <==> ks.contains(x) by {
            if prev.contains(x) {
                let i = choose|i: int| 0 <= i < prev.len() && prev[i] == x;
                assert(ks[i] == x);
            }
            if ks.contains(x) {
                let i = choose|i: int| 0 <= i < ks.len() && ks[i] == x;
                if i < ks.len() - 1 {
                    assert(prev[i] == x);
                }
            }
        }
    }
}

/// Two lists in strict key order with the same keys are the same list.
#[verifier::spinoff_prover]
pub proof fn lemma_sorted_unique(a: Seq<Seq<char>>, b: Seq<Seq<char>>)
    requires
        strictly_sorted(a),
        strictly_sorted(b),
        forall|x: Seq<char>| a.contains(x) <==> b.contains(x),
    ensures
        a == b,
    decreases a.len(),
{
    if a.len() == 0 {
        if b.len() > 0 {
            assert(b.contains(b[0]));
        }
        assert(a =~= b);
    } else {
        assert(a.contains(a[0]));
        assert(b.len() > 0);
        assert(b.contains(b[0]));
        let i = choose|i: int| 0 <= i < b.len() && b[i] == a[0];
        let j = choose|j: int| 0 <= j < a.len() && a[j] == b[0];
        if a[0] != b[0] {
            assert(i > 0 && j > 0);
            assert(key_lt(b[0], b[i]));
            assert(key_lt(a[0], a[j]));
            lemma_key_lt_total(a[0], b[0]);
        }
        let ra = a.drop_first();
        let rb = b.drop_first();
        assert(strictly_sorted(ra)) by {
            assert forall|p: int, q: int| 0 <= p < q < ra.len() implies key_lt(ra[p], ra[q]) by {
                assert(a[p + 1] == ra[p] && a[q + 1] == ra[q]);
            }
        }
        assert(strictly_sorted(rb)) by {
            assert forall|p: int, q: int| 0 <= p < q < rb.len() implies key_lt(rb[p], rb[q]) by {
                assert(b[p + 1] == rb[p] && b[q + 1] == rb[q]);
            }
        }
        assert forall|x: Seq<char>| ra.contains(x) <==> rb.contains(x) by {
            if ra.contains(x) {
                let p = choose|p: int| 0 <= p < ra.len() && ra[p] == x;
                assert(a[p + 1] == x);
                assert(key_lt(a[0], a[p + 1]));
                lemma_key_lt_irreflexive(x);
                assert(b.contains(x));
                let q = choose|q: int| 0 <= q < b.len() && b[q] == x;
                assert(q != 0);
                assert(rb[q - 1] == x);
            }
            if rb.contains(x) {
                let p = choose|p: int| 0 <= p < rb.len() && rb[p] == x;
                assert(b[p + 1] == x);
                assert(key_lt(b[0], b[p + 1]));
                lemma_key_lt_irreflexive(x);
                assert(a.contains(x));
                let q = choose|q: int| 0 <= q < a.len() && a[q] == x;
                assert(q != 0);
                assert(ra[q - 1] == x);
            }
        }
        lemma_sorted_unique(ra, rb);
        assert(a =~= seq![a[0]] + ra);
        assert(b =~= seq![b[0]] + rb);
    }
}

/// The union of two objects' keys does not depend on which object comes first.
pub proof fn lemma_key_union_symmetric(l: Members, r: Members)
    ensures
        key_union(l, r) == key_union(r, l),
{
    let a = member_keys(l) + member_keys(r);
    let b = member_keys(r) + member_keys(l);
    lemma_keys_in_order(a);
    lemma_keys_in_order(b);
    assert forall|x: Seq<char>| a.contains(x) <==> b.contains(x) by {
        if a.contains(x) {
            let i = choose|i: int| 0 <= i < a.len() && a[i] == x;
            if i < l.len() {
                assert(b[r.len() + i] == x);
            } else {
                assert(b[i - l.len()] == x);
            }
        }
        if b.contains(x) {
            let i = choose|i: int| 0 <= i < b.len() && b[i] == x;
            if i < r.len() {
                assert(a[l.len() + i] == x);
            } else {
                assert(a[i - r.len()] == x);
            }
        }
    }
    lemma_sorted_unique(keys_in_order(a), keys_in_order(b));
}

proof fn lemma_member_keys_before_greater(s: Members, k: Seq<char>, v: Json)
    ensures
        member_keys(insert_before_greater(s, k, v)) == key_before_greater(member_keys(s), k),
    decreases s.len(),
{
    let t = insert_before_greater(s, k, v);
    if s.len() == 0 {
        assert(member_keys(t) =~= seq![k]);
    } else if key_lt(k, s[0].0) {
        assert(member_keys(t) =~= seq![k] + member_keys(s));
    } else {
        lemma_member_keys_before_greater(s.drop_first(), k, v);
        assert(member_keys(s).drop_first() =~= member_keys(s.drop_first()));
        assert(member_keys(t) =~= seq![s[0].0] + member_keys(insert_before_greater(s.drop_first(), k, v)));
    }
}

/// A normalized object has each key once, in key order.
pub proof fn lemma_normalized_keys_sorted(m: Members)
    ensures
        strictly_sorted(member_keys(normalized_members(m))),
    decreases m.len(),
{
    if m.len() > 0 {
        let prev = normalized_members(m.drop_last());
        lemma_normalized_keys_sorted(m.drop_last());
        let k = m.last().0;
        if !has_key(prev, k) {
            assert(!member_keys(prev).contains(k)) by {
                if member_keys(prev).contains(k) {
                    let i = choose|i: int| 0 <= i < member_keys(prev).len() && member_keys(prev)[i] == k;
                    assert(prev[i].0 == k);
                }
            }
            lemma_member_keys_before_greater(prev, k, normalized(m.last().1));
            lemma_before_greater(member_keys(prev), k);
        }
    }
}

/// The conflicts that `merge_uec` reports come once each, in key order, and are
/// exactly the non-empty paths that the merge recorded.
pub proof fn lemma_conflict_list(raw: Seq<Seq<char>>)
    ensures
        strictly_sorted(conflict_list(raw)),
        forall|x: Seq<char>| #[trigger] conflict_list(raw).contains(x) <==> (raw.contains(x) && x.len() > 0),
    decreases raw.len(),
{
    if raw.len() > 0 {
        let prev = raw.drop_last();
        lemma_conflict_list(prev);
        let c = conflict_list(prev);
        if raw.last().len() > 0 && !c.contains(raw.last()) {
            lemma_before_greater(c, raw.last());
        }
        assert forall|x: Seq<char>| conflict_list(raw).contains(x) <==> (raw.contains(x) && x.len() > 0) by {
            if prev.contains(x) {
                let i = choose|i: int| 0 <= i < prev.len() && prev[i] == x;
                assert(raw[i] == x);
            }
            if raw.contains(x) {
                let i = choose|i: int| 0 <= i < raw.len() && raw[i] == x;
                if i < raw.len() - 1 {
                    assert(prev[i] == x);
                }
            }
        }
    }
}

// ---------------------------------------------------------------- merge toward the base

/// Whether `out` keeps `a` wherever `a` and `b` differ on a leaf: a null `b` changes
/// nothing, a key that only `a` has keeps its value, a key that both have is kept
/// recursively, and any other pair but two arrays yields `a`.
pub open spec fn keeps_base(a: Json, b: Json, out: Json) -> bool
    decreases a, 0nat,
{
    if b == Json::Null {
        out == a
    } else {
        match a {
            Json::Arr(_) => b is Arr || out == a,
            Json::Obj(l) => match b {
                Json::Obj(r) => out matches Json::Obj(om) && forall|k: Seq<char>|
                    0 <= #[trigger] key_index(l, k) < l.len() ==> member_kept(l, r, k, om),
                _ => out == a,
            },
            _ => out == a,
        }
    }
}

/// The merged member `k` keeps the base's value, recursively where both sides have it.
pub open spec fn member_kept(l: Members, r: Members, k: Seq<char>, om: Members) -> bool
    decreases l, 1nat,
{
    let i = key_index(l, k);
    let j = key_index(r, k);
    0 <= i < l.len() ==> (lookup(om, k) matches Some(v) && if 0 <= j < r.len() {
        keeps_base(l[i].1, r[j].1, v)
    } else {
        v == l[i].1
    })
}

proof fn lemma_members_keep_base(
    l: Members,
    r: Members,
    p: Seq<char>,
    concat: bool,
    keys: Seq<Seq<char>>,
    n: nat,
    acc: Seq<Seq<char>>,
)
    requires
        n <= keys.len(),
    ensures
        ({
            let mm = merged_members(l, r, p, concat, true, keys, n, acc).0;
            &&& mm.len() == n
            &&& forall|t: int| 0 <= t < n ==> (#[trigger] mm[t]).0 == keys[t]
            &&& forall|t: int|
                0 <= t < n && 0 <= key_index(l, keys[t]) < l.len() ==> ({
                    let i = key_index(l, keys[t]);
                    let j = key_index(r, keys[t]);
                    if 0 <= j < r.len() {
                        keeps_base(l[i].1, r[j].1, #[trigger] mm[t].1)
                    } else {
                        mm[t].1 == l[i].1
                    }
                })
        }),
    decreases l, n,
{
    if n > 0 {
        lemma_members_keep_base(l, r, p, concat, keys, (n - 1) as nat, acc);
        let prev = merged_members(l, r, p, concat, true, keys, (n - 1) as nat, acc);
        let k = keys[n - 1];
        let i = key_index(l, k);
        let j = key_index(r, k);
        lemma_key_index(l, k);
        lemma_key_index(r, k);
        if 0 <= i < l.len() && 0 <= j < r.len() {
            lemma_merge_keeps_base(
                l[i].1,
                r[j].1,
                crate::text::key_path(p, k),
                concat,
                prev.1,
            );
        }
    }
}

/// With conflicts resolved toward the base, the merged value keeps the base wherever
/// the two sides differ on a leaf, at any depth.
#[verifier::spinoff_prover]
pub proof fn lemma_merge_keeps_base(
    a: Json,
    b: Json,
    p: Seq<char>,
    concat: bool,
    acc: Seq<Seq<char>>,
)
    ensures
        keeps_base(a, b, merged(a, b, p, concat, true, acc).0),
    decreases a, 0nat,
{
    if b != Json::Null {
        if let (Json::Obj(l), Json::Obj(r)) = (a, b) {
            let keys = key_union(l, r);
            lemma_members_keep_base(l, r, p, concat, keys, keys.len(), acc);
            let mm = merged_members(l, r, p, concat, true, keys, keys.len(), acc).0;
            lemma_keys_in_order(member_keys(l) + member_keys(r));
            assert forall|k: Seq<char>| 0 <= #[trigger] key_index(l, k) < l.len() implies member_kept(
                l,
                r,
                k,
                mm,
            ) by {
                lemma_key_index(l, k);
                let i = key_index(l, k);
                assert((member_keys(l) + member_keys(r))[i] == k);
                assert(keys.contains(k));
                let t = choose|t: int| 0 <= t < keys.len() && keys[t] == k;
                assert forall|s2: int| 0 <= s2 < t implies mm[s2].0 != k by {
                    assert(key_lt(keys[s2], keys[t]));
                    lemma_key_lt_irreflexive(k);
                }
                lemma_key_index(mm, k);
                let q = key_index(mm, k);
                assert(mm[t].0 == k);
                if q != t {
                    assert(q >= 0 && q < t);
                }
            }
        }
    }
}

// ---------------------------------------------------------------- diff

/// An entry seen from the other side: `added` and `removed` trade places, and the
/// values before and after trade places.
pub open spec fn swapped(c: Change) -> Change {
    (
        c.0,
        if c.1 == "added"@ {
            "removed"@
        } else if c.1 == "removed"@ {
            "added"@
        } else {
            c.1
        },
        c.3,
        c.2,
    )
}

pub open spec fn all_swapped(s: Seq<Change>) -> Seq<Change> {
    s.map_values(|c: Change| swapped(c))
}

proof fn lemma_swap_push(s: Seq<Change>, c: Change)
    ensures
        all_swapped(s.push(c)) == all_swapped(s).push(swapped(c)),
{
    assert(all_swapped(s.push(c)) =~= all_swapped(s).push(swapped(c)));
}

proof fn lemma_kinds_differ()
    ensures
        "changed"@ != "added"@,
        "changed"@ != "removed"@,
        "removed"@ != "added"@,
{
    reveal_strlit("changed");
    reveal_strlit("added");
    reveal_strlit("removed");
    assert("changed"@[0] != "added"@[0]);
    assert("changed"@[0] != "removed"@[0]);
    assert("removed"@[0] != "added"@[0]);
}

proof fn lemma_leaf_swap(a: Json, b: Json, p: Seq<char>, acc: Seq<Change>)
    ensures
        leaf_diff(b, a, p, all_swapped(acc)) == all_swapped(leaf_diff(a, b, p, acc)),
{
    lemma_kinds_differ();
    if a != b {
        lemma_swap_push(acc, (shown_path(p), "changed"@, Some(a), Some(b)));
    }
}

proof fn lemma_diff_swap(a: Json, b: Json, p: Seq<char>, acc: Seq<Change>)
    ensures
        diff_walk(b, a, p, all_swapped(acc)) == all_swapped(diff_walk(a, b, p, acc)),
    decreases a, 0nat,
{
    if a != b {
        match (a, b) {
            (Json::Arr(l), Json::Arr(r)) => {
                let n = if l.len() >= r.len() {
                    l.len()
                } else {
                    r.len()
                };
                lemma_items_swap(l, r, p, n, acc);
            },
            (Json::Obj(l), Json::Obj(r)) => {
                lemma_key_union_symmetric(l, r);
                let keys = key_union(l, r);
                lemma_keys_swap(l, r, p, keys, keys.len(), acc);
            },
            _ => {
                lemma_leaf_swap(a, b, p, acc);
            },
        }
    }
}

proof fn lemma_items_swap(l: Seq<Json>, r: Seq<Json>, p: Seq<char>, n: nat, acc: Seq<Change>)
    ensures
        diff_items(r, l, p, n, all_swapped(acc)) == all_swapped(diff_items(l, r, p, n, acc)),
    decreases l, n,
{
    if n > 0 {
        lemma_items_swap(l, r, p, (n - 1) as nat, acc);
        let prev = diff_items(l, r, p, (n - 1) as nat, acc);
        let i = n - 1;
        let q = index_path(p, i as nat);
        if i < l.len() && i < r.len() {
            lemma_diff_swap(l[i], r[i], q, prev);
        } else if i < l.len() {
            lemma_leaf_swap(l[i], Json::Null, q, prev);
        } else if i < r.len() {
            lemma_leaf_swap(Json::Null, r[i], q, prev);
        }
    }
}

proof fn lemma_keys_swap(
    l: Members,
    r: Members,
    p: Seq<char>,
    keys: Seq<Seq<char>>,
    n: nat,
    acc: Seq<Change>,
)
    ensures
        diff_keys(r, l, p, keys, n, all_swapped(acc)) == all_swapped(
            diff_keys(l, r, p, keys, n, acc),
        ),
    decreases l, n,
{
    if n > 0 {
        lemma_keys_swap(l, r, p, keys, (n - 1) as nat, acc);
        let prev = diff_keys(l, r, p, keys, (n - 1) as nat, acc);
        let k = keys[n - 1];
        let q = crate::text::key_path(p, k);
        let i = key_index(l, k);
        let j = key_index(r, k);
        lemma_key_index(l, k);
        lemma_key_index(r, k);
        lemma_kinds_differ();
        if 0 <= i < l.len() && 0 <= j < r.len() {
            lemma_diff_swap(l[i].1, r[j].1, q, prev);
        } else if 0 <= j < r.len() {
            lemma_swap_push(prev, (q, "added"@, None, Some(r[j].1)));
        } else if 0 <= i < l.len() {
            lemma_swap_push(prev, (q, "removed"@, Some(l[i].1), None));
        }
    }
}

/// A document compared with itself has no differences.
pub proof fn lemma_diff_self(a: Json)
    ensures
        diff_walk(normalized_doc(a), normalized_doc(a), ""@, seq![]) == Seq::<Change>::empty(),
{
}

/// Comparing the other way round reports the same paths in the same order, with
/// `added` and `removed` traded and each `changed` entry's values traded.
pub proof fn lemma_diff_reverse(a: Json, b: Json)
    ensures
        diff_walk(normalized_doc(b), normalized_doc(a), ""@, seq![]) == all_swapped(
            diff_walk(normalized_doc(a), normalized_doc(b), ""@, seq![]),
        ),
{
    assert(all_swapped(seq![]) =~= seq![]);
    lemma_diff_swap(normalized_doc(a), normalized_doc(b), ""@, seq![]);
}

} // verus!
