//! Conversion between the two schema generations.
use vstd::prelude::*;

use crate::json::{
    group_json_view, is_num, is_str, lookup, oview, view_items, view_members,
    with_member, without, Json, JsonNumber, JsonValue, Num,
};
use crate::text::{
    after_prefix, has_prefix, join, starts_with, text_is, texts, SCHEMA_VERSION, SCHEMA_VERSION_V2,
};
use crate::normalize::{normalize_uec, normalized_doc};
use crate::types::DowngradeResult;
use crate::validate::{is_zero, Errs, doc_version, joined, join_texts, validate_uec, validation_errors, version_of, Members};
use crate::value::{
    copy_members, get_member, group_member_updates, is_number, is_string, remove_member,
    set_member,
};

verus! {

broadcast use {group_json_view, group_member_updates};

/// The first scene whose `id` is the string `id`.
pub open spec fn scene_with_id(scenes: Seq<Json>, id: Seq<char>) -> Option<Json>
    decreases scenes.len(),
{
    if scenes.len() == 0 {
        None
    } else if scenes[0].get("id"@) == Some(Json::Str(id)) {
        Some(scenes[0])
    } else {
        scene_with_id(scenes.drop_first(), id)
    }
}

/// The scene a first-generation character opens with: the one that
/// `defaultSceneId` names, else the first.
pub open spec fn picked_scene(scenes: Seq<Json>, default_id: Option<Json>) -> Json {
    match default_id {
        Some(Json::Str(d)) => match scene_with_id(scenes, d) {
            Some(s) => s,
            None => scenes[0],
        },
        _ => scenes[0],
    }
}

/// `selectedVariantId` renamed to `selectedVariant`, null becoming `0`.
pub open spec fn folded_scene(sm: Members) -> Members {
    match lookup(sm, "selectedVariantId"@) {
        Some(sel) => with_member(
            without(sm, "selectedVariantId"@),
            "selectedVariant"@,
            if sel == Json::Null {
                Json::Num(Num::PosInt(0))
            } else {
                sel
            },
        ),
        None => sm,
    }
}

/// A first-generation character payload in second-generation shape.
pub open spec fn converted_payload(p: Members) -> Members {
    let p = without(p, "rules"@);
    let p = match lookup(p, "scenes"@) {
        Some(Json::Arr(ss)) => if ss.len() > 0 {
            match picked_scene(ss, lookup(p, "defaultSceneId"@)) {
                Json::Obj(sm) => with_member(p, "scene"@, Json::Obj(folded_scene(sm))),
                _ => p,
            }
        } else {
            p
        },
        _ => p,
    };
    let p = without(p, "scenes"@);
    let p = without(p, "defaultSceneId"@);
    match lookup(p, "systemPrompt"@) {
        Some(Json::Str(sp)) => if starts_with(sp, "_ID:"@) {
            let p = with_member(
                p,
                "promptTemplateId"@,
                Json::Str(sp.subrange("_ID:"@.len() as int, sp.len() as int)),
            );
            with_member(p, "systemPrompt"@, Json::Null)
        } else {
            p
        },
        _ => p,
    }
}

/// Meta with the provenance fields copied in once from their first-generation sources.
pub open spec fn provenance(mm: Members) -> Members {
    let mm = if lookup(mm, "originalCreatedAt"@) is None && is_num(lookup(mm, "createdAt"@)) {
        with_member(mm, "originalCreatedAt"@, lookup(mm, "createdAt"@)->0)
    } else {
        mm
    };
    let mm = if lookup(mm, "originalUpdatedAt"@) is None && is_num(lookup(mm, "updatedAt"@)) {
        with_member(mm, "originalUpdatedAt"@, lookup(mm, "updatedAt"@)->0)
    } else {
        mm
    };
    if lookup(mm, "originalSource"@) is None && is_str(lookup(mm, "source"@)) {
        with_member(mm, "originalSource"@, lookup(mm, "source"@)->0)
    } else {
        mm
    }
}

/// A first-generation document in second-generation shape.
pub open spec fn converted(root: Members) -> Json {
    let root = match lookup(root, "schema"@) {
        Some(Json::Obj(sm)) => with_member(
            root,
            "schema"@,
            Json::Obj(with_member(sm, "version"@, Json::Str(SCHEMA_VERSION_V2@))),
        ),
        _ => root,
    };
    let root = match lookup(root, "payload"@) {
        Some(Json::Obj(pm)) => with_member(root, "payload"@, Json::Obj(converted_payload(pm))),
        _ => root,
    };
    let meta = match lookup(root, "meta"@) {
        Some(Json::Obj(mm)) => mm,
        _ => Seq::empty(),
    };
    Json::Obj(with_member(root, "meta"@, Json::Obj(provenance(meta))))
}

#[verifier::loop_isolation(false)]
fn pick_scene<'a>(scenes: &'a Vec<JsonValue>, default_id: Option<&JsonValue>) -> (r: &'a JsonValue)
    requires
        scenes.len() > 0,
    ensures
        r@ == picked_scene(view_items(scenes@), oview(default_id)),
{
    let ghost all = view_items(scenes@);
    if let Some(JsonValue::String(d)) = default_id {
        let mut i: usize = 0;
        assert(all.subrange(0, all.len() as int) =~= all);
        while i < scenes.len()
            invariant
                i <= scenes.len(),
                all.len() == scenes.len(),
                scene_with_id(all, d@) == scene_with_id(all.subrange(i as int, all.len() as int), d@),
            decreases scenes.len() - i,
        {
            assert(all.subrange(i as int, all.len() as int).drop_first() =~= all.subrange(
                i + 1,
                all.len() as int,
            ));
            let matches = match scenes[i].get("id") {
                Some(JsonValue::String(id)) => *id == *d,
                _ => false,
            };
            if matches {
                return &scenes[i];
            }
            i += 1;
        }
    }
    &scenes[0]
}

fn fold_scene(sm: &mut Vec<(String, JsonValue)>)
    ensures
        view_members(final(sm)@) == folded_scene(view_members(old(sm)@)),
{
    let ghost m = view_members(sm@);
    match remove_member(sm, "selectedVariantId") {
        Some(sel) => {
            let replacement = match sel {
                JsonValue::Null => JsonValue::Number(JsonNumber::PosInt(0)),
                other => other,
            };
            assert(replacement@ == if lookup(m, "selectedVariantId"@)->0 == Json::Null {
                Json::Num(Num::PosInt(0))
            } else {
                lookup(m, "selectedVariantId"@)->0
            });
            set_member(sm, "selectedVariant", replacement);
        },
        None => {},
    }
}

#[verifier::spinoff_prover]
fn convert_payload(p: &mut Vec<(String, JsonValue)>)
    ensures
        view_members(final(p)@) == converted_payload(view_members(old(p)@)),
{
    let _ = remove_member(p, "rules");
    let picked: Option<Vec<(String, JsonValue)>> = match get_member(p, "scenes") {
        Some(JsonValue::Array(ss)) => {
            if ss.len() > 0 {
                match pick_scene(ss, get_member(p, "defaultSceneId")) {
                    JsonValue::Object(sm) => Some(copy_members(sm)),
                    _ => None,
                }
            } else {
                None
            }
        },
        _ => None,
    };
    if let Some(mut sm) = picked {
        fold_scene(&mut sm);
        set_member(p, "scene", JsonValue::Object(sm));
    }
    let _ = remove_member(p, "scenes");
    let _ = remove_member(p, "defaultSceneId");
    let template: Option<String> = match get_member(p, "systemPrompt") {
        Some(JsonValue::String(sp)) => {
            if has_prefix(sp.as_str(), "_ID:") {
                Some(after_prefix(sp.as_str(), "_ID:"))
            } else {
                None
            }
        },
        _ => None,
    };
    if let Some(t) = template {
        set_member(p, "promptTemplateId", JsonValue::String(t));
        set_member(p, "systemPrompt", JsonValue::Null);
    }
}

/// Copies `source` into `target` unless `target` is there or `source` is not of the wanted type.
fn copy_once(mm: &mut Vec<(String, JsonValue)>, source: &str, target: &str, number: bool)
    ensures
        view_members(final(mm)@) == if lookup(view_members(old(mm)@), target@) is None && (if number {
            is_num(lookup(view_members(old(mm)@), source@))
        } else {
            is_str(lookup(view_members(old(mm)@), source@))
        }) {
            with_member(
                view_members(old(mm)@),
                target@,
                lookup(view_members(old(mm)@), source@)->0,
            )
        } else {
            view_members(old(mm)@)
        },
{
    if get_member(mm, target).is_some() {
        return ;
    }
    let value = match get_member(mm, source) {
        Some(v) => {
            let fits = if number {
                is_number(Some(v))
            } else {
                is_string(Some(v))
            };
            if fits {
                Some(v.deep_copy())
            } else {
                None
            }
        },
        None => None,
    };
    if let Some(v) = value {
        set_member(mm, target, v);
    }
}

/// Converts a first-generation document to the second generation.
#[verifier::spinoff_prover]
pub fn convert_uec_v1_to_v2(card: &JsonValue) -> (r: Result<JsonValue, String>)
    ensures
        !(card@ is Obj) ==> (r matches Err(m) && m@ == "card must be an object"@),
        card@ is Obj && validation_errors(card@, false).len() != 0 ==> (r matches Err(m) && m@
            == "card must be a valid v1 UEC: "@ + joined(validation_errors(card@, false), "; "@)),
        card@ is Obj && validation_errors(card@, false).len() == 0 && doc_version(card@) != Some(
            SCHEMA_VERSION@,
        ) ==> (r matches Err(m) && m@ == "card must be schema version \"1.0\" to convert"@),
        card@ is Obj && validation_errors(card@, false).len() == 0 && doc_version(card@) == Some(
            SCHEMA_VERSION@,
        ) ==> (r matches Ok(v) && v@ == converted(card@->Obj_0)),
{
    let source = match card {
        JsonValue::Object(m) => m,
        _ => return Err(String::from_str("card must be an object")),
    };
    let validation = validate_uec(card, false);
    if !validation.ok {
        return Err(
            join("card must be a valid v1 UEC: ", join_texts(&validation.errors, "; ").as_str()),
        );
    }
    let is_v1 = match version_of(card) {
        Some(v) => text_is(v, SCHEMA_VERSION),
        None => false,
    };
    if !is_v1 {
        return Err(String::from_str("card must be schema version \"1.0\" to convert"));
    }
    let mut root = copy_members(source);
    let schema = match get_member(&root, "schema") {
        Some(JsonValue::Object(sm)) => Some(copy_members(sm)),
        _ => None,
    };
    if let Some(mut sm) = schema {
        set_member(&mut sm, "version", JsonValue::String(String::from_str(SCHEMA_VERSION_V2)));
        set_member(&mut root, "schema", JsonValue::Object(sm));
    }
    let payload = match get_member(&root, "payload") {
        Some(JsonValue::Object(pm)) => Some(copy_members(pm)),
        _ => None,
    };
    if let Some(mut pm) = payload {
        convert_payload(&mut pm);
        set_member(&mut root, "payload", JsonValue::Object(pm));
    }
    let mut meta = match get_member(&root, "meta") {
        Some(JsonValue::Object(mm)) => copy_members(mm),
        _ => {
            let empty: Vec<(String, JsonValue)> = Vec::new();
            assert(view_members(empty@) =~= Seq::empty());
            empty
        },
    };
    copy_once(&mut meta, "createdAt", "originalCreatedAt", true);
    copy_once(&mut meta, "updatedAt", "originalUpdatedAt", true);
    copy_once(&mut meta, "source", "originalSource", false);
    set_member(&mut root, "meta", JsonValue::Object(meta));
    Ok(JsonValue::Object(root))
}

/// `selectedVariant` renamed back to `selectedVariantId`, `0` becoming null.
pub open spec fn unfolded_scene(sm: Members) -> Members {
    match lookup(sm, "selectedVariant"@) {
        Some(sel) => with_member(
            without(sm, "selectedVariant"@),
            "selectedVariantId"@,
            if is_zero(Some(sel)) {
                Json::Null
            } else {
                sel
            },
        ),
        None => sm,
    }
}

/// The single `scene` turned back into a one-element `scenes` list.
pub open spec fn scene_as_list(p: Members) -> Members {
    match lookup(p, "scene"@) {
        Some(Json::Obj(sm)) => {
            let p = without(p, "scene"@);
            let sm = unfolded_scene(sm);
            let p = with_member(p, "scenes"@, Json::Arr(seq![Json::Obj(sm)]));
            match lookup(sm, "id"@) {
                Some(id) => with_member(p, "defaultSceneId"@, id),
                None => p,
            }
        },
        Some(_) => without(p, "scene"@),
        None => p,
    }
}

/// `promptTemplateId` folded back into a prefixed `systemPrompt` where there is none.
pub open spec fn prompt_restored(p: Members, w: Errs) -> (Members, Errs) {
    match lookup(p, "promptTemplateId"@) {
        Some(pt) => {
            let p = without(p, "promptTemplateId"@);
            let sp = lookup(p, "systemPrompt"@);
            let p = if (sp is None || sp == Some(Json::Null)) && pt is Str {
                with_member(p, "systemPrompt"@, Json::Str("_ID:"@ + pt->Str_0))
            } else {
                p
            };
            (p, w.push("payload.promptTemplateId was mapped to v1 systemPrompt and then removed"@))
        },
        None => (p, w),
    }
}

/// A second-generation-only payload field dropped, with its notice.
pub open spec fn field_dropped(pw: (Members, Errs), name: Seq<char>) -> (Members, Errs) {
    if lookup(pw.0, name) is Some {
        (
            without(pw.0, name),
            pw.1.push("payload."@ + name + " is not supported in v1 and was removed"@),
        )
    } else {
        pw
    }
}

pub open spec fn fields_dropped(pw: (Members, Errs)) -> (Members, Errs) {
    let pw = field_dropped(pw, "fallbackModelId"@);
    let pw = field_dropped(pw, "nickname"@);
    let pw = field_dropped(pw, "creator"@);
    let pw = field_dropped(pw, "creatorNotes"@);
    let pw = field_dropped(pw, "creatorNotesMultilingual"@);
    let pw = field_dropped(pw, "source"@);
    field_dropped(pw, "characterBook"@)
}

/// `rules` as an empty list, unless it is kept.
pub open spec fn rules_synthesized(p: Members, keep_rules: bool) -> Members {
    if keep_rules && lookup(p, "rules"@) is Some {
        p
    } else {
        with_member(p, "rules"@, Json::Arr(Seq::empty()))
    }
}

/// A second-generation payload in first-generation shape, with its notices.
pub open spec fn downgraded_payload(p: Members, keep_rules: bool) -> (Members, Errs) {
    let p = scene_as_list(p);
    let pw = prompt_restored(p, Seq::empty());
    let pw = fields_dropped(pw);
    (rules_synthesized(pw.0, keep_rules), pw.1)
}

/// A provenance field of meta dropped, with its notice.
pub open spec fn meta_field_dropped(mw: (Members, Errs), name: Seq<char>) -> (Members, Errs) {
    if lookup(mw.0, name) is Some {
        (
            without(mw.0, name),
            mw.1.push("meta."@ + name + " was removed for v1 compatibility"@),
        )
    } else {
        mw
    }
}

pub open spec fn meta_downgraded(mw: (Members, Errs)) -> (Members, Errs) {
    let mw = meta_field_dropped(mw, "originalCreatedAt"@);
    let mw = meta_field_dropped(mw, "originalUpdatedAt"@);
    meta_field_dropped(mw, "originalSource"@)
}

/// A second-generation document in first-generation shape, with the notices of
/// what was dropped.
pub open spec fn downgraded(root: Members, keep_rules: bool) -> (Json, Errs) {
    let root = match lookup(root, "schema"@) {
        Some(Json::Obj(sm)) => with_member(
            root,
            "schema"@,
            Json::Obj(with_member(sm, "version"@, Json::Str(SCHEMA_VERSION@))),
        ),
        _ => root,
    };
    let rw = match lookup(root, "payload"@) {
        Some(Json::Obj(pm)) => {
            let pw = downgraded_payload(pm, keep_rules);
            (with_member(root, "payload"@, Json::Obj(pw.0)), pw.1)
        },
        _ => (root, Seq::empty()),
    };
    let rw = match lookup(rw.0, "meta"@) {
        Some(Json::Obj(mm)) => {
            let mw = meta_downgraded((mm, rw.1));
            (with_member(rw.0, "meta"@, Json::Obj(mw.0)), mw.1)
        },
        _ => rw,
    };
    (Json::Obj(rw.0), rw.1)
}

fn unfold_scene(sm: &mut Vec<(String, JsonValue)>)
    ensures
        view_members(final(sm)@) == unfolded_scene(view_members(old(sm)@)),
{
    let ghost m = view_members(sm@);
    match remove_member(sm, "selectedVariant") {
        Some(sel) => {
            let zero = match &sel {
                JsonValue::Number(n) => n.is_zero(),
                _ => false,
            };
            let replacement = if zero {
                JsonValue::Null
            } else {
                sel
            };
            set_member(sm, "selectedVariantId", replacement);
        },
        None => {},
    }
}

fn scene_to_list(p: &mut Vec<(String, JsonValue)>)
    ensures
        view_members(final(p)@) == scene_as_list(view_members(old(p)@)),
{
    match remove_member(p, "scene") {
        Some(JsonValue::Object(mut sm)) => {
            unfold_scene(&mut sm);
            let id = match get_member(&sm, "id") {
                Some(v) => Some(v.deep_copy()),
                None => None,
            };
            let ghost sv = view_members(sm@);
            let list = vec![JsonValue::Object(sm)];
            assert(view_items(list@) =~= seq![Json::Obj(sv)]);
            set_member(p, "scenes", JsonValue::Array(list));
            if let Some(v) = id {
                set_member(p, "defaultSceneId", v);
            }
        },
        _ => {},
    }
}

fn restore_prompt(p: &mut Vec<(String, JsonValue)>, warnings: &mut Vec<String>)
    ensures
        (view_members(final(p)@), texts(final(warnings)@)) == prompt_restored(
            view_members(old(p)@),
            texts(old(warnings)@),
        ),
{
    if let Some(pt) = remove_member(p, "promptTemplateId") {
        let free = match get_member(p, "systemPrompt") {
            None => true,
            Some(JsonValue::Null) => true,
            _ => false,
        };
        if free {
            if let JsonValue::String(t) = pt {
                set_member(p, "systemPrompt", JsonValue::String(join("_ID:", t.as_str())));
            }
        }
        let ghost before = warnings@;
        let notice = String::from_str(
            "payload.promptTemplateId was mapped to v1 systemPrompt and then removed",
        );
        warnings.push(notice);
        assert(texts(warnings@) =~= texts(before).push(notice@));
    }
}

fn drop_field(
    p: &mut Vec<(String, JsonValue)>,
    warnings: &mut Vec<String>,
    name: &str,
)
    ensures
        (view_members(final(p)@), texts(final(warnings)@)) == field_dropped(
            (view_members(old(p)@), texts(old(warnings)@)),
            name@,
        ),
{
    if remove_member(p, name).is_some() {
        let ghost before = warnings@;
        let notice = join("payload.", name).concat(" is not supported in v1 and was removed");
        warnings.push(notice);
        assert(texts(warnings@) =~= texts(before).push(notice@));
    }
}

fn drop_meta_field(
    m: &mut Vec<(String, JsonValue)>,
    warnings: &mut Vec<String>,
    name: &str,
)
    ensures
        (view_members(final(m)@), texts(final(warnings)@)) == meta_field_dropped(
            (view_members(old(m)@), texts(old(warnings)@)),
            name@,
        ),
{
    if remove_member(m, name).is_some() {
        let ghost before = warnings@;
        let notice = join("meta.", name).concat(" was removed for v1 compatibility");
        warnings.push(notice);
        assert(texts(warnings@) =~= texts(before).push(notice@));
    }
}

#[verifier::spinoff_prover]
fn downgrade_payload(p: &mut Vec<(String, JsonValue)>, keep_rules: bool) -> (r: Vec<String>)
    ensures
        (view_members(final(p)@), texts(r@)) == downgraded_payload(
            view_members(old(p)@),
            keep_rules,
        ),
{
    scene_to_list(p);
    let mut warnings: Vec<String> = Vec::new();
    assert(texts(warnings@) =~= Seq::empty());
    restore_prompt(p, &mut warnings);
    drop_field(p, &mut warnings, "fallbackModelId");
    drop_field(p, &mut warnings, "nickname");
    drop_field(p, &mut warnings, "creator");
    drop_field(p, &mut warnings, "creatorNotes");
    drop_field(p, &mut warnings, "creatorNotesMultilingual");
    drop_field(p, &mut warnings, "source");
    drop_field(p, &mut warnings, "characterBook");
    if !(keep_rules && get_member(p, "rules").is_some()) {
        let empty: Vec<JsonValue> = Vec::new();
        assert(view_items(empty@) =~= Seq::empty());
        set_member(p, "rules", JsonValue::Array(empty));
    }
    warnings
}

/// Converts a second-generation document back to the first generation, dropping
/// what the first has no place for and saying so in the warnings.
#[verifier::spinoff_prover]
pub fn downgrade_uec(card: &JsonValue, target_version: &str, keep_rules: bool) -> (r: Result<
    DowngradeResult,
    String,
>)
    ensures
        target_version@ != SCHEMA_VERSION@ ==> (r matches Err(m) && m@
            == "unsupported target version: "@ + target_version@),
        target_version@ == SCHEMA_VERSION@ && doc_version(card@) is None ==> (r matches Err(m)
            && m@ == "card must be an object with a schema"@),
        target_version@ == SCHEMA_VERSION@ && doc_version(card@) == Some(SCHEMA_VERSION@) ==> (
        r matches Ok(d) && d.card@ == normalized_doc(card@) && d.warnings@.len() == 0),
        target_version@ == SCHEMA_VERSION@ && doc_version(card@) is Some && doc_version(card@)->0
            != SCHEMA_VERSION@ && doc_version(card@)->0 != SCHEMA_VERSION_V2@ ==> (r matches Err(m)
            && m@ == "unsupported source version: "@ + doc_version(card@)->0),
        target_version@ == SCHEMA_VERSION@ && doc_version(card@) == Some(SCHEMA_VERSION_V2@)
            && doc_version(card@) != Some(SCHEMA_VERSION@) ==> (r matches Ok(d) && (
        d.card@,
        texts(d.warnings@),
        ) == downgraded(card@->Obj_0, keep_rules)),
{
    if !known_target(target_version) {
        return Err(join("unsupported target version: ", target_version));
    }
    let version = match version_of(card) {
        Some(v) => v,
        None => return Err(String::from_str("card must be an object with a schema")),
    };
    if text_is(version, SCHEMA_VERSION) {
        return Ok(DowngradeResult { card: normalize_uec(card), warnings: Vec::new() });
    }
    if !text_is(version, SCHEMA_VERSION_V2) {
        return Err(join("unsupported source version: ", version.as_str()));
    }
    let source = match card {
        JsonValue::Object(m) => m,
        _ => return Err(String::from_str("card must be an object with a schema")),
    };
    let mut root = copy_members(source);
    let schema = match get_member(&root, "schema") {
        Some(JsonValue::Object(sm)) => Some(copy_members(sm)),
        _ => None,
    };
    if let Some(mut sm) = schema {
        set_member(&mut sm, "version", JsonValue::String(String::from_str(SCHEMA_VERSION)));
        set_member(&mut root, "schema", JsonValue::Object(sm));
    }
    let payload = match get_member(&root, "payload") {
        Some(JsonValue::Object(pm)) => Some(copy_members(pm)),
        _ => None,
    };
    let mut warnings: Vec<String> = Vec::new();
    assert(texts(warnings@) =~= Seq::empty());
    if let Some(mut pm) = payload {
        warnings = downgrade_payload(&mut pm, keep_rules);
        set_member(&mut root, "payload", JsonValue::Object(pm));
    }
    let meta = match get_member(&root, "meta") {
        Some(JsonValue::Object(mm)) => Some(copy_members(mm)),
        _ => None,
    };
    if let Some(mut mm) = meta {
        drop_meta_field(&mut mm, &mut warnings, "originalCreatedAt");
        drop_meta_field(&mut mm, &mut warnings, "originalUpdatedAt");
        drop_meta_field(&mut mm, &mut warnings, "originalSource");
        set_member(&mut root, "meta", JsonValue::Object(mm));
    }
    Ok(DowngradeResult { card: JsonValue::Object(root), warnings })
}

fn known_target(target: &str) -> (r: bool)
    ensures
        r == (target@ == SCHEMA_VERSION@),
{
    text_is(&target.to_owned(), SCHEMA_VERSION)
}

/// Converts a document to `target_version`: up through the converter, down through
/// `downgrade_uec`, or just normalized when it is there already.
#[verifier::spinoff_prover]
pub fn upgrade_uec(card: &JsonValue, target_version: &str) -> (r: Result<JsonValue, String>)
    ensures
        doc_version(card@) is None ==> (r matches Err(m) && m@
            == "card must be an object with a schema"@),
        target_version@ == SCHEMA_VERSION_V2@ && doc_version(card@) == Some(SCHEMA_VERSION_V2@)
            ==> (r matches Ok(d) && d@ == normalized_doc(card@)),
        target_version@ == SCHEMA_VERSION_V2@ && doc_version(card@) == Some(SCHEMA_VERSION@)
            && validation_errors(card@, false).len() == 0 ==> (r matches Ok(d) && d@ == converted(
            card@->Obj_0,
        )),
        target_version@ == SCHEMA_VERSION_V2@ && doc_version(card@) == Some(SCHEMA_VERSION@)
            && validation_errors(card@, false).len() != 0 ==> (r matches Err(m) && m@
            == "card must be a valid v1 UEC: "@ + joined(validation_errors(card@, false), "; "@)),
        target_version@ == SCHEMA_VERSION@ && doc_version(card@) == Some(SCHEMA_VERSION@) ==> (
        r matches Ok(d) && d@ == normalized_doc(card@)),
        target_version@ == SCHEMA_VERSION@ && doc_version(card@) == Some(SCHEMA_VERSION_V2@) ==> (
        r matches Ok(d) && d@ == downgraded(card@->Obj_0, false).0),
        (target_version@ == SCHEMA_VERSION@ || target_version@ == SCHEMA_VERSION_V2@)
            && doc_version(card@) is Some && doc_version(card@)->0 != SCHEMA_VERSION@ && doc_version(
            card@,
        )->0 != SCHEMA_VERSION_V2@ ==> (r matches Err(m) && m@ == "unsupported source version: "@
            + doc_version(card@)->0),
        doc_version(card@) is Some && target_version@ != SCHEMA_VERSION@ && target_version@
            != SCHEMA_VERSION_V2@ ==> (r matches Err(m) && m@ == "unsupported target version: "@
            + target_version@),
{
    proof {
        crate::text::lemma_versions_differ();
    }
    let version = match version_of(card) {
        Some(v) => v,
        None => return Err(String::from_str("card must be an object with a schema")),
    };
    assert(card@ is Obj);
    if text_is(&target_version.to_owned(), SCHEMA_VERSION_V2) {
        if text_is(version, SCHEMA_VERSION_V2) {
            Ok(normalize_uec(card))
        } else if text_is(version, SCHEMA_VERSION) {
            convert_uec_v1_to_v2(card)
        } else {
            Err(join("unsupported source version: ", version.as_str()))
        }
    } else if known_target(target_version) {
        match downgrade_uec(card, SCHEMA_VERSION, false) {
            Ok(d) => Ok(d.card),
            Err(e) => Err(e),
        }
    } else {
        Err(join("unsupported target version: ", target_version))
    }
}

} // verus!
