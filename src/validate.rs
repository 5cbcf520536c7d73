//! Structural validation of documents against the two schema generations.
use vstd::prelude::*;

use crate::json::{
    group_json_view, is_arr, is_num, is_obj, is_str, is_str_array, lookup, opt_bool,
    opt_num, opt_obj, opt_str, opt_str_array, oview, view_items, view_members, Json, JsonValue,
};
use crate::text::{
    error_text, index_path, index_path_text, is_known_version, join, known_version, push_error,
    text_is, texts, SCHEMA_NAME, SCHEMA_VERSION_V2,
};
use crate::types::{Uec, UecKind, UecSchema, ValidationResult};
use crate::value::{
    get_member, is_array, is_number, is_object, is_string, is_string_array,
    optional_boolean, optional_number, optional_object, optional_string, optional_string_array,
};

verus! {

broadcast use group_json_view;

/// A list of error messages.
pub type Errs = Seq<Seq<char>>;

/// The members of an object, as a model.
pub type Members = Seq<(Seq<char>, Json)>;

/// `e` with one more message when `failed` holds.
pub open spec fn note(e: Errs, failed: bool, path: Seq<char>, message: Seq<char>) -> Errs {
    if failed {
        e.push(error_text(path, message))
    } else {
        e
    }
}

fn check(errors: &mut Vec<String>, ok: bool, path: &str, message: &str)
    ensures
        texts(final(errors)@) == note(texts(old(errors)@), !ok, path@, message@),
{
    if !ok {
        push_error(errors, path, message);
    }
}

// ---------------------------------------------------------------- variants

pub open spec fn variant_errors(v: Json, path: Seq<char>, e: Errs) -> Errs {
    match v {
        Json::Obj(m) => {
            let e = note(e, !is_str(lookup(m, "id"@)), path + ".id"@, "must be a string"@);
            let e = note(
                e,
                !is_str(lookup(m, "content"@)),
                path + ".content"@,
                "must be a string"@,
            );
            note(e, !is_num(lookup(m, "createdAt"@)), path + ".createdAt"@, "must be a number"@)
        },
        _ => note(e, true, path, "must be an object"@),
    }
}

fn validate_variant(variant: &JsonValue, path: &str, errors: &mut Vec<String>)
    ensures
        texts(final(errors)@) == variant_errors(variant@, path@, texts(old(errors)@)),
{
    match variant {
        JsonValue::Object(map) => {
            check(errors, is_string(get_member(map, "id")), join(path, ".id").as_str(), "must be a string");
            check(
                errors,
                is_string(get_member(map, "content")),
                join(path, ".content").as_str(),
                "must be a string",
            );
            check(
                errors,
                is_number(get_member(map, "createdAt")),
                join(path, ".createdAt").as_str(),
                "must be a number",
            );
        },
        _ => push_error(errors, path, "must be an object"),
    }
}

/// Errors of the first `n` variants of a scene at `path`.
pub open spec fn variant_list_errors(vs: Seq<Json>, path: Seq<char>, n: nat, e: Errs) -> Errs
    decreases n,
{
    if n == 0 {
        e
    } else {
        variant_errors(
            vs[n - 1],
            index_path(path, (n - 1) as nat),
            variant_list_errors(vs, path, (n - 1) as nat, e),
        )
    }
}

// ---------------------------------------------------------------- asset locators

pub open spec fn is_locator_type(t: Option<Json>) -> bool {
    t == Some(Json::Str("inline_base64"@)) || t == Some(Json::Str("remote_url"@)) || t == Some(
        Json::Str("asset_ref"@),
    )
}

pub open spec fn asset_locator_errors(o: Option<Json>, path: Seq<char>, e: Errs) -> Errs {
    match o {
        None => e,
        Some(Json::Null) => e,
        Some(Json::Str(_)) => e,
        Some(Json::Obj(m)) => {
            let t = lookup(m, "type"@);
            if !is_locator_type(t) {
                note(
                    e,
                    true,
                    path + ".type"@,
                    "must be one of: inline_base64, remote_url, asset_ref"@,
                )
            } else {
                let e = note(
                    e,
                    !opt_str(lookup(m, "mimeType"@)),
                    path + ".mimeType"@,
                    "must be a string if provided"@,
                );
                if t == Some(Json::Str("inline_base64"@)) {
                    note(
                        e,
                        !is_str(lookup(m, "data"@)),
                        path + ".data"@,
                        "is required for inline_base64"@,
                    )
                } else if t == Some(Json::Str("remote_url"@)) {
                    note(
                        e,
                        !is_str(lookup(m, "url"@)),
                        path + ".url"@,
                        "is required for remote_url"@,
                    )
                } else {
                    note(
                        e,
                        !is_str(lookup(m, "assetId"@)),
                        path + ".assetId"@,
                        "is required for asset_ref"@,
                    )
                }
            }
        },
        Some(_) => note(e, true, path, "must be a string, object, or null"@),
    }
}

fn validate_asset_locator(value: Option<&JsonValue>, path: &str, errors: &mut Vec<String>)
    ensures
        texts(final(errors)@) == asset_locator_errors(oview(value), path@, texts(old(errors)@)),
{
    match value {
        None => {},
        Some(JsonValue::Null) => {},
        Some(JsonValue::String(_)) => {},
        Some(JsonValue::Object(map)) => {
            let t = get_member(map, "type");
            let kind: u8 = match t {
                Some(JsonValue::String(s)) => {
                    if text_is(s, "inline_base64") {
                        1
                    } else if text_is(s, "remote_url") {
                        2
                    } else if text_is(s, "asset_ref") {
                        3
                    } else {
                        0
                    }
                },
                _ => 0,
            };
            if kind == 0 {
                push_error(
                    errors,
                    join(path, ".type").as_str(),
                    "must be one of: inline_base64, remote_url, asset_ref",
                );
                return ;
            }
            check(
                errors,
                optional_string(get_member(map, "mimeType")),
                join(path, ".mimeType").as_str(),
                "must be a string if provided",
            );
            if kind == 1 {
                check(
                    errors,
                    is_string(get_member(map, "data")),
                    join(path, ".data").as_str(),
                    "is required for inline_base64",
                );
            } else if kind == 2 {
                check(
                    errors,
                    is_string(get_member(map, "url")),
                    join(path, ".url").as_str(),
                    "is required for remote_url",
                );
            } else {
                check(
                    errors,
                    is_string(get_member(map, "assetId")),
                    join(path, ".assetId").as_str(),
                    "is required for asset_ref",
                );
            }
        },
        Some(_) => push_error(errors, path, "must be a string, object, or null"),
    }
}

// ---------------------------------------------------------------- character book

pub open spec fn book_entry_errors(entry: Json, path: Seq<char>, e: Errs) -> Errs {
    match entry {
        Json::Obj(m) => {
            let e = note(
                e,
                !opt_str(lookup(m, "name"@)),
                path + ".name"@,
                "must be a string or null"@,
            );
            let keys = lookup(m, "keys"@);
            let e = note(
                e,
                keys is Some && !is_str_array(keys),
                path + ".keys"@,
                "must be an array of strings"@,
            );
            let secondary = lookup(m, "secondary_keys"@);
            let e = note(
                e,
                secondary is Some && !is_str_array(secondary),
                path + ".secondary_keys"@,
                "must be an array of strings"@,
            );
            let e = note(
                e,
                !is_str(lookup(m, "content"@)),
                path + ".content"@,
                "must be a string"@,
            );
            let e = note(
                e,
                !opt_bool(lookup(m, "enabled"@)),
                path + ".enabled"@,
                "must be a boolean"@,
            );
            let e = note(
                e,
                !opt_num(lookup(m, "insertion_order"@)),
                path + ".insertion_order"@,
                "must be a number"@,
            );
            let e = note(
                e,
                !opt_bool(lookup(m, "case_sensitive"@)),
                path + ".case_sensitive"@,
                "must be a boolean"@,
            );
            let e = note(
                e,
                !opt_num(lookup(m, "priority"@)),
                path + ".priority"@,
                "must be a number"@,
            );
            note(e, !opt_bool(lookup(m, "constant"@)), path + ".constant"@, "must be a boolean"@)
        },
        _ => note(e, true, path, "must be an object"@),
    }
}

/// Errors of the first `n` lore entries.
pub open spec fn book_entry_list_errors(es: Seq<Json>, n: nat, e: Errs) -> Errs
    decreases n,
{
    if n == 0 {
        e
    } else {
        book_entry_errors(
            es[n - 1],
            index_path("payload.characterBook.entries"@, (n - 1) as nat),
            book_entry_list_errors(es, (n - 1) as nat, e),
        )
    }
}

pub open spec fn character_book_errors(o: Option<Json>, e: Errs) -> Errs {
    match o {
        None => e,
        Some(Json::Null) => e,
        Some(Json::Obj(m)) => {
            let e = note(
                e,
                !opt_str(lookup(m, "name"@)),
                "payload.characterBook.name"@,
                "must be a string or null"@,
            );
            let e = note(
                e,
                !opt_str(lookup(m, "description"@)),
                "payload.characterBook.description"@,
                "must be a string or null"@,
            );
            match lookup(m, "entries"@) {
                None => e,
                Some(Json::Arr(es)) => book_entry_list_errors(es, es.len(), e),
                Some(_) => note(e, true, "payload.characterBook.entries"@, "must be an array"@),
            }
        },
        Some(_) => note(e, true, "payload.characterBook"@, "must be an object"@),
    }
}

#[verifier::spinoff_prover]
fn validate_book_entry(entry: &JsonValue, path: &str, errors: &mut Vec<String>)
    ensures
        texts(final(errors)@) == book_entry_errors(entry@, path@, texts(old(errors)@)),
{
    match entry {
        JsonValue::Object(map) => {
            check(
                errors,
                optional_string(get_member(map, "name")),
                join(path, ".name").as_str(),
                "must be a string or null",
            );
            let keys = get_member(map, "keys");
            check(
                errors,
                keys.is_none() || is_string_array(keys),
                join(path, ".keys").as_str(),
                "must be an array of strings",
            );
            let secondary = get_member(map, "secondary_keys");
            check(
                errors,
                secondary.is_none() || is_string_array(secondary),
                join(path, ".secondary_keys").as_str(),
                "must be an array of strings",
            );
            check(
                errors,
                is_string(get_member(map, "content")),
                join(path, ".content").as_str(),
                "must be a string",
            );
            check(
                errors,
                optional_boolean(get_member(map, "enabled")),
                join(path, ".enabled").as_str(),
                "must be a boolean",
            );
            check(
                errors,
                optional_number(get_member(map, "insertion_order")),
                join(path, ".insertion_order").as_str(),
                "must be a number",
            );
            check(
                errors,
                optional_boolean(get_member(map, "case_sensitive")),
                join(path, ".case_sensitive").as_str(),
                "must be a boolean",
            );
            check(
                errors,
                optional_number(get_member(map, "priority")),
                join(path, ".priority").as_str(),
                "must be a number",
            );
            check(
                errors,
                optional_boolean(get_member(map, "constant")),
                join(path, ".constant").as_str(),
                "must be a boolean",
            );
        },
        _ => push_error(errors, path, "must be an object"),
    }
}

#[verifier::loop_isolation(false)]
fn validate_character_book(book: Option<&JsonValue>, errors: &mut Vec<String>)
    ensures
        texts(final(errors)@) == character_book_errors(oview(book), texts(old(errors)@)),
{
    match book {
        None => {},
        Some(JsonValue::Null) => {},
        Some(JsonValue::Object(map)) => {
            check(
                errors,
                optional_string(get_member(map, "name")),
                "payload.characterBook.name",
                "must be a string or null",
            );
            check(
                errors,
                optional_string(get_member(map, "description")),
                "payload.characterBook.description",
                "must be a string or null",
            );
            match get_member(map, "entries") {
                None => {},
                Some(JsonValue::Array(entries)) => {
                    let ghost e0 = texts(errors@);
                    let ghost es = view_items(entries@);
                    let mut i: usize = 0;
                    while i < entries.len()
                        invariant
                            i <= entries.len(),
                            texts(errors@) == book_entry_list_errors(es, i as nat, e0),
                        decreases entries.len() - i,
                    {
                        let p = index_path_text("payload.characterBook.entries", i);
                        validate_book_entry(&entries[i], p.as_str(), errors);
                        i += 1;
                    }
                },
                Some(_) => push_error(errors, "payload.characterBook.entries", "must be an array"),
            }
        },
        Some(_) => push_error(errors, "payload.characterBook", "must be an object"),
    }
}

// ---------------------------------------------------------------- scenes

pub open spec fn scene_base_errors(v: Json, path: Seq<char>, strict: bool, e: Errs) -> Errs {
    match v {
        Json::Obj(m) => {
            let e = note(e, !is_str(lookup(m, "id"@)), path + ".id"@, "must be a string"@);
            let e = note(
                e,
                !is_str(lookup(m, "content"@)),
                path + ".content"@,
                "must be a string"@,
            );
            let e = note(
                e,
                !opt_str(lookup(m, "direction"@)),
                path + ".direction"@,
                "must be a string"@,
            );
            let e = note(
                e,
                !opt_num(lookup(m, "createdAt"@)),
                path + ".createdAt"@,
                "must be a number"@,
            );
            let e = match lookup(m, "variants"@) {
                None => e,
                Some(Json::Arr(vs)) => variant_list_errors(vs, path + ".variants"@, vs.len(), e),
                Some(_) => note(e, true, path + ".variants"@, "must be an array"@),
            };
            if strict {
                let e = note(e, !is_str(lookup(m, "id"@)), path + ".id"@, "is required"@);
                note(e, !is_str(lookup(m, "content"@)), path + ".content"@, "is required"@)
            } else {
                e
            }
        },
        _ => note(e, true, path, "must be an object"@),
    }
}

#[verifier::spinoff_prover]
#[verifier::loop_isolation(false)]
fn validate_scene_base(scene: &JsonValue, path: &str, errors: &mut Vec<String>, strict: bool)
    ensures
        texts(final(errors)@) == scene_base_errors(scene@, path@, strict, texts(old(errors)@)),
{
    match scene {
        JsonValue::Object(map) => {
            check(errors, is_string(get_member(map, "id")), join(path, ".id").as_str(), "must be a string");
            check(
                errors,
                is_string(get_member(map, "content")),
                join(path, ".content").as_str(),
                "must be a string",
            );
            check(
                errors,
                optional_string(get_member(map, "direction")),
                join(path, ".direction").as_str(),
                "must be a string",
            );
            check(
                errors,
                optional_number(get_member(map, "createdAt")),
                join(path, ".createdAt").as_str(),
                "must be a number",
            );
            let vpath = join(path, ".variants");
            match get_member(map, "variants") {
                None => {},
                Some(JsonValue::Array(items)) => {
                    let ghost e0 = texts(errors@);
                    let ghost vs = view_items(items@);
                    let mut i: usize = 0;
                    while i < items.len()
                        invariant
                            i <= items.len(),
                            texts(errors@) == variant_list_errors(vs, vpath@, i as nat, e0),
                        decreases items.len() - i,
                    {
                        let p = index_path_text(vpath.as_str(), i);
                        validate_variant(&items[i], p.as_str(), errors);
                        i += 1;
                    }
                },
                Some(_) => push_error(errors, vpath.as_str(), "must be an array"),
            }
            if strict {
                check(errors, is_string(get_member(map, "id")), join(path, ".id").as_str(), "is required");
                check(
                    errors,
                    is_string(get_member(map, "content")),
                    join(path, ".content").as_str(),
                    "is required",
                );
            }
        },
        _ => push_error(errors, path, "must be an object"),
    }
}

pub open spec fn scene_v1_errors(v: Json, path: Seq<char>, strict: bool, e: Errs) -> Errs {
    let e = scene_base_errors(v, path, strict, e);
    match v {
        Json::Obj(m) => {
            let sel = lookup(m, "selectedVariantId"@);
            note(
                e,
                sel is Some && !(is_str(sel) || sel == Some(Json::Null)),
                path + ".selectedVariantId"@,
                "must be a string or null"@,
            )
        },
        _ => e,
    }
}

fn validate_scene(scene: &JsonValue, path: &str, errors: &mut Vec<String>, strict: bool)
    ensures
        texts(final(errors)@) == scene_v1_errors(scene@, path@, strict, texts(old(errors)@)),
{
    validate_scene_base(scene, path, errors, strict);
    if let JsonValue::Object(map) = scene {
        let sel = get_member(map, "selectedVariantId");
        let fine = match sel {
            None => true,
            Some(JsonValue::String(_)) => true,
            Some(JsonValue::Null) => true,
            _ => false,
        };
        check(errors, fine, join(path, ".selectedVariantId").as_str(), "must be a string or null");
    }
}

/// The sentinel `0`, which selects no variant.
pub open spec fn is_zero(o: Option<Json>) -> bool {
    o == Some(Json::Num(crate::json::Num::PosInt(0))) || o == Some(
        Json::Num(crate::json::Num::NegInt(0)),
    )
}

pub open spec fn scene_v2_errors(v: Json, path: Seq<char>, strict: bool, e: Errs) -> Errs {
    let e = scene_base_errors(v, path, strict, e);
    match v {
        Json::Obj(m) => {
            let sel = lookup(m, "selectedVariant"@);
            note(
                e,
                sel is Some && !(is_zero(sel) || is_str(sel)),
                path + ".selectedVariant"@,
                "must be 0 or a variant ID string"@,
            )
        },
        _ => e,
    }
}

fn validate_scene_v2(scene: &JsonValue, path: &str, errors: &mut Vec<String>, strict: bool)
    ensures
        texts(final(errors)@) == scene_v2_errors(scene@, path@, strict, texts(old(errors)@)),
{
    validate_scene_base(scene, path, errors, strict);
    if let JsonValue::Object(map) = scene {
        let sel = get_member(map, "selectedVariant");
        let fine = match sel {
            None => true,
            Some(JsonValue::String(_)) => true,
            Some(JsonValue::Number(n)) => n.is_zero(),
            _ => false,
        };
        check(errors, fine, join(path, ".selectedVariant").as_str(), "must be 0 or a variant ID string");
    }
}

// ---------------------------------------------------------------- voice

pub open spec fn voice_v1_errors(o: Option<Json>, e: Errs) -> Errs {
    match o {
        None => e,
        Some(Json::Obj(m)) => {
            let e = note(
                e,
                !is_str(lookup(m, "source"@)),
                "payload.voiceConfig.source"@,
                "must be a string"@,
            );
            let e = note(
                e,
                !is_str(lookup(m, "providerId"@)),
                "payload.voiceConfig.providerId"@,
                "must be a string"@,
            );
            note(
                e,
                !is_str(lookup(m, "voiceId"@)),
                "payload.voiceConfig.voiceId"@,
                "must be a string"@,
            )
        },
        Some(_) => note(e, true, "payload.voiceConfig"@, "must be an object"@),
    }
}

fn validate_voice_config_v1(voice: Option<&JsonValue>, errors: &mut Vec<String>)
    ensures
        texts(final(errors)@) == voice_v1_errors(oview(voice), texts(old(errors)@)),
{
    match voice {
        None => {},
        Some(JsonValue::Object(map)) => {
            check(
                errors,
                is_string(get_member(map, "source")),
                "payload.voiceConfig.source",
                "must be a string",
            );
            check(
                errors,
                is_string(get_member(map, "providerId")),
                "payload.voiceConfig.providerId",
                "must be a string",
            );
            check(
                errors,
                is_string(get_member(map, "voiceId")),
                "payload.voiceConfig.voiceId",
                "must be a string",
            );
        },
        Some(_) => push_error(errors, "payload.voiceConfig", "must be an object"),
    }
}

pub open spec fn voice_v2_errors(o: Option<Json>, e: Errs) -> Errs {
    match o {
        None => e,
        Some(Json::Obj(m)) => {
            let e = note(
                e,
                !is_str(lookup(m, "source"@)),
                "payload.voiceConfig.source"@,
                "must be a string"@,
            );
            let e = note(
                e,
                !opt_str(lookup(m, "providerId"@)),
                "payload.voiceConfig.providerId"@,
                "must be a string if provided"@,
            );
            let e = note(
                e,
                !opt_str(lookup(m, "voiceId"@)),
                "payload.voiceConfig.voiceId"@,
                "must be a string if provided"@,
            );
            let e = note(
                e,
                !opt_str(lookup(m, "userVoiceId"@)),
                "payload.voiceConfig.userVoiceId"@,
                "must be a string if provided"@,
            );
            let e = note(
                e,
                !opt_str(lookup(m, "modelId"@)),
                "payload.voiceConfig.modelId"@,
                "must be a string if provided"@,
            );
            note(
                e,
                !opt_str(lookup(m, "voiceName"@)),
                "payload.voiceConfig.voiceName"@,
                "must be a string if provided"@,
            )
        },
        Some(_) => note(e, true, "payload.voiceConfig"@, "must be an object"@),
    }
}

fn validate_voice_config_v2(voice: Option<&JsonValue>, errors: &mut Vec<String>)
    ensures
        texts(final(errors)@) == voice_v2_errors(oview(voice), texts(old(errors)@)),
{
    match voice {
        None => {},
        Some(JsonValue::Object(map)) => {
            check(
                errors,
                is_string(get_member(map, "source")),
                "payload.voiceConfig.source",
                "must be a string",
            );
            check(
                errors,
                optional_string(get_member(map, "providerId")),
                "payload.voiceConfig.providerId",
                "must be a string if provided",
            );
            check(
                errors,
                optional_string(get_member(map, "voiceId")),
                "payload.voiceConfig.voiceId",
                "must be a string if provided",
            );
            check(
                errors,
                optional_string(get_member(map, "userVoiceId")),
                "payload.voiceConfig.userVoiceId",
                "must be a string if provided",
            );
            check(
                errors,
                optional_string(get_member(map, "modelId")),
                "payload.voiceConfig.modelId",
                "must be a string if provided",
            );
            check(
                errors,
                optional_string(get_member(map, "voiceName")),
                "payload.voiceConfig.voiceName",
                "must be a string if provided",
            );
        },
        Some(_) => push_error(errors, "payload.voiceConfig", "must be an object"),
    }
}

// ---------------------------------------------------------------- schema, settings, meta

/// The version string of a schema block, when the block is an object holding one.
pub open spec fn schema_version(o: Option<Json>) -> Option<Seq<char>> {
    match o {
        Some(Json::Obj(m)) => match lookup(m, "version"@) {
            Some(Json::Str(v)) => Some(v),
            _ => None,
        },
        _ => None,
    }
}

pub open spec fn schema_errors(o: Option<Json>, e: Errs) -> Errs {
    match o {
        Some(Json::Obj(m)) => {
            let name = lookup(m, "name"@);
            let e = if !is_str(name) {
                note(e, true, "schema.name"@, "must be a string"@)
            } else {
                note(
                    e,
                    name != Some(Json::Str(SCHEMA_NAME@)),
                    "schema.name"@,
                    "must be \"UEC\""@,
                )
            };
            let e = match lookup(m, "version"@) {
                Some(Json::Str(v)) => note(
                    e,
                    !is_known_version(v),
                    "schema.version"@,
                    "unknown version \""@ + v + "\""@,
                ),
                _ => note(e, true, "schema.version"@, "must be a string"@),
            };
            let compat = lookup(m, "compat"@);
            note(
                e,
                compat is Some && !is_str(compat),
                "schema.compat"@,
                "must be a string if provided"@,
            )
        },
        _ => note(e, true, "schema"@, "must be an object"@),
    }
}

#[verifier::spinoff_prover]
fn validate_schema(schema: Option<&JsonValue>, errors: &mut Vec<String>) -> (r: Option<String>)
    ensures
        texts(final(errors)@) == schema_errors(oview(schema), texts(old(errors)@)),
        r matches Some(v) ==> schema_version(oview(schema)) == Some(v@),
        r is None ==> schema_version(oview(schema)) is None,
{
    match schema {
        Some(JsonValue::Object(map)) => {
            match get_member(map, "name") {
                Some(JsonValue::String(n)) => {
                    check(errors, text_is(n, SCHEMA_NAME), "schema.name", "must be \"UEC\"");
                },
                _ => push_error(errors, "schema.name", "must be a string"),
            }
            let version = match get_member(map, "version") {
                Some(JsonValue::String(v)) => {
                    let message = join("unknown version \"", v.as_str()).concat("\"");
                    check(errors, known_version(v.as_str()), "schema.version", message.as_str());
                    Some(v.clone())
                },
                _ => {
                    push_error(errors, "schema.version", "must be a string");
                    None
                },
            };
            let compat = get_member(map, "compat");
            check(
                errors,
                compat.is_none() || is_string(compat),
                "schema.compat",
                "must be a string if provided",
            );
            version
        },
        _ => {
            push_error(errors, "schema", "must be an object");
            None
        },
    }
}

pub open spec fn settings_errors(o: Option<Json>, e: Errs) -> Errs {
    note(e, o is Some && !is_obj(o), "app_specific_settings"@, "must be an object"@)
}

fn validate_app_specific_settings(settings: Option<&JsonValue>, errors: &mut Vec<String>)
    ensures
        texts(final(errors)@) == settings_errors(oview(settings), texts(old(errors)@)),
{
    check(
        errors,
        settings.is_none() || is_object(settings),
        "app_specific_settings",
        "must be an object",
    );
}

pub open spec fn meta_errors(o: Option<Json>, e: Errs) -> Errs {
    match o {
        None => e,
        Some(Json::Obj(m)) => {
            let e = note(
                e,
                !opt_num(lookup(m, "createdAt"@)),
                "meta.createdAt"@,
                "must be a number"@,
            );
            let e = note(
                e,
                !opt_num(lookup(m, "updatedAt"@)),
                "meta.updatedAt"@,
                "must be a number"@,
            );
            let e = note(e, !opt_str(lookup(m, "source"@)), "meta.source"@, "must be a string"@);
            let authors = lookup(m, "authors"@);
            let e = note(
                e,
                authors is Some && !is_str_array(authors),
                "meta.authors"@,
                "must be an array of strings"@,
            );
            note(e, !opt_str(lookup(m, "license"@)), "meta.license"@, "must be a string"@)
        },
        Some(_) => note(e, true, "meta"@, "must be an object"@),
    }
}

fn validate_meta(meta: Option<&JsonValue>, errors: &mut Vec<String>)
    ensures
        texts(final(errors)@) == meta_errors(oview(meta), texts(old(errors)@)),
{
    match meta {
        None => {},
        Some(JsonValue::Object(map)) => {
            check(
                errors,
                optional_number(get_member(map, "createdAt")),
                "meta.createdAt",
                "must be a number",
            );
            check(
                errors,
                optional_number(get_member(map, "updatedAt")),
                "meta.updatedAt",
                "must be a number",
            );
            check(
                errors,
                optional_string(get_member(map, "source")),
                "meta.source",
                "must be a string",
            );
            let authors = get_member(map, "authors");
            check(
                errors,
                authors.is_none() || is_string_array(authors),
                "meta.authors",
                "must be an array of strings",
            );
            check(
                errors,
                optional_string(get_member(map, "license")),
                "meta.license",
                "must be a string",
            );
        },
        Some(_) => push_error(errors, "meta", "must be an object"),
    }
}

pub open spec fn meta_v2_errors(o: Option<Json>, strict: bool, e: Errs) -> Errs {
    let e = meta_errors(o, e);
    if strict && !is_obj(o) {
        let e = note(e, true, "meta.originalCreatedAt"@, "is required in strict mode"@);
        note(e, true, "meta.originalUpdatedAt"@, "is required in strict mode"@)
    } else {
        match o {
            Some(Json::Obj(m)) => {
                let e = note(
                    e,
                    !opt_num(lookup(m, "originalCreatedAt"@)),
                    "meta.originalCreatedAt"@,
                    "must be a number"@,
                );
                let e = note(
                    e,
                    !opt_num(lookup(m, "originalUpdatedAt"@)),
                    "meta.originalUpdatedAt"@,
                    "must be a number"@,
                );
                let e = note(
                    e,
                    !opt_str(lookup(m, "originalSource"@)),
                    "meta.originalSource"@,
                    "must be a string"@,
                );
                if strict {
                    let e = note(
                        e,
                        !is_num(lookup(m, "originalCreatedAt"@)),
                        "meta.originalCreatedAt"@,
                        "is required in strict mode"@,
                    );
                    note(
                        e,
                        !is_num(lookup(m, "originalUpdatedAt"@)),
                        "meta.originalUpdatedAt"@,
                        "is required in strict mode"@,
                    )
                } else {
                    e
                }
            },
            _ => e,
        }
    }
}

#[verifier::spinoff_prover]
fn validate_meta_v2(meta: Option<&JsonValue>, errors: &mut Vec<String>, strict: bool)
    ensures
        texts(final(errors)@) == meta_v2_errors(oview(meta), strict, texts(old(errors)@)),
{
    validate_meta(meta, errors);
    if strict && !is_object(meta) {
        push_error(errors, "meta.originalCreatedAt", "is required in strict mode");
        push_error(errors, "meta.originalUpdatedAt", "is required in strict mode");
        return ;
    }
    if let Some(JsonValue::Object(map)) = meta {
        check(
            errors,
            optional_number(get_member(map, "originalCreatedAt")),
            "meta.originalCreatedAt",
            "must be a number",
        );
        check(
            errors,
            optional_number(get_member(map, "originalUpdatedAt")),
            "meta.originalUpdatedAt",
            "must be a number",
        );
        check(
            errors,
            optional_string(get_member(map, "originalSource")),
            "meta.originalSource",
            "must be a string",
        );
        if strict {
            check(
                errors,
                is_number(get_member(map, "originalCreatedAt")),
                "meta.originalCreatedAt",
                "is required in strict mode",
            );
            check(
                errors,
                is_number(get_member(map, "originalUpdatedAt")),
                "meta.originalUpdatedAt",
                "is required in strict mode",
            );
        }
    }
}

// ---------------------------------------------------------------- payloads

/// Errors of the first `n` scenes of a first-generation character.
pub open spec fn scene_list_errors(ss: Seq<Json>, n: nat, strict: bool, e: Errs) -> Errs
    decreases n,
{
    if n == 0 {
        e
    } else {
        scene_v1_errors(
            ss[n - 1],
            index_path("payload.scenes"@, (n - 1) as nat),
            strict,
            scene_list_errors(ss, (n - 1) as nat, strict, e),
        )
    }
}

/// Identity fields, common to both generations of a character.
pub open spec fn character_ident_errors(m: Members, e: Errs) -> Errs {
    let e = note(e, !is_str(lookup(m, "id"@)), "payload.id"@, "must be a string"@);
    let e = note(e, !is_str(lookup(m, "name"@)), "payload.name"@, "must be a string"@);
    let e = note(
        e,
        !opt_str(lookup(m, "description"@)),
        "payload.description"@,
        "must be a string"@,
    );
    let e = note(
        e,
        !opt_str(lookup(m, "definitions"@)),
        "payload.definitions"@,
        "must be a string"@,
    );
    note(
        e,
        !opt_str_array(lookup(m, "tags"@)),
        "payload.tags"@,
        "must be an array of strings"@,
    )
}

pub open spec fn character_v1_media_errors(m: Members, e: Errs) -> Errs {
    let e = note(
        e,
        !opt_str(lookup(m, "avatar"@)),
        "payload.avatar"@,
        "must be a string or null"@,
    );
    let e = note(
        e,
        !opt_str(lookup(m, "chatBackground"@)),
        "payload.chatBackground"@,
        "must be a string or null"@,
    );
    note(
        e,
        !opt_str_array(lookup(m, "rules"@)),
        "payload.rules"@,
        "must be an array of strings"@,
    )
}

pub open spec fn character_scenes_errors(m: Members, strict: bool, e: Errs) -> Errs {
    match lookup(m, "scenes"@) {
        None => e,
        Some(Json::Arr(ss)) => scene_list_errors(ss, ss.len(), strict, e),
        Some(_) => note(e, true, "payload.scenes"@, "must be an array"@),
    }
}

pub open spec fn character_v1_tail_errors(m: Members, e: Errs) -> Errs {
    let e = note(
        e,
        !opt_str(lookup(m, "defaultSceneId"@)),
        "payload.defaultSceneId"@,
        "must be a string or null"@,
    );
    let e = note(
        e,
        !opt_str(lookup(m, "defaultModelId"@)),
        "payload.defaultModelId"@,
        "must be a string or null"@,
    );
    let e = note(
        e,
        !opt_str(lookup(m, "systemPrompt"@)),
        "payload.systemPrompt"@,
        "must be a string or null"@,
    );
    let e = voice_v1_errors(lookup(m, "voiceConfig"@), e);
    let e = note(
        e,
        !opt_bool(lookup(m, "voiceAutoplay"@)),
        "payload.voiceAutoplay"@,
        "must be a boolean"@,
    );
    timestamps_errors(m, e)
}

/// Optional creation and update times.
pub open spec fn timestamps_errors(m: Members, e: Errs) -> Errs {
    let e = note(
        e,
        !opt_num(lookup(m, "createdAt"@)),
        "payload.createdAt"@,
        "must be a number"@,
    );
    note(e, !opt_num(lookup(m, "updatedAt"@)), "payload.updatedAt"@, "must be a number"@)
}

/// Creation and update times, required in strict mode.
pub open spec fn strict_timestamps_errors(m: Members, e: Errs) -> Errs {
    let e = note(
        e,
        !is_num(lookup(m, "createdAt"@)),
        "payload.createdAt"@,
        "is required in strict mode"@,
    );
    note(
        e,
        !is_num(lookup(m, "updatedAt"@)),
        "payload.updatedAt"@,
        "is required in strict mode"@,
    )
}

pub open spec fn character_v1_strict_errors(m: Members, e: Errs) -> Errs {
    let e = note(
        e,
        !is_str(lookup(m, "description"@)),
        "payload.description"@,
        "is required in strict mode"@,
    );
    let e = note(
        e,
        !is_arr(lookup(m, "rules"@)),
        "payload.rules"@,
        "is required in strict mode"@,
    );
    let e = note(
        e,
        !is_arr(lookup(m, "scenes"@)),
        "payload.scenes"@,
        "is required in strict mode"@,
    );
    strict_timestamps_errors(m, e)
}

pub open spec fn character_v1_errors(m: Members, strict: bool, e: Errs) -> Errs {
    let e = character_ident_errors(m, e);
    let e = character_v1_media_errors(m, e);
    let e = character_scenes_errors(m, strict, e);
    let e = character_v1_tail_errors(m, e);
    if strict {
        character_v1_strict_errors(m, e)
    } else {
        e
    }
}

fn validate_character_ident(map: &Vec<(String, JsonValue)>, errors: &mut Vec<String>)
    ensures
        texts(final(errors)@) == character_ident_errors(view_members(map@), texts(old(errors)@)),
{
    check(errors, is_string(get_member(map, "id")), "payload.id", "must be a string");
    check(errors, is_string(get_member(map, "name")), "payload.name", "must be a string");
    check(
        errors,
        optional_string(get_member(map, "description")),
        "payload.description",
        "must be a string",
    );
    check(
        errors,
        optional_string(get_member(map, "definitions")),
        "payload.definitions",
        "must be a string",
    );
    check(
        errors,
        optional_string_array(get_member(map, "tags")),
        "payload.tags",
        "must be an array of strings",
    );
}

fn validate_character_v1_media(map: &Vec<(String, JsonValue)>, errors: &mut Vec<String>)
    ensures
        texts(final(errors)@) == character_v1_media_errors(
            view_members(map@),
            texts(old(errors)@),
        ),
{
    check(
        errors,
        optional_string(get_member(map, "avatar")),
        "payload.avatar",
        "must be a string or null",
    );
    check(
        errors,
        optional_string(get_member(map, "chatBackground")),
        "payload.chatBackground",
        "must be a string or null",
    );
    check(
        errors,
        optional_string_array(get_member(map, "rules")),
        "payload.rules",
        "must be an array of strings",
    );
}

#[verifier::loop_isolation(false)]
fn validate_character_scenes(
    map: &Vec<(String, JsonValue)>,
    errors: &mut Vec<String>,
    strict: bool,
)
    ensures
        texts(final(errors)@) == character_scenes_errors(
            view_members(map@),
            strict,
            texts(old(errors)@),
        ),
{
    match get_member(map, "scenes") {
        None => {},
        Some(JsonValue::Array(scenes)) => {
            let ghost e0 = texts(errors@);
            let ghost ss = view_items(scenes@);
            let mut i: usize = 0;
            while i < scenes.len()
                invariant
                    i <= scenes.len(),
                    texts(errors@) == scene_list_errors(ss, i as nat, strict, e0),
                decreases scenes.len() - i,
            {
                let p = index_path_text("payload.scenes", i);
                validate_scene(&scenes[i], p.as_str(), errors, strict);
                i += 1;
            }
        },
        Some(_) => push_error(errors, "payload.scenes", "must be an array"),
    }
}

fn validate_timestamps(map: &Vec<(String, JsonValue)>, errors: &mut Vec<String>)
    ensures
        texts(final(errors)@) == timestamps_errors(view_members(map@), texts(old(errors)@)),
{
    check(
        errors,
        optional_number(get_member(map, "createdAt")),
        "payload.createdAt",
        "must be a number",
    );
    check(
        errors,
        optional_number(get_member(map, "updatedAt")),
        "payload.updatedAt",
        "must be a number",
    );
}

fn validate_strict_timestamps(map: &Vec<(String, JsonValue)>, errors: &mut Vec<String>)
    ensures
        texts(final(errors)@) == strict_timestamps_errors(
            view_members(map@),
            texts(old(errors)@),
        ),
{
    check(
        errors,
        is_number(get_member(map, "createdAt")),
        "payload.createdAt",
        "is required in strict mode",
    );
    check(
        errors,
        is_number(get_member(map, "updatedAt")),
        "payload.updatedAt",
        "is required in strict mode",
    );
}

#[verifier::spinoff_prover]
fn validate_character_v1_tail(map: &Vec<(String, JsonValue)>, errors: &mut Vec<String>)
    ensures
        texts(final(errors)@) == character_v1_tail_errors(
            view_members(map@),
            texts(old(errors)@),
        ),
{
    check(
        errors,
        optional_string(get_member(map, "defaultSceneId")),
        "payload.defaultSceneId",
        "must be a string or null",
    );
    check(
        errors,
        optional_string(get_member(map, "defaultModelId")),
        "payload.defaultModelId",
        "must be a string or null",
    );
    check(
        errors,
        optional_string(get_member(map, "systemPrompt")),
        "payload.systemPrompt",
        "must be a string or null",
    );
    validate_voice_config_v1(get_member(map, "voiceConfig"), errors);
    check(
        errors,
        optional_boolean(get_member(map, "voiceAutoplay")),
        "payload.voiceAutoplay",
        "must be a boolean",
    );
    validate_timestamps(map, errors);
}

fn validate_character_v1_strict(map: &Vec<(String, JsonValue)>, errors: &mut Vec<String>)
    ensures
        texts(final(errors)@) == character_v1_strict_errors(
            view_members(map@),
            texts(old(errors)@),
        ),
{
    check(
        errors,
        is_string(get_member(map, "description")),
        "payload.description",
        "is required in strict mode",
    );
    check(
        errors,
        is_array(get_member(map, "rules")),
        "payload.rules",
        "is required in strict mode",
    );
    check(
        errors,
        is_array(get_member(map, "scenes")),
        "payload.scenes",
        "is required in strict mode",
    );
    validate_strict_timestamps(map, errors);
}

fn validate_character_payload_v1(
    map: &Vec<(String, JsonValue)>,
    errors: &mut Vec<String>,
    strict: bool,
)
    ensures
        texts(final(errors)@) == character_v1_errors(
            view_members(map@),
            strict,
            texts(old(errors)@),
        ),
{
    validate_character_ident(map, errors);
    validate_character_v1_media(map, errors);
    validate_character_scenes(map, errors, strict);
    validate_character_v1_tail(map, errors);
    if strict {
        validate_character_v1_strict(map, errors);
    }
}

pub open spec fn persona_common_errors(m: Members, e: Errs) -> Errs {
    let e = note(e, !is_str(lookup(m, "id"@)), "payload.id"@, "must be a string"@);
    let e = note(e, !is_str(lookup(m, "title"@)), "payload.title"@, "must be a string"@);
    note(e, !opt_str(lookup(m, "description"@)), "payload.description"@, "must be a string"@)
}

pub open spec fn persona_tail_errors(m: Members, strict: bool, e: Errs) -> Errs {
    let e = note(
        e,
        !opt_bool(lookup(m, "isDefault"@)),
        "payload.isDefault"@,
        "must be a boolean"@,
    );
    let e = timestamps_errors(m, e);
    if strict {
        let e = note(
            e,
            !is_str(lookup(m, "description"@)),
            "payload.description"@,
            "is required in strict mode"@,
        );
        strict_timestamps_errors(m, e)
    } else {
        e
    }
}

pub open spec fn persona_v1_errors(m: Members, strict: bool, e: Errs) -> Errs {
    let e = persona_common_errors(m, e);
    let e = note(
        e,
        !opt_str(lookup(m, "avatar"@)),
        "payload.avatar"@,
        "must be a string or null"@,
    );
    persona_tail_errors(m, strict, e)
}

pub open spec fn persona_v2_errors(m: Members, strict: bool, e: Errs) -> Errs {
    let e = persona_common_errors(m, e);
    let e = asset_locator_errors(lookup(m, "avatar"@), "payload.avatar"@, e);
    persona_tail_errors(m, strict, e)
}

fn validate_persona_common(map: &Vec<(String, JsonValue)>, errors: &mut Vec<String>)
    ensures
        texts(final(errors)@) == persona_common_errors(view_members(map@), texts(old(errors)@)),
{
    check(errors, is_string(get_member(map, "id")), "payload.id", "must be a string");
    check(errors, is_string(get_member(map, "title")), "payload.title", "must be a string");
    check(
        errors,
        optional_string(get_member(map, "description")),
        "payload.description",
        "must be a string",
    );
}

fn validate_persona_tail(map: &Vec<(String, JsonValue)>, errors: &mut Vec<String>, strict: bool)
    ensures
        texts(final(errors)@) == persona_tail_errors(
            view_members(map@),
            strict,
            texts(old(errors)@),
        ),
{
    check(
        errors,
        optional_boolean(get_member(map, "isDefault")),
        "payload.isDefault",
        "must be a boolean",
    );
    validate_timestamps(map, errors);
    if strict {
        check(
            errors,
            is_string(get_member(map, "description")),
            "payload.description",
            "is required in strict mode",
        );
        validate_strict_timestamps(map, errors);
    }
}

fn validate_persona_payload_v1(
    map: &Vec<(String, JsonValue)>,
    errors: &mut Vec<String>,
    strict: bool,
)
    ensures
        texts(final(errors)@) == persona_v1_errors(view_members(map@), strict, texts(old(errors)@)),
{
    validate_persona_common(map, errors);
    check(
        errors,
        optional_string(get_member(map, "avatar")),
        "payload.avatar",
        "must be a string or null",
    );
    validate_persona_tail(map, errors, strict);
}

fn validate_persona_payload_v2(
    map: &Vec<(String, JsonValue)>,
    errors: &mut Vec<String>,
    strict: bool,
)
    ensures
        texts(final(errors)@) == persona_v2_errors(view_members(map@), strict, texts(old(errors)@)),
{
    validate_persona_common(map, errors);
    validate_asset_locator(get_member(map, "avatar"), "payload.avatar", errors);
    validate_persona_tail(map, errors, strict);
}

pub open spec fn character_v2_media_errors(m: Members, strict: bool, e: Errs) -> Errs {
    let e = asset_locator_errors(lookup(m, "avatar"@), "payload.avatar"@, e);
    let e = asset_locator_errors(lookup(m, "chatBackground"@), "payload.chatBackground"@, e);
    let e = note(
        e,
        strict && lookup(m, "rules"@) is Some,
        "payload.rules"@,
        "is not a valid field in v2; use systemPrompt or characterBook instead"@,
    );
    let scene = lookup(m, "scene"@);
    if scene is Some && scene != Some(Json::Null) {
        scene_v2_errors(scene->0, "payload.scene"@, strict, e)
    } else {
        e
    }
}

pub open spec fn character_v2_text_errors(m: Members, e: Errs) -> Errs {
    let e = note(
        e,
        !opt_str(lookup(m, "defaultModelId"@)),
        "payload.defaultModelId"@,
        "must be a string or null"@,
    );
    let e = note(
        e,
        !opt_str(lookup(m, "fallbackModelId"@)),
        "payload.fallbackModelId"@,
        "must be a string or null"@,
    );
    let e = note(
        e,
        !opt_str(lookup(m, "systemPrompt"@)),
        "payload.systemPrompt"@,
        "must be a string or null"@,
    );
    let e = note(
        e,
        !opt_str(lookup(m, "promptTemplateId"@)),
        "payload.promptTemplateId"@,
        "must be a string or null"@,
    );
    let e = note(
        e,
        !opt_str(lookup(m, "nickname"@)),
        "payload.nickname"@,
        "must be a string or null"@,
    );
    let e = note(
        e,
        !opt_str(lookup(m, "creator"@)),
        "payload.creator"@,
        "must be a string or null"@,
    );
    let e = note(
        e,
        !opt_str(lookup(m, "creatorNotes"@)),
        "payload.creatorNotes"@,
        "must be a string or null"@,
    );
    let e = note(
        e,
        !opt_obj(lookup(m, "creatorNotesMultilingual"@)),
        "payload.creatorNotesMultilingual"@,
        "must be an object if provided"@,
    );
    let source = lookup(m, "source"@);
    note(
        e,
        source is Some && !is_str_array(source),
        "payload.source"@,
        "must be an array of strings"@,
    )
}

pub open spec fn character_v2_tail_errors(m: Members, e: Errs) -> Errs {
    let e = voice_v2_errors(lookup(m, "voiceConfig"@), e);
    let e = note(
        e,
        !opt_bool(lookup(m, "voiceAutoplay"@)),
        "payload.voiceAutoplay"@,
        "must be a boolean"@,
    );
    let e = character_book_errors(lookup(m, "characterBook"@), e);
    timestamps_errors(m, e)
}

pub open spec fn character_v2_strict_errors(m: Members, e: Errs) -> Errs {
    let e = note(
        e,
        !is_str(lookup(m, "description"@)),
        "payload.description"@,
        "is required in strict mode"@,
    );
    let e = note(
        e,
        !is_obj(lookup(m, "scene"@)),
        "payload.scene"@,
        "is required in strict mode"@,
    );
    strict_timestamps_errors(m, e)
}

pub open spec fn character_v2_errors(m: Members, strict: bool, e: Errs) -> Errs {
    let e = character_ident_errors(m, e);
    let e = character_v2_media_errors(m, strict, e);
    let e = character_v2_text_errors(m, e);
    let e = character_v2_tail_errors(m, e);
    if strict {
        character_v2_strict_errors(m, e)
    } else {
        e
    }
}

fn validate_character_v2_media(
    map: &Vec<(String, JsonValue)>,
    errors: &mut Vec<String>,
    strict: bool,
)
    ensures
        texts(final(errors)@) == character_v2_media_errors(
            view_members(map@),
            strict,
            texts(old(errors)@),
        ),
{
    validate_asset_locator(get_member(map, "avatar"), "payload.avatar", errors);
    validate_asset_locator(get_member(map, "chatBackground"), "payload.chatBackground", errors);
    check(
        errors,
        !(strict && get_member(map, "rules").is_some()),
        "payload.rules",
        "is not a valid field in v2; use systemPrompt or characterBook instead",
    );
    match get_member(map, "scene") {
        None => {},
        Some(JsonValue::Null) => {},
        Some(scene) => validate_scene_v2(scene, "payload.scene", errors, strict),
    }
}

#[verifier::spinoff_prover]
fn validate_character_v2_text(map: &Vec<(String, JsonValue)>, errors: &mut Vec<String>)
    ensures
        texts(final(errors)@) == character_v2_text_errors(
            view_members(map@),
            texts(old(errors)@),
        ),
{
    check(
        errors,
        optional_string(get_member(map, "defaultModelId")),
        "payload.defaultModelId",
        "must be a string or null",
    );
    check(
        errors,
        optional_string(get_member(map, "fallbackModelId")),
        "payload.fallbackModelId",
        "must be a string or null",
    );
    check(
        errors,
        optional_string(get_member(map, "systemPrompt")),
        "payload.systemPrompt",
        "must be a string or null",
    );
    check(
        errors,
        optional_string(get_member(map, "promptTemplateId")),
        "payload.promptTemplateId",
        "must be a string or null",
    );
    check(
        errors,
        optional_string(get_member(map, "nickname")),
        "payload.nickname",
        "must be a string or null",
    );
    check(
        errors,
        optional_string(get_member(map, "creator")),
        "payload.creator",
        "must be a string or null",
    );
    check(
        errors,
        optional_string(get_member(map, "creatorNotes")),
        "payload.creatorNotes",
        "must be a string or null",
    );
    check(
        errors,
        optional_object(get_member(map, "creatorNotesMultilingual")),
        "payload.creatorNotesMultilingual",
        "must be an object if provided",
    );
    let source = get_member(map, "source");
    check(
        errors,
        source.is_none() || is_string_array(source),
        "payload.source",
        "must be an array of strings",
    );
}

fn validate_character_v2_tail(map: &Vec<(String, JsonValue)>, errors: &mut Vec<String>)
    ensures
        texts(final(errors)@) == character_v2_tail_errors(
            view_members(map@),
            texts(old(errors)@),
        ),
{
    validate_voice_config_v2(get_member(map, "voiceConfig"), errors);
    check(
        errors,
        optional_boolean(get_member(map, "voiceAutoplay")),
        "payload.voiceAutoplay",
        "must be a boolean",
    );
    validate_character_book(get_member(map, "characterBook"), errors);
    validate_timestamps(map, errors);
}

fn validate_character_payload_v2(
    map: &Vec<(String, JsonValue)>,
    errors: &mut Vec<String>,
    strict: bool,
)
    ensures
        texts(final(errors)@) == character_v2_errors(
            view_members(map@),
            strict,
            texts(old(errors)@),
        ),
{
    validate_character_ident(map, errors);
    validate_character_v2_media(map, errors, strict);
    validate_character_v2_text(map, errors);
    validate_character_v2_tail(map, errors);
    if strict {
        check(
            errors,
            is_string(get_member(map, "description")),
            "payload.description",
            "is required in strict mode",
        );
        check(
            errors,
            is_object(get_member(map, "scene")),
            "payload.scene",
            "is required in strict mode",
        );
        validate_strict_timestamps(map, errors);
    }
}

// ---------------------------------------------------------------- documents

pub open spec fn is_kind(o: Option<Json>, kind: Seq<char>) -> bool {
    o == Some(Json::Str(kind))
}

/// Errors of the payload, by kind and schema generation.
pub open spec fn payload_errors(root: Members, strict: bool, e: Errs) -> Errs {
    let version = schema_version(lookup(root, "schema"@));
    let is_v2 = version == Some(SCHEMA_VERSION_V2@);
    let known = version is Some && is_known_version(version->0);
    let kind = lookup(root, "kind"@);
    match lookup(root, "payload"@) {
        Some(Json::Obj(pm)) => {
            if !known {
                e
            } else if is_kind(kind, "character"@) {
                if is_v2 {
                    character_v2_errors(pm, strict, e)
                } else {
                    character_v1_errors(pm, strict, e)
                }
            } else if is_kind(kind, "persona"@) {
                if is_v2 {
                    persona_v2_errors(pm, strict, e)
                } else {
                    persona_v1_errors(pm, strict, e)
                }
            } else {
                e
            }
        },
        _ => note(e, true, "payload"@, "must be an object"@),
    }
}

/// All errors of a document, in the order the rules are checked.
#[verifier::opaque]
pub open spec fn validation_errors(doc: Json, strict: bool) -> Errs {
    match doc {
        Json::Obj(root) => {
            let schema = lookup(root, "schema"@);
            let e = schema_errors(schema, Seq::empty());
            let kind = lookup(root, "kind"@);
            let e = note(
                e,
                !(is_kind(kind, "character"@) || is_kind(kind, "persona"@)),
                "kind"@,
                "must be \"character\" or \"persona\""@,
            );
            let e = payload_errors(root, strict, e);
            let e = settings_errors(lookup(root, "app_specific_settings"@), e);
            let version = schema_version(schema);
            let e = if version == Some(SCHEMA_VERSION_V2@) {
                meta_v2_errors(lookup(root, "meta"@), strict, e)
            } else {
                meta_errors(lookup(root, "meta"@), e)
            };
            let ext = lookup(root, "extensions"@);
            note(e, ext is Some && !is_obj(ext), "extensions"@, "must be an object"@)
        },
        _ => seq![error_text("root"@, "must be an object"@)],
    }
}

/// Whether the string value `o` is `kind`.
fn kind_is(o: Option<&JsonValue>, kind: &str) -> (r: bool)
    ensures
        r == is_kind(oview(o), kind@),
{
    match o {
        Some(JsonValue::String(s)) => text_is(s, kind),
        _ => false,
    }
}

/// Checks `value` against the rule set that its schema version and kind select.
#[verifier::spinoff_prover]
pub fn validate_uec(value: &JsonValue, strict: bool) -> (r: ValidationResult)
    ensures
        texts(r.errors@) == validation_errors(value@, strict),
        r.ok == (r.errors@.len() == 0),
{
    reveal(validation_errors);
    let mut errors: Vec<String> = Vec::new();
    assert(texts(errors@) =~= Seq::empty());
    let map = match value {
        JsonValue::Object(map) => map,
        _ => {
            push_error(&mut errors, "root", "must be an object");
            return ValidationResult { ok: false, errors };
        },
    };
    let ghost root = view_members(map@);
    let version = validate_schema(get_member(map, "schema"), &mut errors);
    let kind = get_member(map, "kind");
    check(
        &mut errors,
        kind_is(kind, "character") || kind_is(kind, "persona"),
        "kind",
        "must be \"character\" or \"persona\"",
    );
    let (is_v2, known) = match &version {
        Some(v) => (text_is(v, SCHEMA_VERSION_V2), known_version(v.as_str())),
        None => (false, false),
    };
    match get_member(map, "payload") {
        Some(JsonValue::Object(pm)) => {
            if !known {
            } else if kind_is(kind, "character") {
                if is_v2 {
                    validate_character_payload_v2(pm, &mut errors, strict);
                } else {
                    validate_character_payload_v1(pm, &mut errors, strict);
                }
            } else if kind_is(kind, "persona") {
                if is_v2 {
                    validate_persona_payload_v2(pm, &mut errors, strict);
                } else {
                    validate_persona_payload_v1(pm, &mut errors, strict);
                }
            }
        },
        _ => push_error(&mut errors, "payload", "must be an object"),
    }
    validate_app_specific_settings(get_member(map, "app_specific_settings"), &mut errors);
    if is_v2 {
        validate_meta_v2(get_member(map, "meta"), &mut errors, strict);
    } else {
        validate_meta(get_member(map, "meta"), &mut errors);
    }
    let ext = get_member(map, "extensions");
    check(&mut errors, ext.is_none() || is_object(ext), "extensions", "must be an object");
    let ok = errors.len() == 0;
    ValidationResult { ok, errors }
}

pub fn validate_uec_strict(value: &JsonValue) -> (r: ValidationResult)
    ensures
        texts(r.errors@) == validation_errors(value@, true),
        r.ok == (r.errors@.len() == 0),
{
    validate_uec(value, true)
}

/// The version string at `schema.version`, if there is one.
pub open spec fn doc_version(doc: Json) -> Option<Seq<char>> {
    match doc.get("schema"@) {
        Some(schema) => match schema.get("version"@) {
            Some(Json::Str(v)) => Some(v),
            _ => None,
        },
        None => None,
    }
}

/// Validation errors, and a mismatch of the document's version against `version`.
pub open spec fn at_version_errors(doc: Json, version: Seq<char>, strict: bool) -> Errs {
    let e = validation_errors(doc, strict);
    match doc_version(doc) {
        Some(current) => if current != version {
            e.push(
                "schema.version: expected \""@ + version + "\" but received \""@ + current
                    + "\""@,
            )
        } else {
            e
        },
        None => e,
    }
}

/// The version string at `schema.version`, if there is one.
pub fn version_of(value: &JsonValue) -> (r: Option<&String>)
    ensures
        match r {
            Some(v) => doc_version(value@) == Some(v@),
            None => doc_version(value@) is None,
        },
{
    match value.get("schema") {
        Some(schema) => match schema.get("version") {
            Some(JsonValue::String(v)) => Some(v),
            _ => None,
        },
        None => None,
    }
}

pub fn validate_uec_at_version(value: &JsonValue, version: &str, strict: bool) -> (r:
    ValidationResult)
    ensures
        texts(r.errors@) == at_version_errors(value@, version@, strict),
        r.ok == (r.errors@.len() == 0),
{
    let mut result = validate_uec(value, strict);
    if let Some(current) = version_of(value) {
        if !text_is(current, version) {
            let message = join("schema.version: expected \"", version).concat(
                "\" but received \"",
            ).concat(current.as_str()).concat("\"");
            let ghost before = result.errors@;
            result.errors.push(message);
            assert(texts(result.errors@) =~= texts(before).push(message@));
            result.ok = false;
        }
    }
    result
}

pub fn is_uec(value: &JsonValue, strict: bool) -> (r: bool)
    ensures
        r == (validation_errors(value@, strict).len() == 0),
{
    validate_uec(value, strict).ok
}

pub fn is_character_uec(value: &JsonValue, strict: bool) -> (r: bool)
    ensures
        r == (validation_errors(value@, strict).len() == 0 && is_kind(
            value@.get("kind"@),
            "character"@,
        )),
{
    is_uec(value, strict) && kind_is(value.get("kind"), "character")
}

pub fn is_persona_uec(value: &JsonValue, strict: bool) -> (r: bool)
    ensures
        r == (validation_errors(value@, strict).len() == 0 && is_kind(
            value@.get("kind"@),
            "persona"@,
        )),
{
    is_uec(value, strict) && kind_is(value.get("kind"), "persona")
}

/// The texts of `s`, separated by `sep`.
pub open spec fn joined(s: Seq<Seq<char>>, sep: Seq<char>) -> Seq<char>
    decreases s.len(),
{
    if s.len() == 0 {
        Seq::empty()
    } else if s.len() == 1 {
        s[0]
    } else {
        joined(s.drop_last(), sep) + sep + s.last()
    }
}

/// The texts of `items`, separated by `sep`.
pub fn join_texts(items: &Vec<String>, sep: &str) -> (r: String)
    ensures
        r@ == joined(texts(items@), sep@),
{
    let mut out = String::new();
    let mut i: usize = 0;
    while i < items.len()
        invariant
            i <= items.len(),
            out@ == joined(texts(items@).subrange(0, i as int), sep@),
        decreases items.len() - i,
    {
        let ghost prefix = texts(items@).subrange(0, i as int);
        let ghost next = texts(items@).subrange(0, i + 1);
        assert(next.drop_last() =~= prefix);
        if i == 0 {
            out = items[i].clone();
        } else {
            out = out.concat(sep).concat(items[i].as_str());
        }
        i += 1;
    }
    assert(texts(items@).subrange(0, items@.len() as int) =~= texts(items@));
    out
}

/// A field that may be absent: absent and null both stand for none.
pub open spec fn optional_field(o: Option<Json>) -> Option<Json> {
    match o {
        Some(Json::Null) => None,
        _ => o,
    }
}

pub open spec fn oview_value(o: Option<JsonValue>) -> Option<Json> {
    match o {
        Some(v) => Some(v@),
        None => None,
    }
}

/// Whether the top-level fields of `doc` have the shapes of a `Uec` record.
pub open spec fn record_fits(doc: Json) -> bool {
    match doc {
        Json::Obj(root) => {
            &&& lookup(root, "schema"@) matches Some(Json::Obj(sm))
            &&& is_str(lookup(sm, "name"@))
            &&& is_str(lookup(sm, "version"@))
            &&& opt_str(lookup(sm, "compat"@))
            &&& (is_kind(lookup(root, "kind"@), "character"@) || is_kind(
                lookup(root, "kind"@),
                "persona"@,
            ))
            &&& lookup(root, "payload"@) is Some
        },
        _ => false,
    }
}

/// Whether `u` holds the top-level fields of `doc`.
pub open spec fn record_of(u: Uec, doc: Json) -> bool {
    let sm = doc.get("schema"@)->0;
    &&& Some(Json::Str(u.schema.name@)) == sm.get("name"@)
    &&& Some(Json::Str(u.schema.version@)) == sm.get("version"@)
    &&& match u.schema.compat {
        Some(c) => sm.get("compat"@) == Some(Json::Str(c@)),
        None => optional_field(sm.get("compat"@)) is None,
    }
    &&& (u.kind == UecKind::Character <==> is_kind(doc.get("kind"@), "character"@))
    &&& Some(u.payload@) == doc.get("payload"@)
    &&& oview_value(u.app_specific_settings) == optional_field(doc.get("app_specific_settings"@))
    &&& oview_value(u.meta) == optional_field(doc.get("meta"@))
    &&& oview_value(u.extensions) == optional_field(doc.get("extensions"@))
}

fn copy_optional(o: Option<&JsonValue>) -> (r: Option<JsonValue>)
    ensures
        oview_value(r) == optional_field(oview(o)),
{
    match o {
        Some(JsonValue::Null) => None,
        Some(v) => Some(v.deep_copy()),
        None => None,
    }
}

/// The `Uec` record of `value`, when its top-level fields have the right shapes.
fn record_from(value: &JsonValue) -> (r: Option<Uec>)
    ensures
        r is Some <==> record_fits(value@),
        r matches Some(u) ==> record_of(u, value@),
{
    let map = match value {
        JsonValue::Object(map) => map,
        _ => return None,
    };
    let schema = match get_member(map, "schema") {
        Some(JsonValue::Object(sm)) => sm,
        _ => return None,
    };
    let name = match get_member(schema, "name") {
        Some(JsonValue::String(n)) => n.clone(),
        _ => return None,
    };
    let version = match get_member(schema, "version") {
        Some(JsonValue::String(v)) => v.clone(),
        _ => return None,
    };
    let compat = match get_member(schema, "compat") {
        None => None,
        Some(JsonValue::Null) => None,
        Some(JsonValue::String(c)) => Some(c.clone()),
        _ => return None,
    };
    let kind_value = get_member(map, "kind");
    let kind = if kind_is(kind_value, "character") {
        UecKind::Character
    } else if kind_is(kind_value, "persona") {
        proof {
            reveal_strlit("character");
            reveal_strlit("persona");
        }
        UecKind::Persona
    } else {
        return None;
    };
    let payload = match get_member(map, "payload") {
        Some(p) => p.deep_copy(),
        None => return None,
    };
    Some(
        Uec {
            schema: UecSchema { name, version, compat },
            kind,
            payload,
            app_specific_settings: copy_optional(get_member(map, "app_specific_settings")),
            meta: copy_optional(get_member(map, "meta")),
            extensions: copy_optional(get_member(map, "extensions")),
        },
    )
}

/// The message of a document that fails validation.
pub open spec fn invalid_message(errors: Errs) -> Seq<char> {
    "Invalid UEC: "@ + joined(errors, "; "@)
}

/// Validates `value` and hands back its typed record.
#[verifier::spinoff_prover]
pub fn assert_uec(value: &JsonValue, strict: bool) -> (r: Result<Uec, String>)
    ensures
        validation_errors(value@, strict).len() != 0 ==> (r matches Err(m) && m@
            == invalid_message(validation_errors(value@, strict))),
        validation_errors(value@, strict).len() == 0 ==> (r matches Ok(u) && record_of(u, value@)),
{
    let result = validate_uec(value, strict);
    if result.ok {
        proof {
            crate::laws::lemma_valid_fits_record(value@, strict);
        }
        match record_from(value) {
            Some(u) => Ok(u),
            None => Err(
                String::from_str("Invalid UEC: the document does not map onto the record shape"),
            ),
        }
    } else {
        Err(join("Invalid UEC: ", join_texts(&result.errors, "; ").as_str()))
    }
}

} // verus!
