//! Assembling documents from their parts.
use vstd::prelude::*;

use crate::json::{group_json_view, lookup, view_members, with_member, Json, JsonValue};
use crate::text::{has_prefix, join, starts_with, SCHEMA_NAME, SCHEMA_VERSION, SCHEMA_VERSION_V2};
use crate::validate::Members;
use crate::value::{get_member, group_member_updates, set_member};

verus! {

broadcast use {group_json_view, group_member_updates};

/// `base` with the first `n` members of `extra` written over it, one after another.
pub open spec fn applied(base: Members, extra: Members, n: nat) -> Members
    decreases n,
{
    if n == 0 {
        base
    } else {
        let prev = applied(base, extra, (n - 1) as nat);
        with_member(prev, extra[n - 1].0, extra[n - 1].1)
    }
}

/// A payload whose string `systemPrompt` is marked as a template id by the `_ID:`
/// prefix, when `marked` asks for it and the prefix is missing.
pub open spec fn prompt_marked(payload: Json, marked: bool) -> Json {
    if !marked {
        payload
    } else {
        match payload {
            Json::Obj(m) => match lookup(m, "systemPrompt"@) {
                Some(Json::Str(p)) => if starts_with(p, "_ID:"@) {
                    payload
                } else {
                    Json::Obj(with_member(m, "systemPrompt"@, Json::Str("_ID:"@ + p)))
                },
                _ => payload,
            },
            _ => payload,
        }
    }
}

pub open spec fn schema_is_v2(schema: Option<Members>) -> bool {
    schema matches Some(m) && lookup(m, "version"@) == Some(Json::Str(SCHEMA_VERSION_V2@))
}

pub open spec fn or_empty_object(o: Option<Json>) -> Json {
    match o {
        Some(v) => v,
        None => Json::Obj(Seq::empty()),
    }
}

/// The document that `create_uec` assembles.
pub open spec fn created(
    kind: Seq<char>,
    payload: Json,
    schema: Option<Members>,
    settings: Option<Json>,
    meta: Option<Json>,
    extensions: Option<Json>,
    marked: bool,
) -> Json {
    let v2 = schema_is_v2(schema);
    let base = seq![
        ("name"@, Json::Str(SCHEMA_NAME@)),
        ("version"@, Json::Str(if v2 { SCHEMA_VERSION_V2@ } else { SCHEMA_VERSION@ })),
    ];
    let sm = match schema {
        Some(m) => applied(base, m, m.len()),
        None => base,
    };
    let payload = if kind == "character"@ && !v2 {
        prompt_marked(payload, marked)
    } else {
        payload
    };
    Json::Obj(
        seq![
            ("schema"@, Json::Obj(sm)),
            ("kind"@, Json::Str(kind)),
            ("payload"@, payload),
            ("app_specific_settings"@, or_empty_object(settings)),
            ("meta"@, or_empty_object(meta)),
            ("extensions"@, or_empty_object(extensions)),
        ],
    )
}

pub open spec fn oview_members(o: Option<Vec<(String, JsonValue)>>) -> Option<Members> {
    match o {
        Some(m) => Some(view_members(m@)),
        None => None,
    }
}

pub open spec fn oview_owned(o: Option<JsonValue>) -> Option<Json> {
    match o {
        Some(v) => Some(v@),
        None => None,
    }
}

/// Marks a string `systemPrompt` as a template id with the `_ID:` prefix.
pub fn normalize_system_prompt(payload: &JsonValue, system_prompt_is_id: bool) -> (r: JsonValue)
    ensures
        r@ == prompt_marked(payload@, system_prompt_is_id),
{
    if !system_prompt_is_id {
        return payload.deep_copy();
    }
    let map = match payload {
        JsonValue::Object(map) => map,
        _ => return payload.deep_copy(),
    };
    let prompt = match get_member(map, "systemPrompt") {
        Some(JsonValue::String(p)) => p,
        _ => return payload.deep_copy(),
    };
    if has_prefix(prompt.as_str(), "_ID:") {
        return payload.deep_copy();
    }
    let marked = join("_ID:", prompt.as_str());
    let mut next = crate::value::copy_members(map);
    set_member(&mut next, "systemPrompt", JsonValue::String(marked));
    JsonValue::Object(next)
}

fn or_empty(o: Option<JsonValue>) -> (r: JsonValue)
    ensures
        r@ == or_empty_object(oview_owned(o)),
{
    match o {
        Some(v) => v,
        None => {
            let empty: Vec<(String, JsonValue)> = Vec::new();
            assert(view_members(empty@) =~= Seq::empty());
            JsonValue::Object(empty)
        },
    }
}

/// Assembles a document: schema block (with any custom schema members written over
/// the defaults), kind, payload, and the three free-form blocks, empty when not given.
#[verifier::spinoff_prover]
pub fn create_uec(
    kind: &str,
    payload: JsonValue,
    schema: Option<Vec<(String, JsonValue)>>,
    app_specific_settings: Option<JsonValue>,
    meta: Option<JsonValue>,
    extensions: Option<JsonValue>,
    system_prompt_is_id: bool,
) -> (r: JsonValue)
    requires
        kind@.len() > 0,
        payload@ is Obj,
    ensures
        r@ == created(
            kind@,
            payload@,
            oview_members(schema),
            oview_owned(app_specific_settings),
            oview_owned(meta),
            oview_owned(extensions),
            system_prompt_is_id,
        ),
{
    let is_v2 = match &schema {
        Some(m) => match get_member(m, "version") {
            Some(JsonValue::String(v)) => crate::text::text_is(v, SCHEMA_VERSION_V2),
            _ => false,
        },
        None => false,
    };
    let version = if is_v2 {
        SCHEMA_VERSION_V2
    } else {
        SCHEMA_VERSION
    };
    let mut sm: Vec<(String, JsonValue)> = vec![
        (String::from_str("name"), JsonValue::String(String::from_str(SCHEMA_NAME))),
        (String::from_str("version"), JsonValue::String(String::from_str(version))),
    ];
    let ghost base = view_members(sm@);
    assert(base =~= seq![
        ("name"@, Json::Str(SCHEMA_NAME@)),
        ("version"@, Json::Str(if is_v2 { SCHEMA_VERSION_V2@ } else { SCHEMA_VERSION@ })),
    ]);
    if let Some(custom) = schema {
        let ghost extra = view_members(custom@);
        let mut rest = custom;
        let mut taken: Vec<(String, JsonValue)> = Vec::new();
        let mut i: usize = 0;
        let n = rest.len();
        // Members are written in order; `rest` is consumed from the front.
        while rest.len() > 0
            invariant
                i + rest.len() == n,
                n == extra.len(),
                view_members(rest@) == extra.subrange(i as int, n as int),
                view_members(sm@) == applied(base, extra, i as nat),
            decreases rest.len(),
        {
            let ghost before = view_members(rest@);
            let (k, v) = rest.remove(0);
            assert(view_members(rest@) =~= before.drop_first());
            assert(before[0] == extra[i as int]);
            set_member(&mut sm, k.as_str(), v);
            assert(before.drop_first() =~= extra.subrange(i + 1, n as int));
            i += 1;
        }
    }
    let is_character = kind.to_owned() == String::from_str("character");
    let body = if is_character && !is_v2 {
        normalize_system_prompt(&payload, system_prompt_is_id)
    } else {
        payload
    };
    let root = vec![
        (String::from_str("schema"), JsonValue::Object(sm)),
        (String::from_str("kind"), JsonValue::String(kind.to_owned())),
        (String::from_str("payload"), body),
        (String::from_str("app_specific_settings"), or_empty(app_specific_settings)),
        (String::from_str("meta"), or_empty(meta)),
        (String::from_str("extensions"), or_empty(extensions)),
    ];
    let r = JsonValue::Object(root);
    assert(view_members(root@) =~= created(
        kind@,
        payload@,
        oview_members(schema),
        oview_owned(app_specific_settings),
        oview_owned(meta),
        oview_owned(extensions),
        system_prompt_is_id,
    )->Obj_0);
    r
}

/// A first-generation character document; `system_prompt_is_id` marks a string
/// `systemPrompt` as a template id.
pub fn create_character_uec(
    payload: Vec<(String, JsonValue)>,
    system_prompt_is_id: bool,
    schema: Option<Vec<(String, JsonValue)>>,
    app_specific_settings: Option<JsonValue>,
    meta: Option<JsonValue>,
    extensions: Option<JsonValue>,
) -> (r: JsonValue)
    ensures
        r@ == created(
            "character"@,
            Json::Obj(view_members(payload@)),
            oview_members(schema),
            oview_owned(app_specific_settings),
            oview_owned(meta),
            oview_owned(extensions),
            system_prompt_is_id,
        ),
{
    proof {
        reveal_strlit("character");
    }
    create_uec(
        "character",
        JsonValue::Object(payload),
        schema,
        app_specific_settings,
        meta,
        extensions,
        system_prompt_is_id,
    )
}

/// A first-generation persona document.
pub fn create_persona_uec(
    payload: Vec<(String, JsonValue)>,
    schema: Option<Vec<(String, JsonValue)>>,
    app_specific_settings: Option<JsonValue>,
    meta: Option<JsonValue>,
    extensions: Option<JsonValue>,
) -> (r: JsonValue)
    ensures
        r@ == created(
            "persona"@,
            Json::Obj(view_members(payload@)),
            oview_members(schema),
            oview_owned(app_specific_settings),
            oview_owned(meta),
            oview_owned(extensions),
            false,
        ),
{
    proof {
        reveal_strlit("persona");
    }
    create_uec(
        "persona",
        JsonValue::Object(payload),
        schema,
        app_specific_settings,
        meta,
        extensions,
        false,
    )
}

/// The custom schema members with `version` set to the second generation.
pub open spec fn v2_schema(schema: Option<Members>) -> Members {
    let m = match schema {
        Some(m) => m,
        None => Seq::empty(),
    };
    with_member(m, "version"@, Json::Str(SCHEMA_VERSION_V2@))
}

fn v2_schema_members(schema: Option<Vec<(String, JsonValue)>>) -> (r: Vec<(String, JsonValue)>)
    ensures
        view_members(r@) == v2_schema(oview_members(schema)),
{
    let mut m = match schema {
        Some(m) => m,
        None => {
            let empty: Vec<(String, JsonValue)> = Vec::new();
            assert(view_members(empty@) =~= Seq::empty());
            empty
        },
    };
    set_member(&mut m, "version", JsonValue::String(String::from_str(SCHEMA_VERSION_V2)));
    m
}

/// A second-generation character document.
pub fn create_character_uec_v2(
    payload: Vec<(String, JsonValue)>,
    schema: Option<Vec<(String, JsonValue)>>,
    app_specific_settings: Option<JsonValue>,
    meta: Option<JsonValue>,
    extensions: Option<JsonValue>,
) -> (r: JsonValue)
    ensures
        r@ == created(
            "character"@,
            Json::Obj(view_members(payload@)),
            Some(v2_schema(oview_members(schema))),
            oview_owned(app_specific_settings),
            oview_owned(meta),
            oview_owned(extensions),
            false,
        ),
{
    proof {
        reveal_strlit("character");
    }
    let sm = v2_schema_members(schema);
    create_uec(
        "character",
        JsonValue::Object(payload),
        Some(sm),
        app_specific_settings,
        meta,
        extensions,
        false,
    )
}

/// A second-generation persona document.
pub fn create_persona_uec_v2(
    payload: Vec<(String, JsonValue)>,
    schema: Option<Vec<(String, JsonValue)>>,
    app_specific_settings: Option<JsonValue>,
    meta: Option<JsonValue>,
    extensions: Option<JsonValue>,
) -> (r: JsonValue)
    ensures
        r@ == created(
            "persona"@,
            Json::Obj(view_members(payload@)),
            Some(v2_schema(oview_members(schema))),
            oview_owned(app_specific_settings),
            oview_owned(meta),
            oview_owned(extensions),
            false,
        ),
{
    proof {
        reveal_strlit("persona");
    }
    let sm = v2_schema_members(schema);
    create_uec(
        "persona",
        JsonValue::Object(payload),
        Some(sm),
        app_specific_settings,
        meta,
        extensions,
        false,
    )
}

/// Whether the payload's `systemPrompt` is a string marked as a template id.
pub fn system_prompt_is_id(payload: &JsonValue) -> (r: bool)
    ensures
        r == (payload@.get("systemPrompt"@) matches Some(Json::Str(p)) && starts_with(p, "_ID:"@)),
{
    match payload.get("systemPrompt") {
        Some(JsonValue::String(p)) => has_prefix(p.as_str(), "_ID:"),
        _ => false,
    }
}

} // verus!
