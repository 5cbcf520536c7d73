use unified_entity_card::{
    create_persona_uec_v2, create_uec, normalize_system_prompt, system_prompt_is_id,
    assert_uec, convert_uec_v1_to_v2, decode_json, diff_uec, downgrade_uec, extract_assets,
    json_equal, lint_uec, merge_uec, normalize_uec, parse_uec, rewrite_assets, stringify_uec,
    upgrade_uec, validate_uec, AssetReference, JsonNumber, JsonValue, MergeOptions,
};

fn doc(text: &str) -> JsonValue {
    decode_json(text).expect("test input is valid JSON")
}

fn keys(v: &JsonValue) -> Vec<String> {
    v.as_object().expect("an object").iter().map(|(k, _)| k.clone()).collect()
}

#[test]
fn unknown_version_reports_only_the_schema_error() {
    let card = doc(r#"{
      "schema": { "name": "UEC", "version": "9.9" },
      "kind": "character",
      "payload": { "id": "c", "name": "Named" }
    }"#);
    let result = validate_uec(&card, false);
    assert!(!result.ok);
    assert_eq!(result.errors, vec!["schema.version: unknown version \"9.9\"".to_string()]);
    assert!(!result.errors.iter().any(|e| e.contains("payload.name")));
}

#[test]
fn convert_scenario_folds_scene_and_template() {
    let card = doc(r#"{
      "schema": { "name": "UEC", "version": "1.0" },
      "kind": "character",
      "payload": {
        "id": "c", "name": "N",
        "scenes": [{ "id": "scene-1", "content": "hello", "selectedVariantId": null }],
        "defaultSceneId": "scene-1",
        "systemPrompt": "_ID:template-1",
        "rules": ["r1"]
      }
    }"#);
    let v2 = convert_uec_v1_to_v2(&card).expect("converts");
    let payload = v2.get("payload").unwrap();
    assert!(payload.get("rules").is_none());
    assert!(payload.get("scenes").is_none());
    assert!(payload.get("defaultSceneId").is_none());
    let scene = payload.get("scene").unwrap();
    assert_eq!(scene.get("selectedVariant").and_then(|v| v.as_i64()), Some(0));
    assert!(scene.get("selectedVariantId").is_none());
    assert_eq!(payload.get("promptTemplateId").and_then(|v| v.as_str()), Some("template-1"));
    assert!(matches!(payload.get("systemPrompt"), Some(JsonValue::Null)));
    assert_eq!(v2.get("schema").and_then(|s| s.get("version")).and_then(|v| v.as_str()), Some("2.0"));
}

#[test]
fn lint_scenario_reports_three_warnings() {
    let card = doc(r#"{
      "schema": { "name": "UEC", "version": "2.0" },
      "kind": "character",
      "payload": {
        "id": "c", "name": "N", "description": " ",
        "createdAt": 20, "updatedAt": 10,
        "scene": { "id": "s", "content": "c", "selectedVariant": "missing", "variants": [] }
      }
    }"#);
    let lint = lint_uec(&card);
    assert!(!lint.ok);
    assert_eq!(
        lint.warnings,
        vec![
            "payload.description is an empty string".to_string(),
            "payload.createdAt is greater than payload.updatedAt".to_string(),
            "payload.scene.selectedVariant does not match any variant id".to_string(),
        ]
    );
}

#[test]
fn lint_flags_meta_inversion_and_large_inline_assets() {
    let big = "A".repeat(200_001);
    let fits = "A".repeat(200_000);
    let text = format!(
        r#"{{
      "schema": {{ "name": "UEC", "version": "2.0" }},
      "kind": "character",
      "payload": {{ "id": "c", "name": "N",
        "avatar": {{ "type": "inline_base64", "data": "{}" }},
        "chatBackground": {{ "type": "inline_base64", "data": "{}" }} }},
      "meta": {{ "createdAt": 5, "updatedAt": 4 }}
    }}"#,
        big, fits
    );
    let lint = lint_uec(&doc(&text));
    assert_eq!(
        lint.warnings,
        vec![
            "meta.createdAt is greater than meta.updatedAt".to_string(),
            "payload.avatar: inline_base64 asset is very large".to_string(),
        ]
    );
}

#[test]
fn lint_rejects_documents_without_payload_object() {
    let lint = lint_uec(&doc(r#"{ "payload": 3 }"#));
    assert!(!lint.ok);
    assert_eq!(lint.warnings, vec!["root: not a valid UEC object shape".to_string()]);
}

#[test]
fn normalize_keeps_validation_outcome() {
    let card = doc(r#"{
      "payload": { "name": 7, "id": "c", "tags": ["a", 1] },
      "kind": "character",
      "schema": { "version": "1.0", "name": "UEC" },
      "meta": { "source": 3 }
    }"#);
    let before = validate_uec(&card, true);
    let after = validate_uec(&normalize_uec(&card), true);
    assert_eq!(before.errors, after.errors);
    assert!(!before.errors.is_empty());
}

#[test]
fn normalize_orders_keys_and_keeps_first_duplicate() {
    let raw = JsonValue::Object(vec![
        ("b".to_string(), JsonValue::Number(JsonNumber::PosInt(1))),
        ("a".to_string(), JsonValue::Number(JsonNumber::PosInt(2))),
        ("B".to_string(), JsonValue::Number(JsonNumber::PosInt(3))),
        ("a".to_string(), JsonValue::Number(JsonNumber::PosInt(4))),
    ]);
    let n = normalize_uec(&raw);
    assert_eq!(keys(&n), vec!["B", "a", "app_specific_settings", "b", "extensions", "meta"]);
    assert_eq!(n.get("a").and_then(|v| v.as_i64()), Some(2));
}

#[test]
fn round_trip_restores_version_and_scene_id() {
    let card = doc(r#"{
      "schema": { "name": "UEC", "version": "1.0" },
      "kind": "character",
      "payload": { "id": "c", "name": "N",
        "scenes": [{ "id": "only", "content": "x", "selectedVariantId": "v1",
                     "variants": [{ "id": "v1", "content": "y", "createdAt": 1 }] }] },
      "meta": { "createdAt": 1, "source": "import" }
    }"#);
    let v2 = convert_uec_v1_to_v2(&card).unwrap();
    assert_eq!(v2.get("meta").and_then(|m| m.get("originalCreatedAt")).and_then(|v| v.as_i64()), Some(1));
    assert_eq!(v2.get("meta").and_then(|m| m.get("originalSource")).and_then(|v| v.as_str()), Some("import"));
    let back = downgrade_uec(&v2, "1.0", false).unwrap();
    assert_eq!(back.card.get("schema").and_then(|s| s.get("version")).and_then(|v| v.as_str()), Some("1.0"));
    let scenes = back.card.get("payload").and_then(|p| p.get("scenes")).unwrap();
    match scenes {
        JsonValue::Array(items) => {
            assert_eq!(items.len(), 1);
            assert_eq!(items[0].get("id").and_then(|v| v.as_str()), Some("only"));
            assert_eq!(items[0].get("selectedVariantId").and_then(|v| v.as_str()), Some("v1"));
        }
        _ => panic!("scenes is an array"),
    }
    assert_eq!(
        back.card.get("payload").and_then(|p| p.get("defaultSceneId")).and_then(|v| v.as_str()),
        Some("only")
    );
    assert_eq!(
        back.warnings,
        vec![
            "meta.originalCreatedAt was removed for v1 compatibility".to_string(),
            "meta.originalSource was removed for v1 compatibility".to_string(),
        ]
    );
}

#[test]
fn downgrade_drops_v2_fields_with_warnings() {
    let card = doc(r#"{
      "schema": { "name": "UEC", "version": "2.0" },
      "kind": "character",
      "payload": { "id": "c", "name": "N", "nickname": "nn", "promptTemplateId": "t9",
                   "scene": { "id": "s", "content": "x", "selectedVariant": 0 } }
    }"#);
    let back = downgrade_uec(&card, "1.0", false).unwrap();
    let payload = back.card.get("payload").unwrap();
    assert_eq!(payload.get("systemPrompt").and_then(|v| v.as_str()), Some("_ID:t9"));
    assert!(payload.get("nickname").is_none());
    assert!(payload.get("promptTemplateId").is_none());
    assert!(matches!(payload.get("rules"), Some(JsonValue::Array(items)) if items.is_empty()));
    let scene = match payload.get("scenes") {
        Some(JsonValue::Array(items)) => &items[0],
        _ => panic!("scenes is an array"),
    };
    assert!(matches!(scene.get("selectedVariantId"), Some(JsonValue::Null)));
    assert_eq!(
        back.warnings,
        vec![
            "payload.promptTemplateId was mapped to v1 systemPrompt and then removed".to_string(),
            "payload.nickname is not supported in v1 and was removed".to_string(),
        ]
    );
}

#[test]
fn downgrade_keeps_rules_only_when_asked() {
    let card = doc(r#"{
      "schema": { "name": "UEC", "version": "2.0" },
      "kind": "character",
      "payload": { "id": "c", "name": "N", "rules": ["keep"] }
    }"#);
    let kept = downgrade_uec(&card, "1.0", true).unwrap();
    assert!(matches!(kept.card.get("payload").and_then(|p| p.get("rules")), Some(JsonValue::Array(items)) if items.len() == 1));
    let reset = downgrade_uec(&card, "1.0", false).unwrap();
    assert!(matches!(reset.card.get("payload").and_then(|p| p.get("rules")), Some(JsonValue::Array(items)) if items.is_empty()));
}

#[test]
fn conversion_errors_name_their_cause() {
    assert_eq!(convert_uec_v1_to_v2(&doc("[1]")).unwrap_err(), "card must be an object");
    let invalid = doc(r#"{ "schema": { "name": "UEC", "version": "1.0" }, "kind": "persona", "payload": { "id": "p" } }"#);
    assert_eq!(
        convert_uec_v1_to_v2(&invalid).unwrap_err(),
        "card must be a valid v1 UEC: payload.title: must be a string"
    );
    let v2 = doc(r#"{ "schema": { "name": "UEC", "version": "2.0" }, "kind": "persona", "payload": { "id": "p", "title": "t" } }"#);
    assert_eq!(downgrade_uec(&v2, "3.0", false).unwrap_err(), "unsupported target version: 3.0");
    assert_eq!(downgrade_uec(&doc("{}"), "1.0", false).unwrap_err(), "card must be an object with a schema");
    let odd = doc(r#"{ "schema": { "version": "7" } }"#);
    assert_eq!(downgrade_uec(&odd, "1.0", false).unwrap_err(), "unsupported source version: 7");
    assert_eq!(upgrade_uec(&odd, "2.0").unwrap_err(), "unsupported source version: 7");
    assert_eq!(upgrade_uec(&v2, "5.0").unwrap_err(), "unsupported target version: 5.0");
    assert!(upgrade_uec(&v2, "2.0").is_ok());
}

#[test]
fn assert_uec_reports_all_errors() {
    let card = doc(r#"{ "schema": { "name": "X", "version": "1.0" }, "kind": "robot", "payload": {} }"#);
    assert_eq!(
        assert_uec(&card, false).unwrap_err(),
        "Invalid UEC: schema.name: must be \"UEC\"; kind: must be \"character\" or \"persona\""
    );
}

#[test]
fn validation_reports_paths_with_indices() {
    let mut scenes = Vec::new();
    for _ in 0..11 {
        scenes.push(r#"{ "id": "s", "content": "c" }"#.to_string());
    }
    scenes.push("7".to_string());
    let text = format!(
        r#"{{ "schema": {{ "name": "UEC", "version": "1.0" }}, "kind": "character",
             "payload": {{ "id": "c", "name": "n", "scenes": [{}] }} }}"#,
        scenes.join(",")
    );
    let result = validate_uec(&doc(&text), false);
    assert_eq!(result.errors, vec!["payload.scenes[11]: must be an object".to_string()]);
    assert_eq!(validate_uec(&doc("3"), false).errors, vec!["root: must be an object".to_string()]);
}

#[test]
fn strict_v2_rejects_rules_and_bad_locators() {
    let card = doc(r#"{
      "schema": { "name": "UEC", "version": "2.0" },
      "kind": "character",
      "payload": { "id": "c", "name": "n", "rules": [], "avatar": { "type": "remote_url" },
                   "chatBackground": { "type": "ftp" } }
    }"#);
    let strict = validate_uec(&card, true);
    assert!(strict.errors.contains(&"payload.avatar.url: is required for remote_url".to_string()));
    assert!(strict.errors.contains(&"payload.chatBackground.type: must be one of: inline_base64, remote_url, asset_ref".to_string()));
    assert!(strict.errors.contains(&"payload.rules: is not a valid field in v2; use systemPrompt or characterBook instead".to_string()));
    let loose = validate_uec(&card, false);
    assert!(!loose.errors.iter().any(|e| e.starts_with("payload.rules")));
}

#[test]
fn parse_accepts_valid_text() {
    let result = parse_uec(r#"{ "schema": { "name": "UEC", "version": "1.0" }, "kind": "persona", "payload": { "id": "p", "title": "t" } }"#, false);
    assert!(result.ok);
    assert!(result.errors.is_empty());
    assert!(result.value.is_some());
    let bad = parse_uec(r#"{ "kind": "persona" }"#, false);
    assert!(!bad.ok && bad.value.is_none());
    assert_eq!(bad.errors[0], "schema: must be an object");
}

#[test]
fn decoding_keeps_number_kinds() {
    let v = doc(r#"[5, -3, 1.5, 18446744073709551615]"#);
    match v {
        JsonValue::Array(items) => {
            assert!(matches!(items[0], JsonValue::Number(JsonNumber::PosInt(5))));
            assert!(matches!(items[1], JsonValue::Number(JsonNumber::NegInt(-3))));
            assert!(matches!(&items[2], JsonValue::Number(JsonNumber::Float(t)) if t == "1.5"));
            assert!(matches!(items[3], JsonValue::Number(JsonNumber::PosInt(u64::MAX))));
        }
        _ => panic!("an array"),
    }
    assert!(decode_json("{ nope").is_err());
}

#[test]
fn stringify_normalizes_then_encodes() {
    let v = doc(r#"{ "b": [true, null, -2, 0.25], "a": "x" }"#);
    assert_eq!(
        stringify_uec(&v, false).unwrap(),
        r#"{"a":"x","app_specific_settings":{},"b":[true,null,-2,0.25],"extensions":{},"meta":{}}"#
    );
    assert!(stringify_uec(&v, true).unwrap().contains("\n"));
}

#[test]
fn diff_of_equal_documents_is_empty() {
    let a = doc(r#"{ "x": [1, 2], "y": { "z": null } }"#);
    let b = doc(r#"{ "y": { "z": null }, "x": [1, 2] }"#);
    assert!(diff_uec(&a, &b).is_empty());
}

#[test]
fn diff_reversed_swaps_entries() {
    let a = doc(r#"{ "k": [1], "gone": 1, "v": 1 }"#);
    let b = doc(r#"{ "k": [1, 2], "new": true, "v": "one" }"#);
    let ab = diff_uec(&a, &b);
    let ba = diff_uec(&b, &a);
    let show = |d: &unified_entity_card::UecDiffEntry| (d.path.clone(), d.change_type.clone());
    assert_eq!(
        ab.iter().map(show).collect::<Vec<_>>(),
        vec![
            ("gone".to_string(), "removed".to_string()),
            ("k[1]".to_string(), "changed".to_string()),
            ("new".to_string(), "added".to_string()),
            ("v".to_string(), "changed".to_string()),
        ]
    );
    assert_eq!(
        ba.iter().map(show).collect::<Vec<_>>(),
        vec![
            ("gone".to_string(), "added".to_string()),
            ("k[1]".to_string(), "changed".to_string()),
            ("new".to_string(), "removed".to_string()),
            ("v".to_string(), "changed".to_string()),
        ]
    );
    assert!(matches!(ab[1].before, Some(JsonValue::Null)));
    assert!(matches!(ba[1].after, Some(JsonValue::Null)));
    let root = diff_uec(&doc("1"), &doc("2"));
    assert_eq!(root.len(), 1);
    assert_eq!(root[0].path, "root");
}

#[test]
fn merge_with_itself_has_no_conflicts() {
    let a = doc(r#"{ "a": [1, 2], "b": { "c": "d" }, "e": null }"#);
    for (array, conflict) in [(None, None), (Some("concat"), Some("base"))] {
        let options = MergeOptions {
            array: array.map(|s: &str| s.to_string()),
            conflict: conflict.map(|s: &str| s.to_string()),
        };
        assert!(merge_uec(&a, &a, options).conflicts.is_empty());
    }
}

#[test]
fn merge_rules_for_arrays_nulls_and_missing_keys() {
    let base = doc(r#"{ "list": [1], "keep": "k", "same": 1, "n": 5, "z": { "w": 1 } }"#);
    let incoming = doc(r#"{ "list": [2], "n": null, "same": 1, "z": 3, "extra": true }"#);
    let replaced = merge_uec(&base, &incoming, MergeOptions::default());
    assert_eq!(
        replaced.conflicts,
        vec!["extra".to_string(), "list".to_string(), "z".to_string()]
    );
    assert_eq!(replaced.value.get("keep").and_then(|v| v.as_str()), Some("k"));
    assert_eq!(replaced.value.get("n").and_then(|v| v.as_i64()), Some(5));
    assert_eq!(replaced.value.get("z").and_then(|v| v.as_i64()), Some(3));
    assert!(matches!(replaced.value.get("extra"), Some(JsonValue::Bool(true))));
    let concat = merge_uec(
        &base,
        &incoming,
        MergeOptions { array: Some("concat".to_string()), conflict: Some("base".to_string()) },
    );
    assert!(matches!(concat.value.get("list"), Some(JsonValue::Array(items)) if items.len() == 2));
    assert_eq!(concat.conflicts, vec!["extra".to_string(), "z".to_string()]);
    assert!(matches!(concat.value.get("extra"), Some(JsonValue::Null)));
    assert!(matches!(concat.value.get("z"), Some(JsonValue::Object(_))));
    let root = merge_uec(&doc("1"), &doc("2"), MergeOptions::default());
    assert!(root.conflicts.is_empty());
    assert_eq!(root.value.as_i64(), Some(2));
}

#[test]
fn rewrite_with_identity_gives_the_document_back() {
    let card = doc(r#"{
      "payload": { "avatar": "data:image/png;base64,AAAA", "list": ["http://x", 3, { "type": "asset_ref", "assetId": "a1" }],
                   "nested": { "type": "other", "u": "https://y" } }
    }"#);
    let found = extract_assets(&card);
    let paths: Vec<(String, String)> = found.iter().map(|a| (a.path.clone(), a.kind.clone())).collect();
    assert_eq!(
        paths,
        vec![
            ("payload.avatar".to_string(), "string".to_string()),
            ("payload.list[0]".to_string(), "string".to_string()),
            ("payload.list[2]".to_string(), "locator".to_string()),
            ("payload.nested.u".to_string(), "string".to_string()),
        ]
    );
    let same = rewrite_assets(&card, &|a: AssetReference| a.value);
    assert!(json_equal(&same, &card));
}

#[test]
fn create_applies_custom_schema_and_defaults() {
    let payload = JsonValue::Object(vec![
        ("id".to_string(), JsonValue::String("c".to_string())),
        ("name".to_string(), JsonValue::String("n".to_string())),
        ("systemPrompt".to_string(), JsonValue::String("t".to_string())),
    ]);
    let schema = vec![
        ("version".to_string(), JsonValue::String("2.0".to_string())),
        ("compat".to_string(), JsonValue::String("x".to_string())),
    ];
    let card = create_uec("character", payload, Some(schema), None, None, None, true);
    let sm = card.get("schema").unwrap();
    assert_eq!(sm.get("name").and_then(|v| v.as_str()), Some("UEC"));
    assert_eq!(sm.get("version").and_then(|v| v.as_str()), Some("2.0"));
    assert_eq!(sm.get("compat").and_then(|v| v.as_str()), Some("x"));
    assert_eq!(card.get("payload").and_then(|p| p.get("systemPrompt")).and_then(|v| v.as_str()), Some("t"));
    assert!(matches!(card.get("meta"), Some(JsonValue::Object(m)) if m.is_empty()));
    assert_eq!(keys(&card), vec!["schema", "kind", "payload", "app_specific_settings", "meta", "extensions"]);

    let persona = create_persona_uec_v2(
        vec![("id".to_string(), JsonValue::String("p".to_string())), ("title".to_string(), JsonValue::String("t".to_string()))],
        None,
        None,
        None,
        None,
    );
    assert_eq!(persona.get("schema").and_then(|s| s.get("version")).and_then(|v| v.as_str()), Some("2.0"));
    assert!(validate_uec(&persona, false).ok);
}

#[test]
fn system_prompt_marking() {
    let plain = doc(r#"{ "systemPrompt": "abc" }"#);
    let marked = normalize_system_prompt(&plain, true);
    assert_eq!(marked.get("systemPrompt").and_then(|v| v.as_str()), Some("_ID:abc"));
    assert!(system_prompt_is_id(&marked));
    assert!(!system_prompt_is_id(&plain));
    let again = normalize_system_prompt(&marked, true);
    assert_eq!(again.get("systemPrompt").and_then(|v| v.as_str()), Some("_ID:abc"));
    let untouched = normalize_system_prompt(&plain, false);
    assert_eq!(untouched.get("systemPrompt").and_then(|v| v.as_str()), Some("abc"));
}

#[test]
fn upgrade_converts_first_generation_documents() {
    let v1 = doc(r#"{ "schema": { "name": "UEC", "version": "1.0" }, "kind": "character",
                     "payload": { "id": "c", "name": "n", "systemPrompt": "_ID:tpl" } }"#);
    let up = upgrade_uec(&v1, "2.0").unwrap();
    assert_eq!(up.get("payload").and_then(|p| p.get("promptTemplateId")).and_then(|v| v.as_str()), Some("tpl"));
    let same = upgrade_uec(&v1, "1.0").unwrap();
    assert_eq!(keys(&same), vec!["app_specific_settings", "extensions", "kind", "meta", "payload", "schema"]);
}

#[test]
fn stringify_refuses_number_text_that_is_not_json() {
    let v = JsonValue::Array(vec![JsonValue::Number(JsonNumber::Float("1.2.3".to_string()))]);
    assert_eq!(stringify_uec(&v, false).unwrap_err(), "a number's text is not a JSON number");
    let ok = JsonValue::Array(vec![JsonValue::Number(JsonNumber::Float("1e3".to_string()))]);
    assert_eq!(stringify_uec(&ok, false).unwrap(), "[1000.0]");
}

#[test]
fn parse_reports_the_decoder_message() {
    let text = "{ \"a\": ";
    let message = decode_json(text).unwrap_err();
    assert!(!message.is_empty());
    let result = parse_uec(text, true);
    assert_eq!(result.errors, vec![format!("root: invalid JSON ({})", message)]);
}
