use unified_entity_card::{
    assert_uec, convert_uec_v1_to_v2, create_character_uec, create_character_uec_v2,
    create_persona_uec, decode_json, diff_uec, downgrade_uec, extract_assets, is_character_uec,
    is_persona_uec, lint_uec, merge_uec, normalize_uec, parse_uec, rewrite_assets, set_member,
    upgrade_uec, validate_uec, validate_uec_at_version, validate_uec_strict, AssetReference,
    JsonValue, MergeOptions, UecKind, SCHEMA_VERSION, SCHEMA_VERSION_V2,
};

fn doc(text: &str) -> JsonValue {
    decode_json(text).expect("test input is valid JSON")
}

fn text(s: &str) -> JsonValue {
    JsonValue::String(s.to_string())
}

fn schema_version(v: &JsonValue) -> Option<&str> {
    v.get("schema").and_then(|s| s.get("version")).and_then(|s| s.as_str())
}

#[test]
fn validates_minimal_character_non_strict() {
    let card = doc(r#"{
      "schema": { "name": "UEC", "version": "1.0" },
      "kind": "character",
      "payload": { "id": "char-1", "name": "Aster Vale" }
    }"#);

    let result = validate_uec(&card, false);
    assert!(result.ok);
    assert!(result.errors.is_empty());
}

#[test]
fn strict_requires_fields() {
    let card = doc(r#"{
      "schema": { "name": "UEC", "version": "1.0" },
      "kind": "character",
      "payload": { "id": "char-2", "name": "Aster Vale" }
    }"#);

    let result = validate_uec(&card, true);
    assert!(!result.ok);
    assert!(!result.errors.is_empty());
}

#[test]
fn app_specific_settings_must_be_object() {
    let card = doc(r#"{
      "schema": { "name": "UEC", "version": "1.0" },
      "kind": "persona",
      "payload": { "id": "per-1", "title": "Pragmatic Analyst" },
      "app_specific_settings": "nope"
    }"#);

    let result = validate_uec(&card, false);
    assert!(!result.ok);
    assert!(result.errors.iter().any(|err| err.contains("app_specific_settings")));
}

#[test]
fn assert_uec_returns_error() {
    let card = doc(r#"{
      "schema": { "name": "UEC", "version": "1.0" },
      "kind": "persona",
      "payload": { "id": "per-2" }
    }"#);

    assert!(assert_uec(&card, false).is_err());
}

#[test]
fn assert_uec_returns_typed_object() {
    let card = doc(r#"{
      "schema": { "name": "UEC", "version": "1.0" },
      "kind": "persona",
      "payload": { "id": "per-3", "title": "Pragmatic Analyst" }
    }"#);

    let uec = assert_uec(&card, false).expect("expected a valid UEC");
    assert_eq!(uec.kind, UecKind::Persona);
}

#[test]
fn create_character_uec_prefixes_system_prompt() {
    let payload = vec![
        ("id".to_string(), text("char-4")),
        ("name".to_string(), text("Aster Vale")),
        ("systemPrompt".to_string(), text("template-1")),
    ];

    let card = create_character_uec(payload, true, None, None, None, None);
    let system_prompt = card
        .get("payload")
        .and_then(|value| value.get("systemPrompt"))
        .and_then(|value| value.as_str());

    assert_eq!(system_prompt, Some("_ID:template-1"));
}

#[test]
fn validates_scene_variants() {
    let card = doc(r#"{
      "schema": { "name": "UEC", "version": "1.0" },
      "kind": "character",
      "payload": {
        "id": "char-5",
        "name": "Aster Vale",
        "scenes": [
          {
            "id": "scene-1",
            "content": "You step into the Archive of Echoes.",
            "variants": [
              {
                "id": "variant-1",
                "content": "You step into the Archive, where every echo is logged.",
                "createdAt": 1715100001
              }
            ]
          }
        ]
      }
    }"#);

    let result = validate_uec(&card, false);
    assert!(result.ok);

    let invalid = doc(r#"{
      "schema": { "name": "UEC", "version": "1.0" },
      "kind": "character",
      "payload": {
        "id": "char-6",
        "name": "Aster Vale",
        "scenes": [
          {
            "id": "scene-2",
            "content": "You step into the Archive of Echoes.",
            "variants": [
              { "content": "Missing id and createdAt" }
            ]
          }
        ]
      }
    }"#);

    let invalid_result = validate_uec(&invalid, false);
    assert!(!invalid_result.ok);
    assert!(invalid_result.errors.iter().any(|err| err.contains("variants[0].id")));
}

#[test]
fn v2_strict_requires_meta_when_missing() {
    let card = doc(r#"{
      "schema": { "name": "UEC", "version": "2.0" },
      "kind": "character",
      "payload": {
        "id": "strict-missing-meta",
        "name": "Strict",
        "description": "desc",
        "scene": { "id": "s1", "content": "hello" },
        "createdAt": 1,
        "updatedAt": 2
      }
    }"#);

    let result = validate_uec_strict(&card);
    assert!(!result.ok);
    assert!(result.errors.iter().any(|e| e.contains("meta.originalCreatedAt")));
    assert!(result.errors.iter().any(|e| e.contains("meta.originalUpdatedAt")));
}

#[test]
fn unknown_schema_version_does_not_emit_payload_version_specific_errors() {
    let card = doc(r#"{
      "schema": { "name": "UEC", "version": "9.9" },
      "kind": "character",
      "payload": { "id": "x" },
      "app_specific_settings": {},
      "meta": {},
      "extensions": {}
    }"#);

    let result = validate_uec(&card, false);
    assert!(!result.ok);
    assert!(result.errors.iter().any(|e| e.contains("unknown version")));
    assert!(!result.errors.iter().any(|e| e.contains("payload.name")));
}

#[test]
fn convert_rejects_non_v1_cards() {
    let v2 = doc(r#"{
      "schema": { "name": "UEC", "version": "2.0" },
      "kind": "character",
      "payload": { "id": "v2", "name": "Already V2" }
    }"#);

    let err = convert_uec_v1_to_v2(&v2).expect_err("must reject v2 input");
    assert!(err.contains("schema version \"1.0\""));
}

#[test]
fn convert_removes_empty_scenes_array() {
    let payload = vec![
        ("id".to_string(), text("cv-empty")),
        ("name".to_string(), text("Test")),
        ("scenes".to_string(), JsonValue::Array(vec![])),
    ];

    let v1 = create_character_uec(payload, false, None, None, None, None);
    let v2 = convert_uec_v1_to_v2(&v1).expect("conversion should succeed");

    let payload = v2.get("payload").and_then(|p| p.as_object()).expect("payload object");
    assert!(!payload.iter().any(|(k, _)| k == "scenes"));
    assert!(!payload.iter().any(|(k, _)| k == "scene"));
}

#[test]
fn parse_uec_rejects_invalid_json() {
    let result = parse_uec("{ not-valid-json", false);
    assert!(!result.ok);
    assert!(result.errors.first().is_some_and(|msg| msg.contains("invalid JSON")));
}

#[test]
fn normalize_ensures_top_level_optional_objects() {
    let raw = doc(r#"{
      "schema": { "name": "UEC", "version": "1.0" },
      "kind": "persona",
      "payload": { "id": "p1", "title": "Persona" }
    }"#);

    let normalized = normalize_uec(&raw);
    assert!(normalized.get("app_specific_settings").is_some());
    assert!(normalized.get("meta").is_some());
    assert!(normalized.get("extensions").is_some());
}

#[test]
fn validate_at_version_reports_mismatch() {
    let card = doc(r#"{
      "schema": { "name": "UEC", "version": "2.0" },
      "kind": "persona",
      "payload": { "id": "p2", "title": "Persona V2" }
    }"#);

    let result = validate_uec_at_version(&card, "1.0", false);
    assert!(!result.ok);
    assert!(result.errors.iter().any(|e| e.contains("expected \"1.0\" but received \"2.0\"")));
}

#[test]
fn merge_supports_base_conflict_strategy() {
    let base = doc(r#"{ "a": 1, "nested": { "x": "base" } }"#);
    let incoming = doc(r#"{ "a": 2, "nested": { "x": "incoming" } }"#);

    let options = MergeOptions { array: None, conflict: Some("base".to_string()) };
    let merged = merge_uec(&base, &incoming, options);

    assert_eq!(merged.value.get("a").and_then(|v| v.as_i64()), Some(1));
    assert_eq!(
        merged.value.get("nested").and_then(|n| n.get("x")).and_then(|v| v.as_str()),
        Some("base")
    );
    assert!(merged.conflicts.iter().any(|c| c == "a"));
}

#[test]
fn diff_reports_added_removed_and_changed_paths() {
    let left = doc(r#"{ "a": 1, "nested": { "x": 1 }, "gone": true }"#);
    let right = doc(r#"{ "a": 2, "nested": { "x": 1 }, "added": "yes" }"#);

    let diff = diff_uec(&left, &right);

    assert!(diff.iter().any(|d| d.path == "a" && d.change_type == "changed"));
    assert!(diff.iter().any(|d| d.path == "added" && d.change_type == "added"));
    assert!(diff.iter().any(|d| d.path == "gone" && d.change_type == "removed"));
}

#[test]
fn asset_helpers_extract_and_rewrite_both_string_and_locator_assets() {
    let card = doc(r#"{
      "schema": { "name": "UEC", "version": "2.0" },
      "kind": "character",
      "payload": {
        "id": "asset-helpers",
        "name": "Assets",
        "avatar": "https://example.com/a.png",
        "chatBackground": {
          "type": "remote_url",
          "url": "https://example.com/bg.png"
        }
      }
    }"#);

    let assets = extract_assets(&card);
    assert!(assets.iter().any(|a| a.path.ends_with("payload.avatar")));
    assert!(assets
        .iter()
        .any(|a| a.path.ends_with("payload.chatBackground") && a.kind == "locator"));

    let mut mapper = |asset: AssetReference| {
        if asset.kind == "string" {
            text(&asset.value.as_str().unwrap_or_default().replace("example.com", "cdn.example.com"))
        } else if asset.kind == "locator" {
            let out = asset.value;
            let url = out.get("url").and_then(|u| u.as_str()).map(ToOwned::to_owned);
            match (out, url) {
                (JsonValue::Object(mut members), Some(url)) => {
                    set_member(&mut members, "url", text(&url.replace("example.com", "cdn.example.com")));
                    JsonValue::Object(members)
                }
                (other, _) => other,
            }
        } else {
            asset.value
        }
    };

    let rewritten = rewrite_assets(&card, &mut mapper);
    assert!(rewritten
        .get("payload")
        .and_then(|p| p.get("avatar"))
        .and_then(|v| v.as_str())
        .is_some_and(|v| v.contains("cdn.example.com")));
    assert!(rewritten
        .get("payload")
        .and_then(|p| p.get("chatBackground"))
        .and_then(|bg| bg.get("url"))
        .and_then(|v| v.as_str())
        .is_some_and(|v| v.contains("cdn.example.com")));
}

#[test]
fn lint_reports_common_quality_warnings() {
    let card = doc(r#"{
      "schema": { "name": "UEC", "version": "2.0" },
      "kind": "character",
      "payload": {
        "id": "lint-case",
        "name": "Lint",
        "description": " ",
        "createdAt": 10,
        "updatedAt": 1,
        "scene": {
          "id": "s1",
          "content": "c",
          "selectedVariant": "missing",
          "variants": [{ "id": "v1", "content": "alt", "createdAt": 1 }]
        }
      }
    }"#);

    let lint = lint_uec(&card);
    assert!(!lint.ok);
    assert!(lint.warnings.iter().any(|w| w.contains("empty string")));
    assert!(lint.warnings.iter().any(|w| w.contains("createdAt")));
    assert!(lint.warnings.iter().any(|w| w.contains("selectedVariant does not match")));
}

#[test]
fn versioned_create_and_upgrade_downgrade_roundtrip() {
    let payload = vec![
        ("id".to_string(), text("roundtrip")),
        ("name".to_string(), text("Roundtrip")),
    ];

    let v2 = create_character_uec_v2(payload, None, None, None, None);
    assert_eq!(schema_version(&v2), Some(SCHEMA_VERSION_V2));

    let downgraded = downgrade_uec(&v2, SCHEMA_VERSION, false).expect("downgrade");
    assert_eq!(schema_version(&downgraded.card), Some(SCHEMA_VERSION));

    let upgraded = upgrade_uec(&downgraded.card, SCHEMA_VERSION_V2).expect("upgrade");
    assert_eq!(schema_version(&upgraded), Some(SCHEMA_VERSION_V2));
}

#[test]
fn kind_type_predicates_are_correct() {
    let character = doc(r#"{
      "schema": { "name": "UEC", "version": "1.0" },
      "kind": "character",
      "payload": { "id": "c1", "name": "C" }
    }"#);

    let persona = create_persona_uec(
        vec![("id".to_string(), text("p1")), ("title".to_string(), text("P"))],
        None,
        None,
        None,
        None,
    );

    assert!(is_character_uec(&character, false));
    assert!(!is_persona_uec(&character, false));
    assert!(!is_character_uec(&persona, false));
    assert!(is_persona_uec(&persona, false));
}
