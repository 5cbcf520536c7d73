//! Validation, conversion, diff/merge and asset handling for versioned
//! entity-card documents.

pub mod assets;
pub mod codec;
pub mod convert;
pub mod create;
pub mod diff;
pub mod json;
pub mod laws;
pub mod lint;
pub mod normalize;
pub mod text;
pub mod types;
pub mod validate;
pub mod value;

pub use assets::{extract_assets, rewrite_assets};
pub use codec::{decode_json, parse_decoded, parse_uec, stringify_uec};
pub use convert::{convert_uec_v1_to_v2, downgrade_uec, upgrade_uec};
pub use create::{
    create_character_uec, create_character_uec_v2, create_persona_uec, create_persona_uec_v2,
    create_uec, normalize_system_prompt, system_prompt_is_id,
};
pub use diff::{diff_uec, merge_uec};
pub use json::{Json, JsonNumber, JsonValue, Num};
pub use lint::lint_uec;
pub use normalize::normalize_uec;
pub use text::{SCHEMA_NAME, SCHEMA_VERSION, SCHEMA_VERSION_V2};
pub use types::{
    AssetReference, DowngradeResult, LintResult, MergeOptions, MergeResult,
    ParseValidationResult, Uec, UecDiffEntry, UecKind, UecSchema, ValidationResult,
};
pub use validate::{
    assert_uec, is_character_uec, is_persona_uec, is_uec, validate_uec, validate_uec_at_version,
    validate_uec_strict,
};
pub use value::{json_equal, remove_member, set_member};
