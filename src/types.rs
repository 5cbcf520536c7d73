//! Records that the library's operations take and return.
use vstd::prelude::*;

use crate::json::JsonValue;

verus! {

/// The schema block of a document.
#[derive(Debug)]
pub struct UecSchema {
    pub name: String,
    pub version: String,
    pub compat: Option<String>,
}

/// Which payload shape a document carries.
#[derive(Debug, Clone, Copy, PartialEq, Eq, Structural)]
pub enum UecKind {
    Character,
    Persona,
}

/// A document that passed validation, with its top-level fields in place.
#[derive(Debug)]
pub struct Uec {
    pub schema: UecSchema,
    pub kind: UecKind,
    pub payload: JsonValue,
    pub app_specific_settings: Option<JsonValue>,
    pub meta: Option<JsonValue>,
    pub extensions: Option<JsonValue>,
}

/// The outcome of validating a document.
#[derive(Debug)]
pub struct ValidationResult {
    pub ok: bool,
    pub errors: Vec<String>,
}

/// The outcome of decoding and validating a document's text.
#[derive(Debug)]
pub struct ParseValidationResult {
    pub ok: bool,
    pub value: Option<JsonValue>,
    pub errors: Vec<String>,
}

/// A first-generation document and the notices of what was dropped to make it.
#[derive(Debug)]
pub struct DowngradeResult {
    pub card: JsonValue,
    pub warnings: Vec<String>,
}

/// One difference between two documents.
#[derive(Debug)]
pub struct UecDiffEntry {
    pub path: String,
    pub change_type: String,
    pub before: Option<JsonValue>,
    pub after: Option<JsonValue>,
}

/// How `merge_uec` treats arrays (`"concat"` or replace) and conflicts
/// (`"base"` or incoming).
#[derive(Debug, Default)]
pub struct MergeOptions {
    pub array: Option<String>,
    pub conflict: Option<String>,
}

/// A merged document and the paths where the two inputs disagreed.
#[derive(Debug)]
pub struct MergeResult {
    pub value: JsonValue,
    pub conflicts: Vec<String>,
}

/// An asset found in a document: where it is, `"string"` or `"locator"`, and the value.
#[derive(Debug)]
pub struct AssetReference {
    pub path: String,
    pub kind: String,
    pub value: JsonValue,
}

/// Advisory warnings about a document.
#[derive(Debug)]
pub struct LintResult {
    pub ok: bool,
    pub warnings: Vec<String>,
}

} // verus!
