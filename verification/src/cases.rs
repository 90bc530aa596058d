//! What a workflow `case` step matches on, and the value a declared data
//! field starts from when nothing has been assigned to it.
use vstd::prelude::*;
use crate::builtins::json_eq;
use crate::glob::{glob_matches, simple_glob_matches};
use crate::json::{Json, JsonValue};

verus! {

/// The pattern of one `case` arm.
pub enum CasePattern {
    /// `_`: matches anything.
    Wildcard,
    /// A literal value: matches an equal value.
    Literal { value: Json },
    /// A bare name: matches the string with that text.
    Identifier { name: String },
    /// `matches "glob"`: matches a string the `*` glob matches.
    Matches { pattern: String },
}

/// Whether a `case` arm's pattern matches the value.
pub open spec fn case_matches(pattern: CasePattern, value: JsonValue) -> bool {
    match pattern {
        CasePattern::Wildcard => true,
        CasePattern::Literal { value: expected } => expected.value() == value,
        CasePattern::Identifier { name } => value == JsonValue::Str(name@),
        CasePattern::Matches { pattern } => value matches JsonValue::Str(s) && glob_matches(pattern@, s),
    }
}

/// Whether a `case` arm's pattern matches the value.
pub fn case_pattern_matches(pattern: &CasePattern, value: &Json) -> (r: bool)
    ensures
        r == case_matches(*pattern, value.value()),
{
    match pattern {
        CasePattern::Wildcard => true,
        CasePattern::Literal { value: expected } => json_eq(expected, value),
        CasePattern::Identifier { name } => match value.as_str() {
            Some(actual) => crate::text::str_eq(actual, name.as_str()),
            None => false,
        },
        CasePattern::Matches { pattern } => match value.as_str() {
            Some(actual) => simple_glob_matches(pattern.as_str(), actual),
            None => false,
        },
    }
}

/// The kind of a declared data field's schema (`SetOf` and `MapOf` are the
/// set and map schemas).
#[derive(Clone, Copy, Debug, PartialEq, Eq, Structural)]
pub enum SchemaKind {
    Optional,
    Null,
    List,
    SetOf,
    MapOf,
    Record,
    Boolean,
    Int,
    Float,
    String,
    Time,
    Duration,
    Agent,
    Enum,
    Ref,
    Union,
    Literal,
    Json,
}

/// The value a data field of this schema starts from: null for an optional
/// or null field, an empty list or object for a collection, `false`, `0`;
/// none for the others.
pub open spec fn default_for(kind: SchemaKind) -> Option<JsonValue> {
    match kind {
        SchemaKind::Optional | SchemaKind::Null => Some(JsonValue::Null),
        SchemaKind::List | SchemaKind::SetOf => Some(JsonValue::Array(Seq::empty())),
        SchemaKind::MapOf | SchemaKind::Record => Some(JsonValue::Object(Seq::empty())),
        SchemaKind::Boolean => Some(JsonValue::Bool(false)),
        SchemaKind::Int | SchemaKind::Float => Some(JsonValue::Number(seq!['0'])),
        _ => None,
    }
}

/// The value a data field of this schema starts from, if it has one.
pub fn default_value_for_schema(kind: SchemaKind) -> (r: Option<Json>)
    ensures
        match r {
            Some(j) => default_for(kind) == Some(j.value()),
            None => default_for(kind) is None,
        },
{
    match kind {
        SchemaKind::Optional | SchemaKind::Null => Some(Json::Null),
        SchemaKind::List | SchemaKind::SetOf => {
            let r = Json::Array(Vec::new());
            assert(r.value()->Array_0 =~= Seq::<JsonValue>::empty());
            Some(r)
        },
        SchemaKind::MapOf | SchemaKind::Record => {
            let r = Json::Object(Vec::new());
            assert(r.value()->Object_0 =~= Seq::<(Seq<char>, JsonValue)>::empty());
            Some(r)
        },
        SchemaKind::Boolean => Some(Json::Bool(false)),
        SchemaKind::Int | SchemaKind::Float => {
            let mut zero = String::new();
            crate::text::push_char(&mut zero, '0');
            proof {
                reveal_strlit("");
                assert(zero@ =~= seq!['0']);
            }
            Some(Json::Number(zero))
        },
        _ => None,
    }
}

} // verus!
