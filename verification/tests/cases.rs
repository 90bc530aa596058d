use whipplescript::cases::{case_pattern_matches, default_value_for_schema, CasePattern, SchemaKind};
use whipplescript::json::Json;

fn text(s: &str) -> Json {
    Json::Str(s.to_owned())
}

#[test]
fn case_patterns_match_literals_names_and_globs() {
    assert!(case_pattern_matches(&CasePattern::Wildcard, &Json::Null));
    let literal = CasePattern::Literal { value: Json::Number("3".to_owned()) };
    assert!(case_pattern_matches(&literal, &Json::Number("3".to_owned())));
    assert!(!case_pattern_matches(&literal, &text("3")));
    let name = CasePattern::Identifier { name: "approved".to_owned() };
    assert!(case_pattern_matches(&name, &text("approved")));
    assert!(!case_pattern_matches(&name, &text("rejected")));
    assert!(!case_pattern_matches(&name, &Json::Bool(true)));
    let glob = CasePattern::Matches { pattern: "worker-*".to_owned() };
    assert!(case_pattern_matches(&glob, &text("worker-7")));
    assert!(!case_pattern_matches(&glob, &text("quality-1")));
    assert!(!case_pattern_matches(&glob, &Json::Number("7".to_owned())));
}

#[test]
fn declared_fields_start_from_their_schema_default() {
    assert!(matches!(default_value_for_schema(SchemaKind::Optional), Some(Json::Null)));
    assert!(matches!(default_value_for_schema(SchemaKind::List), Some(Json::Array(items)) if items.is_empty()));
    assert!(matches!(default_value_for_schema(SchemaKind::MapOf), Some(Json::Object(members)) if members.is_empty()));
    assert!(matches!(default_value_for_schema(SchemaKind::Boolean), Some(Json::Bool(false))));
    assert!(matches!(default_value_for_schema(SchemaKind::Int), Some(Json::Number(n)) if n == "0"));
    assert!(matches!(default_value_for_schema(SchemaKind::Float), Some(Json::Number(n)) if n == "0"));
    assert!(default_value_for_schema(SchemaKind::String).is_none());
    assert!(default_value_for_schema(SchemaKind::Json).is_none());
}
