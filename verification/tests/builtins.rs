use whipplescript::builtins::{call_builtin, json_eq};
use whipplescript::engine::{json_pointer, set_json_path, summarize_status_value};
use whipplescript::errors::InterpreterError;
use whipplescript::json::Json;

fn to_json(v: &serde_json::Value) -> Json {
    match v {
        serde_json::Value::Null => Json::Null,
        serde_json::Value::Bool(b) => Json::Bool(*b),
        serde_json::Value::Number(n) => Json::Number(n.to_string()),
        serde_json::Value::String(s) => Json::Str(s.clone()),
        serde_json::Value::Array(items) => Json::Array(items.iter().map(to_json).collect()),
        serde_json::Value::Object(members) => {
            Json::Object(members.iter().map(|(k, v)| (k.clone(), to_json(v))).collect())
        }
    }
}

fn from_json(v: &Json) -> serde_json::Value {
    match v {
        Json::Null => serde_json::Value::Null,
        Json::Bool(b) => serde_json::Value::Bool(*b),
        Json::Number(n) => serde_json::from_str(n).expect("number text"),
        Json::Str(s) => serde_json::Value::String(s.clone()),
        Json::Array(items) => serde_json::Value::Array(items.iter().map(from_json).collect()),
        Json::Object(members) => {
            let mut map = serde_json::Map::new();
            for (k, v) in members {
                map.insert(k.clone(), from_json(v));
            }
            serde_json::Value::Object(map)
        }
    }
}

fn parse(text: &str) -> Json {
    to_json(&serde_json::from_str(text).expect("valid json"))
}

fn call(name: &str, args: Vec<Json>) -> Json {
    call_builtin(name, &args, 1_000).expect("a helper").expect("evaluates")
}

fn text(s: &str) -> Json {
    Json::Str(s.to_owned())
}

fn rendered(v: &Json) -> String {
    from_json(v).to_string()
}

#[test]
fn evaluates_collection_map_and_text_helpers() {
    let message = text("  ready now  ");
    let seen = call("list.append", vec![parse("[\"old\"]"), text("run-1")]);
    let seen = call("list.remove", vec![seen, text("old")]);
    let first = call("list.first", vec![seen.deep_clone()]);
    let trimmed = call("text.trim", vec![message.deep_clone()]);
    let names = call("map.set", vec![parse("{}"), text("run-1"), trimmed]);
    let found = call("map.get", vec![names.deep_clone(), text("run-1")]);
    let contains = call("list.contains", vec![seen.deep_clone(), text("run-1")]);
    let has_key = call("map.containsKey", vec![names.deep_clone(), text("run-1")]);
    let trimmed_again = call("text.trim", vec![message]);
    let ready = call("text.startsWith", vec![trimmed_again, text("ready")]);
    let count = call("list.length", vec![seen.deep_clone()]);

    assert_eq!(rendered(&seen), "[\"run-1\"]");
    assert_eq!(rendered(&first), "\"run-1\"");
    assert_eq!(rendered(&names), "{\"run-1\":\"ready now\"}");
    assert_eq!(rendered(&found), "\"ready now\"");
    assert!(matches!((contains, has_key, ready), (Json::Bool(true), Json::Bool(true), Json::Bool(true))));
    assert_eq!(rendered(&count), "1");

    assert_eq!(rendered(&summarize_status_value(&seen)), "1");
    assert_eq!(rendered(&summarize_status_value(&names)), "{\"fields\":1}");
    assert_eq!(rendered(&summarize_status_value(&first)), "\"run-1\"");
}

#[test]
fn map_set_keeps_keys_in_order_and_replaces_in_place() {
    let map = parse("{\"a\":1,\"c\":3}");
    let with_b = call("map.set", vec![map, text("b"), parse("2")]);
    assert!(matches!(&with_b, Json::Object(ms) if ms.iter().map(|m| m.0.as_str()).collect::<Vec<_>>() == ["a", "b", "c"]));
    let replaced = call("map.set", vec![with_b, text("a"), parse("9")]);
    assert_eq!(rendered(&replaced), "{\"a\":9,\"b\":2,\"c\":3}");
    let removed = call("map.remove", vec![replaced, text("b")]);
    assert_eq!(rendered(&removed), "{\"a\":9,\"c\":3}");
    assert!(matches!(call("map.get", vec![removed, text("zz")]), Json::Null));
}

#[test]
fn helpers_reject_arguments_of_the_wrong_kind() {
    for (name, args) in [
        ("list.length", vec![text("x")]),
        ("map.get", vec![parse("[]"), text("k")]),
        ("map.set", vec![parse("{}"), parse("1"), text("v")]),
        ("text.trim", vec![parse("1")]),
        ("elapsedSince", vec![text("yesterday")]),
    ] {
        assert!(matches!(call_builtin(name, &args, 0), Some(Err(InterpreterError::UnsupportedExpression))), "{name}");
    }
    assert!(call_builtin("list.length", &vec![parse("[]"), parse("[]")], 0).is_none());
    assert!(call_builtin("unknown.fn", &Vec::new(), 0).is_none());
}

#[test]
fn time_helpers_measure_from_now() {
    assert_eq!(rendered(&call("now", Vec::new())), "1000");
    assert_eq!(rendered(&call("elapsedSince", vec![parse("400")])), "600");
    assert_eq!(rendered(&call("time.elapsedSince", vec![parse("5000")])), "0");
    assert_eq!(rendered(&call("elapsedSince", vec![Json::Null])), u64::MAX.to_string());
}

#[test]
fn text_helpers_match_substrings_suffixes_and_globs() {
    assert!(matches!(call("text.contains", vec![text("ready now"), text("y n")]), Json::Bool(true)));
    assert!(matches!(call("text.contains", vec![text("ready"), text("now")]), Json::Bool(false)));
    assert!(matches!(call("text.endsWith", vec![text("worker-done"), text("-done")]), Json::Bool(true)));
    assert!(matches!(call("text.matchesGlob", vec![text("worker-1"), text("worker-*")]), Json::Bool(true)));
}

#[test]
fn json_equality_is_by_value() {
    assert!(json_eq(&parse("{\"a\":[1,{\"b\":null}]}"), &parse("{\"a\":[1,{\"b\":null}]}")));
    assert!(!json_eq(&parse("[1,2]"), &parse("[2,1]")));
    let list = parse("[{\"x\":1},{\"x\":2},{\"x\":1}]");
    let kept = call("list.remove", vec![list, parse("{\"x\":1}")]);
    assert_eq!(rendered(&kept), "[{\"x\":2}]");
}

#[test]
fn data_path_assignment_creates_nested_objects() {
    let mut root = parse("{\"count\": 1}");
    set_json_path(&mut root, "stats.runs.last", text("run-7")).expect("object path");
    assert_eq!(rendered(&root), "{\"count\":1,\"stats\":{\"runs\":{\"last\":\"run-7\"}}}");
    set_json_path(&mut root, "count", parse("2")).expect("top member");
    assert_eq!(rendered(&root), "{\"count\":2,\"stats\":{\"runs\":{\"last\":\"run-7\"}}}");
    let written = from_json(&root);
    assert_eq!(written.pointer(&json_pointer("stats.runs.last")), Some(&serde_json::Value::String("run-7".to_owned())));
}

#[test]
fn data_path_through_a_scalar_is_refused_unchanged() {
    let mut root = parse("{\"count\": 1, \"name\": \"a\"}");
    let result = set_json_path(&mut root, "count.inner", text("x"));
    assert!(matches!(result, Err(InterpreterError::UnsupportedExpression)));
    assert_eq!(rendered(&root), "{\"count\":1,\"name\":\"a\"}");
    let mut scalar = text("plain");
    assert!(set_json_path(&mut scalar, "field", text("x")).is_err());
    assert_eq!(rendered(&scalar), "\"plain\"");
}
