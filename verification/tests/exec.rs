use whipplescript::budget::STREAM_CAP_BYTES;
use whipplescript::exec::{base64_decode, exec_response, i64_to_decimal, plan_exec_request, to_ascii_lower, EXECUTOR_PROTOCOL};
use whipplescript::gov::sha256_hex;
use whipplescript::json::Json;

fn to_json(v: &serde_json::Value) -> Json {
    match v {
        serde_json::Value::Null => Json::Null,
        serde_json::Value::Bool(b) => Json::Bool(*b),
        serde_json::Value::Number(n) => Json::Number(n.to_string()),
        serde_json::Value::String(s) => Json::Str(s.clone()),
        serde_json::Value::Array(items) => Json::Array(items.iter().map(to_json).collect()),
        serde_json::Value::Object(members) => {
            Json::Object(members.iter().map(|(k, v)| (k.clone(), to_json(v))).collect())
        }
    }
}

fn from_json(v: &Json) -> serde_json::Value {
    match v {
        Json::Null => serde_json::Value::Null,
        Json::Bool(b) => serde_json::Value::Bool(*b),
        Json::Number(n) => serde_json::from_str(n).expect("number text"),
        Json::Str(s) => serde_json::Value::String(s.clone()),
        Json::Array(items) => serde_json::Value::Array(items.iter().map(from_json).collect()),
        Json::Object(members) => {
            let mut map = serde_json::Map::new();
            for (k, v) in members {
                map.insert(k.clone(), from_json(v));
            }
            serde_json::Value::Object(map)
        }
    }
}

/// Standard padded base64, for building requests.
fn base64_encode(bytes: &[u8]) -> String {
    const ALPHABET: &[u8] = b"ABCDEFGHIJKLMNOPQRSTUVWXYZabcdefghijklmnopqrstuvwxyz0123456789+/";
    let mut out = String::new();
    for chunk in bytes.chunks(3) {
        let b = [chunk[0], *chunk.get(1).unwrap_or(&0), *chunk.get(2).unwrap_or(&0)];
        let n = ((b[0] as u32) << 16) | ((b[1] as u32) << 8) | b[2] as u32;
        out.push(ALPHABET[(n >> 18) as usize & 63] as char);
        out.push(ALPHABET[(n >> 12) as usize & 63] as char);
        out.push(if chunk.len() > 1 { ALPHABET[(n >> 6) as usize & 63] as char } else { '=' });
        out.push(if chunk.len() > 2 { ALPHABET[n as usize & 63] as char } else { '=' });
    }
    out
}

fn exec_request(script: &str) -> serde_json::Value {
    let mut request = serde_json::Map::new();
    request.insert("protocol".to_owned(), EXECUTOR_PROTOCOL.into());
    request.insert("effect_id".to_owned(), "effect-1".into());
    request.insert("script_sha256".to_owned(), sha256_hex(script.as_bytes()).into());
    request.insert("script_b64".to_owned(), base64_encode(script.as_bytes()).into());
    request.insert("script_ext".to_owned(), "sh".into());
    request.insert(
        "argv".to_owned(),
        serde_json::Value::Array(vec!["sh".into(), "{script}".into()]),
    );
    request.insert("script_index".to_owned(), 1.into());
    request.insert("stdin".to_owned(), serde_json::Value::Null);
    serde_json::Value::Object(request)
}

#[test]
fn base64_roundtrip() {
    for sample in [&b""[..], &b"a"[..], &b"ab"[..], &b"abc"[..], &b"echo hello # \xff\x00 binary"[..]] {
        let encoded = base64_encode(sample);
        assert_eq!(base64_decode(&encoded).expect("decodes"), sample);
    }
    assert!(base64_decode("not!!base64").is_none());
}

#[test]
fn base64_rejects_misplaced_padding_and_partial_groups() {
    assert!(base64_decode("QQ==QUJD").is_none());
    assert!(base64_decode("QUJ").is_none());
    assert!(base64_decode("Q===").is_none());
    assert_eq!(base64_decode("QUI=").expect("two bytes"), b"AB");
}

#[test]
fn exec_request_plans_script_argv_env_and_stdin() {
    let script = "read line\necho \"got:$line:$JUDGE_MODE\"\n";
    let mut request = exec_request(script);
    let mut env = serde_json::Map::new();
    env.insert("JUDGE_MODE".to_owned(), "strict".into());
    request["env"] = serde_json::Value::Object(env);
    let mut stdin = serde_json::Map::new();
    stdin.insert("n".to_owned(), 1.into());
    request["stdin"] = serde_json::Value::Object(stdin);
    let plan = plan_exec_request(&to_json(&request)).expect("plans");
    assert_eq!(plan.effect_id, "effect-1");
    assert_eq!(plan.script, script.as_bytes());
    assert_eq!(plan.script_sha256, sha256_hex(script.as_bytes()));
    assert_eq!(plan.argv, vec!["sh".to_owned(), "{script}".to_owned()]);
    assert_eq!(plan.script_index, 1);
    assert_eq!(plan.env, vec![("JUDGE_MODE".to_owned(), "strict".to_owned())]);
    assert_eq!(from_json(&plan.stdin).to_string(), "{\"n\":1}");
    assert_eq!(plan.script_ext, "sh");
    assert_eq!(plan.timeout_ms, 30_000);
}

#[test]
fn exec_request_rejects_hash_mismatch_and_bad_shapes() {
    let mut tampered = exec_request("echo hi\n");
    tampered["script_b64"] = base64_encode(b"echo tampered\n").into();
    let (status, message) = plan_exec_request(&to_json(&tampered)).expect_err("hash mismatch");
    assert_eq!(status, 400);
    assert!(message.contains("hash mismatch"), "{message}");

    let mut wrong_protocol = exec_request("echo hi\n");
    wrong_protocol["protocol"] = "bogus/9".into();
    let (status, message) = plan_exec_request(&to_json(&wrong_protocol)).expect_err("protocol rejected");
    assert_eq!(status, 400);
    assert!(message.contains("unsupported protocol"), "{message}");

    let mut bad_index = exec_request("echo hi\n");
    bad_index["script_index"] = 9.into();
    let (status, message) = plan_exec_request(&to_json(&bad_index)).expect_err("index rejected");
    assert_eq!(status, 400);
    assert!(message.contains("out of range"), "{message}");
}

#[test]
fn exec_request_field_errors_are_named() {
    let mut no_argv = exec_request("echo hi\n");
    no_argv["argv"] = serde_json::Value::Null;
    assert_eq!(plan_exec_request(&to_json(&no_argv)).err(), Some((400, "argv array is required".to_owned())));
    let mut empty_argv = exec_request("echo hi\n");
    empty_argv["argv"] = serde_json::Value::Array(Vec::new());
    assert_eq!(plan_exec_request(&to_json(&empty_argv)).err(), Some((400, "argv must not be empty".to_owned())));
    let mut bad_env = exec_request("echo hi\n");
    bad_env["env"] = serde_json::Value::Array(Vec::new());
    assert_eq!(plan_exec_request(&to_json(&bad_env)).err(), Some((400, "env must be an object".to_owned())));
    let mut upper = exec_request("echo hi\n");
    upper["script_sha256"] = sha256_hex(b"echo hi\n").to_uppercase().into();
    assert!(plan_exec_request(&to_json(&upper)).is_ok());
    let mut long = exec_request("echo hi\n");
    long["timeout_ms"] = 9_999_999.into();
    assert_eq!(plan_exec_request(&to_json(&long)).expect("plans").timeout_ms, 300_000);
}

#[test]
fn exec_response_reports_the_run_and_caps_streams() {
    let response = from_json(&exec_response("effect-1", 3, false, "got\n".to_owned(), "oops\n".to_owned()));
    assert_eq!(response["protocol"], EXECUTOR_PROTOCOL);
    assert_eq!(response["effect_id"], "effect-1");
    assert_eq!(response["exit_code"], 3);
    assert_eq!(response["timed_out"], false);
    assert_eq!(response["stdout"], "got\n");
    assert_eq!(response["stderr"], "oops\n");
    assert_eq!(response["stdout_truncated"], false);
    let big = exec_response("e", -1, true, "x".repeat(STREAM_CAP_BYTES + 1), String::new());
    let big = from_json(&big);
    assert_eq!(big["exit_code"], -1);
    assert_eq!(big["stdout_truncated"], true);
    assert_eq!(big["stdout"].as_str().map(str::len), Some(STREAM_CAP_BYTES));
}

#[test]
fn signed_numbers_and_lower_case() {
    assert_eq!(i64_to_decimal(-1), "-1");
    assert_eq!(i64_to_decimal(0), "0");
    assert_eq!(i64_to_decimal(i64::MIN), "-9223372036854775808");
    assert_eq!(to_ascii_lower("ABcD-9"), "abcd-9");
}
