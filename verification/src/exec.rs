//! The executor sidecar's exec protocol (`whip-executor/1`): the checks one
//! exec request must pass before its sha-pinned script runs, and the
//! response built from how the run went.
use vstd::prelude::*;
use vstd::utf8::encode_utf8;
use crate::access::strings_of;
use crate::budget::{cap_stream, floor_boundary, text_of, STREAM_CAP_BYTES};
use crate::gov::{hex_of, sha256, sha256_hex};
use crate::json::{Json, JsonValue};
use crate::selection::{config_u64, config_u64_spec};
use crate::text::{chars_of, decimal, str_eq, u64_to_decimal};

verus! {

/// The protocol an exec request and its response name.
pub const EXECUTOR_PROTOCOL: &'static str = "whip-executor/1";

/// The timeout of an exec that names none, in milliseconds.
pub const DEFAULT_EXEC_TIMEOUT_MS: u64 = 30_000;

/// The longest timeout an exec may ask for, in milliseconds.
pub const MAX_EXEC_TIMEOUT_MS: u64 = 300_000;

/// The value of a base64 digit (`A`-`Z`, `a`-`z`, `0`-`9`, `+`, `/`), or -1
/// for any other character.
pub open spec fn sextet(c: char) -> int {
    let v = c as int;
    if 65 <= v <= 90 {
        v - 65
    } else if 97 <= v <= 122 {
        v - 71
    } else if 48 <= v <= 57 {
        v + 4
    } else if v == 43 {
        62
    } else if v == 47 {
        63
    } else {
        -1
    }
}

/// The bytes one group of four characters stands for: three, or where the
/// group ends the text, one before `==` or two before `=`.
pub open spec fn quad_bytes(q: Seq<char>, last: bool) -> Option<Seq<u8>> {
    let a = sextet(q[0]);
    let b = sextet(q[1]);
    let c = sextet(q[2]);
    let d = sextet(q[3]);
    let b1 = (a * 4 + b / 16) as u8;
    let b2 = ((b % 16) * 16 + c / 4) as u8;
    let b3 = ((c % 4) * 64 + d) as u8;
    if a < 0 || b < 0 {
        None
    } else if q[2] == '=' {
        if last && q[3] == '=' {
            Some(seq![b1])
        } else {
            None
        }
    } else if c < 0 {
        None
    } else if q[3] == '=' {
        if last {
            Some(seq![b1, b2])
        } else {
            None
        }
    } else if d < 0 {
        None
    } else {
        Some(seq![b1, b2, b3])
    }
}

/// The bytes a padded base64 text decodes to: groups of four characters,
/// padding only at the end; `None` for anything else.
pub open spec fn base64_decoded(s: Seq<char>) -> Option<Seq<u8>>
    decreases s.len(),
{
    if s.len() == 0 {
        Some(Seq::empty())
    } else if s.len() < 4 {
        None
    } else {
        match quad_bytes(s.subrange(0, 4), s.len() == 4) {
            None => None,
            Some(bs) => match base64_decoded(s.subrange(4, s.len() as int)) {
                None => None,
                Some(rest) => Some(bs + rest),
            },
        }
    }
}

/// `p` before the bytes of `r`, if any.
pub open spec fn prefixed(p: Seq<u8>, r: Option<Seq<u8>>) -> Option<Seq<u8>> {
    match r {
        Some(x) => Some(p + x),
        None => None,
    }
}

/// The value of a base64 digit, or -1.
fn sextet_of(c: char) -> (r: i32)
    ensures
        r == sextet(c),
        -1 <= r < 64,
{
    let v = c as u32;
    if 65 <= v && v <= 90 {
        (v - 65) as i32
    } else if 97 <= v && v <= 122 {
        (v - 71) as i32
    } else if 48 <= v && v <= 57 {
        (v + 4) as i32
    } else if v == 43 {
        62
    } else if v == 47 {
        63
    } else {
        -1
    }
}

/// Decodes a padded base64 text.
pub fn base64_decode(text: &str) -> (r: Option<Vec<u8>>)
    ensures
        match r {
            Some(v) => base64_decoded(text@) == Some(v@),
            None => base64_decoded(text@) is None,
        },
{
    let cs = chars_of(text);
    let n = cs.len();
    let mut out: Vec<u8> = Vec::new();
    let mut i: usize = 0;
    assert(cs@.subrange(0, n as int) =~= cs@);
    while i < n
        invariant
            i <= n,
            n == cs@.len(),
            cs@ == text@,
            base64_decoded(cs@) == prefixed(out@, base64_decoded(cs@.subrange(i as int, n as int))),
        decreases n - i,
    {
        let ghost rest = cs@.subrange(i as int, n as int);
        if n - i < 4 {
            return None;
        }
        proof {
            assert(rest.subrange(0, 4) =~= cs@.subrange(i as int, i + 4));
            assert(rest.subrange(4, rest.len() as int) =~= cs@.subrange(i + 4, n as int));
        }
        let ghost q = cs@.subrange(i as int, i + 4);
        assert(q[0] == cs@[i as int] && q[1] == cs@[i + 1] && q[2] == cs@[i + 2] && q[3] == cs@[i + 3]);
        let last = n - i == 4;
        let a = sextet_of(cs[i]);
        let b = sextet_of(cs[i + 1]);
        if a < 0 || b < 0 {
            return None;
        }
        let b1 = (a * 4 + b / 16) as u8;
        if cs[i + 2] == '=' {
            if last && cs[i + 3] == '=' {
                let ghost before = out@;
                out.push(b1);
                proof {
                    assert(quad_bytes(q, last) == Some(seq![b1]));
                    assert(rest.subrange(4, rest.len() as int).len() == 0);
                    assert(base64_decoded(cs@.subrange(i + 4, n as int)) == Some(Seq::<u8>::empty()));
                    assert(out@ =~= before + seq![b1] + Seq::<u8>::empty());
                    assert(before + (seq![b1] + Seq::<u8>::empty()) =~= out@);
                }
                i += 4;
                continue;
            }
            return None;
        }
        let c = sextet_of(cs[i + 2]);
        if c < 0 {
            return None;
        }
        let b2 = ((b % 16) * 16 + c / 4) as u8;
        if cs[i + 3] == '=' {
            if last {
                let ghost before = out@;
                out.push(b1);
                out.push(b2);
                proof {
                    assert(quad_bytes(q, last) == Some(seq![b1, b2]));
                    assert(base64_decoded(cs@.subrange(i + 4, n as int)) == Some(Seq::<u8>::empty()));
                    assert(before + (seq![b1, b2] + Seq::<u8>::empty()) =~= out@);
                }
                i += 4;
                continue;
            }
            return None;
        }
        let d = sextet_of(cs[i + 3]);
        if d < 0 {
            return None;
        }
        let b3 = ((c % 4) * 64 + d) as u8;
        let ghost before = out@;
        out.push(b1);
        out.push(b2);
        out.push(b3);
        proof {
            assert(quad_bytes(q, last) == Some(seq![b1, b2, b3]));
            let tail = base64_decoded(cs@.subrange(i + 4, n as int));
            match tail {
                Some(t) => {
                    assert(before + (seq![b1, b2, b3] + t) =~= out@ + t);
                },
                None => {},
            }
        }
        i += 4;
    }
    proof {
        assert(cs@.subrange(n as int, n as int) =~= Seq::<char>::empty());
        assert(out@ + Seq::<u8>::empty() =~= out@);
    }
    Some(out)
}

/// A character in lower case where it is an ASCII capital.
pub open spec fn lower_char(c: char) -> char {
    if 65 <= c as int <= 90 {
        (c as int + 32) as char
    } else {
        c
    }
}

/// The text with its ASCII capitals in lower case.
pub open spec fn ascii_lower(s: Seq<char>) -> Seq<char> {
    s.map_values(|c: char| lower_char(c))
}

/// The text with its ASCII capitals in lower case.
pub fn to_ascii_lower(s: &str) -> (r: String)
    ensures
        r@ == ascii_lower(s@),
{
    let cs = chars_of(s);
    let mut r = String::new();
    proof {
        reveal_strlit("");
    }
    let mut i: usize = 0;
    while i < cs.len()
        invariant
            i <= cs.len(),
            cs@ == s@,
            r@ == ascii_lower(cs@.subrange(0, i as int)),
        decreases cs.len() - i,
    {
        let c = cs[i];
        let v = c as u32;
        let l = if 65 <= v && v <= 90 {
            ((v + 32) as u8) as char
        } else {
            c
        };
        assert(l == lower_char(c));
        let ghost before = r@;
        crate::text::push_char(&mut r, l);
        assert(ascii_lower(cs@.subrange(0, i + 1)) =~= ascii_lower(cs@.subrange(0, i as int)).push(lower_char(c)));
        i += 1;
    }
    assert(cs@.subrange(0, cs.len() as int) =~= cs@);
    r
}

/// The text of the string member `key`.
pub open spec fn str_member(v: Json, key: Seq<char>) -> Option<Seq<char>> {
    match v.get_spec(key) {
        Some(m) => m.str_spec(),
        None => None,
    }
}

/// The text of the string member `key`.
fn str_member_of<'a>(v: &'a Json, key: &str) -> (r: Option<&'a str>)
    ensures
        match r {
            Some(s) => str_member(*v, key@) == Some(s@),
            None => str_member(*v, key@) is None,
        },
{
    match v.get(key) {
        Some(m) => m.as_str(),
        None => None,
    }
}

/// The script a request carries, checked: the protocol must be
/// `whip-executor/1`; the pinned hash and the base64 script are required,
/// the script must decode, and its SHA-256 must be the pinned hash (in any
/// case). The script's hash and bytes.
pub open spec fn script_check(request: Json) -> Result<(Seq<char>, Seq<u8>), (u16, Seq<char>)> {
    let protocol = match str_member(request, "protocol"@) {
        Some(p) => p,
        None => Seq::empty(),
    };
    if protocol != EXECUTOR_PROTOCOL@ {
        Err((400u16, "unsupported protocol `"@ + protocol + "`; expected `"@ + EXECUTOR_PROTOCOL@ + "`"@))
    } else {
        match str_member(request, "script_sha256"@) {
            None => Err((400u16, "script_sha256 is required"@)),
            Some(sha) => match str_member(request, "script_b64"@) {
                None => Err((400u16, "script_b64 is required"@)),
                Some(b64) => match base64_decoded(b64) {
                    None => Err((400u16, "script_b64 is not valid base64"@)),
                    Some(script) => {
                        let actual = hex_of(sha256(script));
                        let expected = ascii_lower(sha);
                        if actual != expected {
                            Err((400u16, "script hash mismatch: expected "@ + expected + ", got "@ + actual))
                        } else {
                            Ok((actual, script))
                        }
                    },
                },
            },
        }
    }
}

/// The view of an error.
pub open spec fn error_view(e: (u16, String)) -> (u16, Seq<char>) {
    (e.0, e.1@)
}

/// Checks the script a request carries.
fn check_script(request: &Json) -> (r: Result<(String, Vec<u8>), (u16, String)>)
    ensures
        match script_check(*request) {
            Ok((sha, script)) => r matches Ok(x) && x.0@ == sha && x.1@ == script,
            Err(e) => r matches Err(x) && error_view(x) == e,
        },
{
    proof {
        reveal_strlit("");
    }
    let protocol = match str_member_of(request, "protocol") {
        Some(p) => p,
        None => "",
    };
    let ghost pspec = match str_member(*request, "protocol"@) {
        Some(p) => p,
        None => Seq::<char>::empty(),
    };
    assert(protocol@ == pspec);
    if !str_eq(protocol, EXECUTOR_PROTOCOL) {
        let mut m = "unsupported protocol `".to_owned();
        m.append(protocol);
        m.append("`; expected `");
        m.append(EXECUTOR_PROTOCOL);
        m.append("`");
        return Err((400, m));
    }
    assert(pspec == EXECUTOR_PROTOCOL@);
    let sha = match str_member_of(request, "script_sha256") {
        Some(s) => s,
        None => {
            return Err((400, "script_sha256 is required".to_owned()));
        },
    };
    let expected = to_ascii_lower(sha);
    let b64 = match str_member_of(request, "script_b64") {
        Some(s) => s,
        None => {
            return Err((400, "script_b64 is required".to_owned()));
        },
    };
    let script = match base64_decode(b64) {
        Some(bytes) => bytes,
        None => {
            return Err((400, "script_b64 is not valid base64".to_owned()));
        },
    };
    let actual = sha256_hex(script.as_slice());
    if !str_eq(actual.as_str(), expected.as_str()) {
        let mut m = "script hash mismatch: expected ".to_owned();
        m.append(expected.as_str());
        m.append(", got ");
        m.append(actual.as_str());
        return Err((400, m));
    }
    Ok((actual, script))
}

/// Every item is a string.
pub open spec fn all_strings(items: Seq<Json>) -> bool {
    forall|i: int| 0 <= i < items.len() ==> (#[trigger] items[i]).str_spec() is Some
}

/// The argument vector a request carries and the index of its script slot:
/// an array of strings, not empty, with the slot inside it.
pub open spec fn argv_check(request: Json) -> Result<(Seq<Seq<char>>, u64), (u16, Seq<char>)> {
    match request.get_spec("argv"@) {
        Some(Json::Array(items)) => if !all_strings(items@) {
            Err((400u16, "argv values must be strings"@))
        } else if items@.len() == 0 {
            Err((400u16, "argv must not be empty"@))
        } else {
            match config_u64_spec(request, "script_index"@) {
                None => Err((400u16, "script_index is required"@)),
                Some(k) => if k >= items@.len() {
                    Err((400u16, "script_index is out of range"@))
                } else {
                    Ok((strings_of(items@), k))
                },
            }
        },
        _ => Err((400u16, "argv array is required"@)),
    }
}

/// Checks the argument vector of a request.
fn check_argv(request: &Json) -> (r: Result<(Vec<String>, usize), (u16, String)>)
    ensures
        match argv_check(*request) {
            Ok((argv, k)) => r matches Ok(x) && crate::order::views(x.0@) == argv && x.1 == k,
            Err(e) => r matches Err(x) && error_view(x) == e,
        },
{
    let items = match request.get("argv") {
        Some(Json::Array(items)) => items,
        _ => {
            return Err((400, "argv array is required".to_owned()));
        },
    };
    let mut argv: Vec<String> = Vec::new();
    let mut i: usize = 0;
    while i < items.len()
        invariant
            i <= items.len(),
            request.get_spec("argv"@) == Some(Json::Array(*items)),
            all_strings(items@.subrange(0, i as int)),
            crate::order::views(argv@) == strings_of(items@.subrange(0, i as int)),
            argv@.len() == i,
        decreases items.len() - i,
    {
        proof {
            assert(items@.subrange(0, i + 1).drop_last() =~= items@.subrange(0, i as int));
            assert(items@.subrange(0, i + 1).last() == items@[i as int]);
        }
        match items[i].as_str() {
            Some(s) => {
                let ghost before = argv@;
                argv.push(s.to_owned());
                assert(crate::order::views(argv@) =~= crate::order::views(before).push(s@));
                assert forall|j: int| 0 <= j < i + 1 implies (#[trigger] items@.subrange(0, i + 1)[j]).str_spec() is Some by {
                    if j < i {
                        assert(items@.subrange(0, i + 1)[j] == items@.subrange(0, i as int)[j]);
                    }
                }
            },
            None => {
                assert(items@[i as int].str_spec() is None);
                return Err((400, "argv values must be strings".to_owned()));
            },
        }
        i += 1;
    }
    assert(items@.subrange(0, items.len() as int) =~= items@);
    if argv.len() == 0 {
        return Err((400, "argv must not be empty".to_owned()));
    }
    let k = match config_u64(request, "script_index") {
        Some(k) => k,
        None => {
            return Err((400, "script_index is required".to_owned()));
        },
    };
    if k >= argv.len() as u64 {
        return Err((400, "script_index is out of range".to_owned()));
    }
    Ok((argv, k as usize))
}

/// The environment a request declares: none where it is missing or null;
/// an object's members, each value a string; otherwise an error.
pub open spec fn env_check(env: Option<Json>) -> Result<Seq<(Seq<char>, Seq<char>)>, Seq<char>> {
    match env {
        None => Ok(Seq::empty()),
        Some(Json::Null) => Ok(Seq::empty()),
        Some(Json::Object(members)) => if forall|i: int|
            0 <= i < members@.len() ==> (#[trigger] members@[i]).1.str_spec() is Some {
            Ok(members@.map_values(|m: (String, Json)| (m.0@, m.1.str_spec()->Some_0)))
        } else {
            Err("env values must be strings"@)
        },
        Some(_) => Err("env must be an object"@),
    }
}

/// The view of an environment.
pub open spec fn env_view(env: Seq<(String, String)>) -> Seq<(Seq<char>, Seq<char>)> {
    env.map_values(|e: (String, String)| (e.0@, e.1@))
}

/// Checks the environment of a request.
fn check_env(request: &Json) -> (r: Result<Vec<(String, String)>, (u16, String)>)
    ensures
        match env_check(request.get_spec("env"@)) {
            Ok(env) => r matches Ok(x) && env_view(x@) == env,
            Err(e) => r matches Err(x) && x.0 == 400 && x.1@ == e,
        },
{
    let members = match request.get("env") {
        None => {
            return Ok(Vec::new());
        },
        Some(Json::Null) => {
            return Ok(Vec::new());
        },
        Some(Json::Object(members)) => members,
        Some(_) => {
            return Err((400, "env must be an object".to_owned()));
        },
    };
    let mut env: Vec<(String, String)> = Vec::new();
    let mut i: usize = 0;
    while i < members.len()
        invariant
            i <= members.len(),
            request.get_spec("env"@) == Some(Json::Object(*members)),
            env@.len() == i,
            forall|j: int| 0 <= j < i ==> (#[trigger] members@[j]).1.str_spec() is Some,
            env_view(env@) =~= members@.subrange(0, i as int).map_values(
                |m: (String, Json)| (m.0@, m.1.str_spec()->Some_0),
            ),
        decreases members.len() - i,
    {
        match members[i].1.as_str() {
            Some(v) => {
                let ghost before = env@;
                env.push((members[i].0.clone(), v.to_owned()));
                assert(env_view(env@) =~= env_view(before).push((members@[i as int].0@, v@)));
                assert(members@.subrange(0, i + 1).map_values(|m: (String, Json)| (m.0@, m.1.str_spec()->Some_0))
                    =~= members@.subrange(0, i as int).map_values(
                    |m: (String, Json)| (m.0@, m.1.str_spec()->Some_0),
                ).push((members@[i as int].0@, v@)));
            },
            None => {
                return Err((400, "env values must be strings".to_owned()));
            },
        }
        i += 1;
    }
    assert(members@.subrange(0, members.len() as int) =~= members@);
    Ok(env)
}

/// What an accepted exec request asks to run.
#[derive(Debug)]
pub struct ExecPlan {
    pub effect_id: String,
    /// The script's SHA-256, which names its staged copy.
    pub script_sha256: String,
    pub script: Vec<u8>,
    pub argv: Vec<String>,
    /// The argument that is replaced by the staged script's path.
    pub script_index: usize,
    pub env: Vec<(String, String)>,
    /// The value handed to the script as JSON on its standard input.
    pub stdin: Json,
    pub script_ext: String,
    pub timeout_ms: u64,
}

/// An exec plan as the contracts read it.
pub struct PlanView {
    pub effect_id: Seq<char>,
    pub script_sha256: Seq<char>,
    pub script: Seq<u8>,
    pub argv: Seq<Seq<char>>,
    pub script_index: int,
    pub env: Seq<(Seq<char>, Seq<char>)>,
    pub stdin: JsonValue,
    pub script_ext: Seq<char>,
    pub timeout_ms: u64,
}

/// The view of an exec plan.
pub open spec fn plan_view(p: ExecPlan) -> PlanView {
    PlanView {
        effect_id: p.effect_id@,
        script_sha256: p.script_sha256@,
        script: p.script@,
        argv: crate::order::views(p.argv@),
        script_index: p.script_index as int,
        env: env_view(p.env@),
        stdin: p.stdin.value(),
        script_ext: p.script_ext@,
        timeout_ms: p.timeout_ms,
    }
}

/// The plan of an exec request, or the status and message it is refused
/// with, checked in order: the script, the argument vector, the
/// environment. The effect id and script extension default to empty, the
/// standard input to null, the timeout to thirty seconds, and a timeout is
/// never above five minutes.
pub open spec fn exec_plan_spec(request: Json) -> Result<PlanView, (u16, Seq<char>)> {
    match script_check(request) {
        Err(e) => Err(e),
        Ok((sha, script)) => match argv_check(request) {
            Err(e) => Err(e),
            Ok((argv, k)) => match env_check(request.get_spec("env"@)) {
                Err(e) => Err((400u16, e)),
                Ok(env) => Ok(
                    PlanView {
                        effect_id: match str_member(request, "effect_id"@) {
                            Some(s) => s,
                            None => Seq::empty(),
                        },
                        script_sha256: sha,
                        script,
                        argv,
                        script_index: k as int,
                        env,
                        stdin: match request.get_spec("stdin"@) {
                            Some(v) => v.value(),
                            None => JsonValue::Null,
                        },
                        script_ext: match str_member(request, "script_ext"@) {
                            Some(s) => s,
                            None => Seq::empty(),
                        },
                        timeout_ms: match config_u64_spec(request, "timeout_ms"@) {
                            Some(t) => if t <= MAX_EXEC_TIMEOUT_MS {
                                t
                            } else {
                                MAX_EXEC_TIMEOUT_MS
                            },
                            None => DEFAULT_EXEC_TIMEOUT_MS,
                        },
                    },
                ),
            },
        },
    }
}

/// Checks an exec request and plans its run.
pub fn plan_exec_request(request: &Json) -> (r: Result<ExecPlan, (u16, String)>)
    ensures
        match exec_plan_spec(*request) {
            Ok(p) => r matches Ok(x) && plan_view(x) == p,
            Err(e) => r matches Err(x) && error_view(x) == e,
        },
{
    proof {
        reveal_strlit("");
    }
    let effect_id = match str_member_of(request, "effect_id") {
        Some(s) => s.to_owned(),
        None => String::new(),
    };
    let (script_sha256, script) = match check_script(request) {
        Ok(x) => x,
        Err(e) => {
            return Err(e);
        },
    };
    let (argv, script_index) = match check_argv(request) {
        Ok(x) => x,
        Err(e) => {
            return Err(e);
        },
    };
    let env = match check_env(request) {
        Ok(x) => x,
        Err(e) => {
            return Err(e);
        },
    };
    let stdin = match request.get("stdin") {
        Some(v) => v.deep_clone(),
        None => Json::Null,
    };
    let script_ext = match str_member_of(request, "script_ext") {
        Some(s) => s.to_owned(),
        None => String::new(),
    };
    let timeout_ms = match config_u64(request, "timeout_ms") {
        Some(t) => if t <= MAX_EXEC_TIMEOUT_MS {
            t
        } else {
            MAX_EXEC_TIMEOUT_MS
        },
        None => DEFAULT_EXEC_TIMEOUT_MS,
    };
    Ok(ExecPlan { effect_id, script_sha256, script, argv, script_index, env, stdin, script_ext, timeout_ms })
}

/// The decimal text of a signed number.
pub open spec fn signed_decimal(n: i64) -> Seq<char> {
    if n < 0 {
        seq!['-'] + decimal((-n) as nat)
    } else {
        decimal(n as nat)
    }
}

/// The decimal text of a signed number.
pub fn i64_to_decimal(n: i64) -> (r: String)
    ensures
        r@ == signed_decimal(n),
{
    if n < 0 {
        let magnitude: u64 = if n == i64::MIN {
            9_223_372_036_854_775_808u64
        } else {
            (-n) as u64
        };
        let digits = u64_to_decimal(magnitude);
        let mut r = "-".to_owned();
        r.append(digits.as_str());
        proof {
            reveal_strlit("-");
        }
        r
    } else {
        u64_to_decimal(n as u64)
    }
}

/// A captured stream as the response carries it: whole within the cap,
/// otherwise cut at the last character boundary within it, and whether it
/// was cut.
pub open spec fn capped(s: Seq<char>) -> (Seq<char>, bool) {
    let b = encode_utf8(s);
    if b.len() <= STREAM_CAP_BYTES {
        (s, false)
    } else {
        (text_of(b, 0, floor_boundary(b, STREAM_CAP_BYTES as int)), true)
    }
}

/// The response to an exec that ran: the protocol, the effect id, the exit
/// code (-1 when killed), whether it timed out, and both captured streams,
/// capped, each with whether it was cut.
pub open spec fn exec_response_spec(effect_id: Seq<char>, exit_code: i64, timed_out: bool, stdout: Seq<char>, stderr: Seq<char>) -> JsonValue {
    JsonValue::Object(
        seq![
            ("protocol"@, JsonValue::Str(EXECUTOR_PROTOCOL@)),
            ("effect_id"@, JsonValue::Str(effect_id)),
            ("exit_code"@, JsonValue::Number(signed_decimal(exit_code))),
            ("timed_out"@, JsonValue::Bool(timed_out)),
            ("stdout"@, JsonValue::Str(capped(stdout).0)),
            ("stdout_truncated"@, JsonValue::Bool(capped(stdout).1)),
            ("stderr"@, JsonValue::Str(capped(stderr).0)),
            ("stderr_truncated"@, JsonValue::Bool(capped(stderr).1)),
        ],
    )
}

/// The response to an exec that ran.
pub fn exec_response(effect_id: &str, exit_code: i64, timed_out: bool, stdout: String, stderr: String) -> (r: Json)
    ensures
        r.value() == exec_response_spec(effect_id@, exit_code, timed_out, stdout@, stderr@),
{
    let ghost out_view = stdout@;
    let ghost err_view = stderr@;
    let (out, out_cut) = cap_stream(stdout);
    let (err, err_cut) = cap_stream(stderr);
    assert((out@, out_cut) == capped(out_view));
    assert((err@, err_cut) == capped(err_view));
    let mut ms: Vec<(String, Json)> = Vec::new();
    ms.push(("protocol".to_owned(), Json::Str(EXECUTOR_PROTOCOL.to_owned())));
    ms.push(("effect_id".to_owned(), Json::Str(effect_id.to_owned())));
    ms.push(("exit_code".to_owned(), Json::Number(i64_to_decimal(exit_code))));
    ms.push(("timed_out".to_owned(), Json::Bool(timed_out)));
    ms.push(("stdout".to_owned(), Json::Str(out)));
    ms.push(("stdout_truncated".to_owned(), Json::Bool(out_cut)));
    ms.push(("stderr".to_owned(), Json::Str(err)));
    ms.push(("stderr_truncated".to_owned(), Json::Bool(err_cut)));
    proof {
        crate::sse::lemma_object_value(ms);
    }
    let r = Json::Object(ms);
    assert(r.value()->Object_0 =~= exec_response_spec(effect_id@, exit_code, timed_out, out_view, err_view)->Object_0);
    r
}

} // verus!
