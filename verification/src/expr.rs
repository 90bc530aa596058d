//! Workflow expressions and their evaluation against the values in scope:
//! step locals, the event's payload under its binding, and workflow data.
use vstd::prelude::*;
use crate::builtins::{
    builtin_spec, call_builtin, json_eq, list_append, list_contains, map_has, map_has_json, map_insert, map_insert_json,
    members_of, remove_all, remove_all_json, values_of,
};
use crate::engine::{duration_millis, lemma_object_members, parse_duration_millis, set_json_path, set_path};
use crate::errors::InterpreterError;
use crate::json::{Json, JsonValue};
use crate::order::{lex_lt, str_lt};
use crate::selection::{all_digits, digits_value, number_u64, parse_u64_text};
use crate::text::{chars_of, chars_slice, has_prefix, split_chars, split_on, str_eq, string_from_chars};

verus! {

/// A workflow expression.
pub enum Expr {
    /// A literal value.
    Literal(Json),
    /// A dotted path to a value in scope.
    Path(String),
    /// An object of named expressions.
    Object(Vec<(String, Expr)>),
    /// A list of expressions.
    List(Vec<Expr>),
    /// A call of a built-in helper, or of `append`/`remove` on a list path.
    Call { name: String, args: Vec<Expr> },
    Eq(Box<Expr>, Box<Expr>),
    Neq(Box<Expr>, Box<Expr>),
    Lt(Box<Expr>, Box<Expr>),
    Lte(Box<Expr>, Box<Expr>),
    Gt(Box<Expr>, Box<Expr>),
    Gte(Box<Expr>, Box<Expr>),
    /// Membership of the left value in a list, or of a key in an object.
    In(Box<Expr>, Box<Expr>),
    And(Vec<Expr>),
    Or(Vec<Expr>),
    Not(Box<Expr>),
}

/// The values an expression is evaluated against: the step's locals, the
/// name the triggering event is bound to and its payload, the workflow's
/// data (with each declared field that holds nothing at its schema default),
/// and the current time in milliseconds.
pub struct EvalEnv {
    pub locals: Vec<(String, Json)>,
    pub event_binding: Option<String>,
    pub payload: Json,
    pub data: Vec<(String, Json)>,
    pub now: u64,
}

/// What an [`EvalEnv`] holds, as the contracts read it.
pub struct EnvView {
    pub locals: Seq<(Seq<char>, JsonValue)>,
    pub binding: Option<Seq<char>>,
    pub payload: JsonValue,
    pub data: Seq<(Seq<char>, JsonValue)>,
    pub now: u64,
}

pub open spec fn env_view(env: EvalEnv) -> EnvView {
    EnvView {
        locals: members_of(env.locals@),
        binding: match env.event_binding {
            Some(b) => Some(b@),
            None => None,
        },
        payload: env.payload.value(),
        data: members_of(env.data@),
        now: env.now,
    }
}

/// The errors evaluation gives, as the contracts read them.
pub enum EvalError {
    Unsupported,
    GuardNotBoolean,
    MissingEventPath(Seq<char>),
    MissingDataPath(Seq<char>),
    InvalidAssignTarget(Seq<char>),
    UndeclaredDataField(Seq<char>),
    InvariantNotBoolean(Seq<char>),
    InvariantViolated(Seq<char>),
    UnknownCurrentState(Seq<char>),
    InvalidEventPayload(Seq<char>, Seq<char>),
    EntryTransitionLimitExceeded,
    AlwaysTransitionLimitExceeded,
    Other,
}

pub open spec fn error_view(e: InterpreterError) -> EvalError {
    match e {
        InterpreterError::UnsupportedExpression => EvalError::Unsupported,
        InterpreterError::GuardNotBoolean => EvalError::GuardNotBoolean,
        InterpreterError::MissingEventPath(p) => EvalError::MissingEventPath(p@),
        InterpreterError::MissingDataPath(p) => EvalError::MissingDataPath(p@),
        InterpreterError::InvalidAssignTarget(t) => EvalError::InvalidAssignTarget(t@),
        InterpreterError::UndeclaredDataField(f) => EvalError::UndeclaredDataField(f@),
        InterpreterError::InvariantNotBoolean { name } => EvalError::InvariantNotBoolean(name@),
        InterpreterError::InvariantViolated { name } => EvalError::InvariantViolated(name@),
        InterpreterError::UnknownCurrentState(st) => EvalError::UnknownCurrentState(st@),
        InterpreterError::InvalidEventPayload { event_type, reason } => EvalError::InvalidEventPayload(event_type@, reason@),
        InterpreterError::EntryTransitionLimitExceeded => EvalError::EntryTransitionLimitExceeded,
        InterpreterError::AlwaysTransitionLimitExceeded => EvalError::AlwaysTransitionLimitExceeded,
        _ => EvalError::Other,
    }
}

pub open spec fn result_view(r: Result<Json, InterpreterError>) -> Result<JsonValue, EvalError> {
    match r {
        Ok(j) => Ok(j.value()),
        Err(e) => Err(error_view(e)),
    }
}

/// The value of the first member named `key`.
pub open spec fn member(ms: Seq<(Seq<char>, JsonValue)>, key: Seq<char>) -> Option<JsonValue>
    decreases ms.len(),
{
    if ms.len() == 0 {
        None
    } else if ms[0].0 == key {
        Some(ms[0].1)
    } else {
        member(ms.drop_first(), key)
    }
}

/// The array index a pointer token names: decimal digits without a leading
/// zero (`0` itself is one).
pub open spec fn index_token(t: Seq<char>) -> Option<nat> {
    if t.len() > 0 && all_digits(t) && (t[0] != '0' || t.len() == 1) {
        Some(digits_value(t))
    } else {
        None
    }
}

/// The value a JSON pointer's tokens reach (`Value::pointer`): each token
/// names an object member or, in an array, an index.
pub open spec fn pointer_get(v: JsonValue, toks: Seq<Seq<char>>) -> Option<JsonValue>
    decreases toks.len(),
{
    if toks.len() == 0 {
        Some(v)
    } else {
        match v {
            JsonValue::Object(ms) => match member(ms, toks[0]) {
                Some(c) => pointer_get(c, toks.drop_first()),
                None => None,
            },
            JsonValue::Array(items) => match index_token(toks[0]) {
                Some(i) => if i < items.len() {
                    pointer_get(items[i as int], toks.drop_first())
                } else {
                    None
                },
                None => None,
            },
            _ => None,
        }
    }
}

/// The pointer tokens of a dotted path.
pub open spec fn dotted(p: Seq<char>) -> Seq<Seq<char>> {
    split_on(p, seq!['.'])
}

/// The index of the first `.` in `p`.
pub open spec fn first_dot(p: Seq<char>) -> Option<int>
    decreases p.len(),
{
    if p.len() == 0 {
        None
    } else {
        match first_dot(p.drop_last()) {
            Some(k) => Some(k),
            None => if p.last() == '.' {
                Some(p.len() - 1)
            } else {
                None
            },
        }
    }
}

/// What a dotted path names: a local (and a pointer below it), else the
/// event payload below the event's binding, else workflow data below
/// `data.`; a path none of them names is unsupported.
pub open spec fn path_spec(path: Seq<char>, env: EnvView) -> Result<JsonValue, EvalError> {
    let local: Option<Result<JsonValue, EvalError>> = match first_dot(path) {
        Some(k) => match member(env.locals, path.subrange(0, k)) {
            Some(v) => Some(
                match pointer_get(v, dotted(path.subrange(k + 1, path.len() as int))) {
                    Some(x) => Ok(x),
                    None => Err(EvalError::Unsupported),
                },
            ),
            None => None,
        },
        None => match member(env.locals, path) {
            Some(v) => Some(Ok(v)),
            None => None,
        },
    };
    match local {
        Some(r) => r,
        None => {
            let event: Option<Result<JsonValue, EvalError>> = match env.binding {
                Some(b) => if has_prefix(path, b.push('.')) {
                    Some(
                        match pointer_get(env.payload, dotted(path.subrange(b.len() as int + 1, path.len() as int))) {
                            Some(x) => Ok(x),
                            None => Err(EvalError::MissingEventPath(path)),
                        },
                    )
                } else {
                    None
                },
                None => None,
            };
            match event {
                Some(r) => r,
                None => if has_prefix(path, "data."@) {
                    let rest = path.subrange(5, path.len() as int);
                    match first_dot(rest) {
                        None => match member(env.data, rest) {
                            Some(v) => Ok(v),
                            None => Err(EvalError::MissingDataPath(path)),
                        },
                        Some(k) => match member(env.data, rest.subrange(0, k)) {
                            Some(v) => match pointer_get(v, dotted(rest.subrange(k + 1, rest.len() as int))) {
                                Some(x) => Ok(x),
                                None => Err(EvalError::MissingDataPath(path)),
                            },
                            None => Err(EvalError::MissingDataPath(path)),
                        },
                    }
                } else {
                    Err(EvalError::Unsupported)
                },
            }
        },
    }
}

pub(crate) proof fn lemma_array_items(items: Vec<Json>)
    ensures
        Json::Array(items).value() == JsonValue::Array(values_of(items@)),
{
    let j = Json::Array(items);
    assert(j.value()->Array_0 =~= values_of(items@));
}

/// The first member named `key`.
pub(crate) fn member_json<'a>(ms: &'a Vec<(String, Json)>, key: &str) -> (r: Option<&'a Json>)
    ensures
        match r {
            Some(j) => member(members_of(ms@), key@) == Some(j.value()),
            None => member(members_of(ms@), key@) is None,
        },
{
    let ghost mv = members_of(ms@);
    let mut i: usize = 0;
    assert(mv.subrange(0, mv.len() as int) =~= mv);
    while i < ms.len()
        invariant
            i <= ms.len(),
            mv == members_of(ms@),
            member(mv, key@) == member(mv.subrange(i as int, mv.len() as int), key@),
        decreases ms.len() - i,
    {
        let ghost rest = mv.subrange(i as int, mv.len() as int);
        assert(rest.drop_first() =~= mv.subrange(i + 1, mv.len() as int));
        assert(rest[0] == (ms@[i as int].0@, ms@[i as int].1.value()));
        if str_eq(ms[i].0.as_str(), key) {
            return Some(&ms[i].1);
        }
        i += 1;
    }
    None
}

/// The array index a pointer token names.
fn index_of_token(t: &Vec<char>) -> (r: Option<u64>)
    ensures
        match r {
            Some(i) => index_token(t@) == Some(i as nat),
            None => index_token(t@) is None || index_token(t@)->Some_0 > u64::MAX,
        },
{
    if t.len() == 0 || (t[0] == '0' && t.len() != 1) {
        return None;
    }
    let text = string_from_chars(t);
    let r = parse_u64_text(text.as_str());
    proof {
        if !all_digits(t@) {
            assert(number_u64(t@) is None);
        }
    }
    r
}

/// The value the pointer tokens `toks[at..]` reach below `v`.
fn pointer_get_exec<'a>(v: &'a Json, toks: &Vec<Vec<char>>, at: usize) -> (r: Option<&'a Json>)
    requires
        at <= toks.len(),
    ensures
        match r {
            Some(j) => pointer_get(v.value(), toks@.map_values(|t: Vec<char>| t@).skip(at as int)) == Some(j.value()),
            None => pointer_get(v.value(), toks@.map_values(|t: Vec<char>| t@).skip(at as int)) is None,
        },
    decreases toks.len() - at,
{
    let ghost tv = toks@.map_values(|t: Vec<char>| t@);
    if at == toks.len() {
        assert(tv.skip(at as int).len() == 0);
        return Some(v);
    }
    assert(tv.skip(at as int)[0] == toks@[at as int]@);
    assert(tv.skip(at as int).drop_first() =~= tv.skip(at + 1));
    match v {
        Json::Object(ms) => {
            proof {
                lemma_object_members(*ms);
            }
            let key = string_from_chars(&toks[at]);
            assert(key@ == tv.skip(at as int)[0]);
            match member_json(ms, key.as_str()) {
                Some(c) => pointer_get_exec(c, toks, at + 1),
                None => {
                    assert(member(members_of(ms@), key@) is None);
                    None
                },
            }
        },
        Json::Array(items) => {
            proof {
                lemma_array_items(*items);
            }
            let n: usize = items.len();
            assert(usize::MAX <= u64::MAX);
            assert(items@.len() <= u64::MAX);
            match index_of_token(&toks[at]) {
                Some(i) => if i < items.len() as u64 {
                    assert(values_of(items@)[i as int] == items@[i as int].value());
                    pointer_get_exec(&items[i as usize], toks, at + 1)
                } else {
                    None
                },
                None => None,
            }
        },
        _ => None,
    }
}

/// The value the dotted pointer `p` reaches below `v`.
fn dotted_get<'a>(v: &'a Json, p: &Vec<char>) -> (r: Option<&'a Json>)
    ensures
        match r {
            Some(j) => pointer_get(v.value(), dotted(p@)) == Some(j.value()),
            None => pointer_get(v.value(), dotted(p@)) is None,
        },
{
    let mut dots: Vec<char> = Vec::new();
    dots.push('.');
    assert(dots@ =~= seq!['.']);
    let toks = split_chars(p, &dots);
    assert(toks@.map_values(|t: Vec<char>| t@).skip(0) =~= toks@.map_values(|t: Vec<char>| t@));
    pointer_get_exec(v, &toks, 0)
}

/// The index of the first `.`.
fn first_dot_exec(p: &Vec<char>) -> (r: Option<usize>)
    ensures
        match r {
            Some(k) => first_dot(p@) == Some(k as int) && k < p@.len(),
            None => first_dot(p@) is None,
        },
{
    let mut i: usize = 0;
    while i < p.len()
        invariant
            i <= p.len(),
            first_dot(p@.subrange(0, i as int)) is None,
        decreases p.len() - i,
    {
        assert(p@.subrange(0, i + 1).drop_last() =~= p@.subrange(0, i as int));
        if p[i] == '.' {
            proof {
                assert(first_dot(p@.subrange(0, i + 1)) == Some(i as int));
                lemma_first_dot_prefix(p@, i as int);
            }
            return Some(i);
        }
        i += 1;
    }
    assert(p@.subrange(0, p.len() as int) =~= p@);
    None
}

proof fn lemma_first_dot_prefix(p: Seq<char>, i: int)
    requires
        0 <= i < p.len(),
        first_dot(p.subrange(0, i + 1)) == Some(i),
    ensures
        first_dot(p) == Some(i),
    decreases p.len(),
{
    if p.len() > i + 1 {
        assert(p.drop_last().subrange(0, i + 1) =~= p.subrange(0, i + 1));
        lemma_first_dot_prefix(p.drop_last(), i);
    } else {
        assert(p.subrange(0, i + 1) =~= p);
    }
}

/// The value a dotted path names.
pub fn eval_path(path: &str, env: &EvalEnv) -> (r: Result<Json, InterpreterError>)
    ensures
        result_view(r) == path_spec(path@, env_view(*env)),
{
    proof {
        reveal_strlit("data.");
    }
    let cs = chars_of(path);
    match first_dot_exec(&cs) {
        Some(k) => {
            let name = string_from_chars(&chars_slice(&cs, 0, k));
            match member_json(&env.locals, name.as_str()) {
                Some(v) => {
                    let rest = chars_slice(&cs, k + 1, cs.len());
                    return match dotted_get(v, &rest) {
                        Some(x) => Ok(x.deep_clone()),
                        None => Err(InterpreterError::UnsupportedExpression),
                    };
                },
                None => {},
            }
        },
        None => match member_json(&env.locals, path) {
            Some(v) => {
                return Ok(v.deep_clone());
            },
            None => {},
        },
    }
    match &env.event_binding {
        Some(b) => {
            let mut prefix = chars_of(b.as_str());
            prefix.push('.');
            assert(prefix@ =~= b@.push('.'));
            if crate::text::chars_starts_with(&cs, &prefix) {
                let rest = chars_slice(&cs, prefix.len(), cs.len());
                return match dotted_get(&env.payload, &rest) {
                    Some(x) => Ok(x.deep_clone()),
                    None => Err(InterpreterError::MissingEventPath(path.to_owned())),
                };
            }
        },
        None => {},
    }
    let data_prefix = chars_of("data.");
    if crate::text::chars_starts_with(&cs, &data_prefix) {
        let rest = chars_slice(&cs, 5, cs.len());
        match first_dot_exec(&rest) {
            None => match member_json(&env.data, string_from_chars(&rest).as_str()) {
                Some(v) => Ok(v.deep_clone()),
                None => Err(InterpreterError::MissingDataPath(path.to_owned())),
            },
            Some(k) => {
                let field = string_from_chars(&chars_slice(&rest, 0, k));
                match member_json(&env.data, field.as_str()) {
                    Some(v) => {
                        let nested = chars_slice(&rest, k + 1, rest.len());
                        match dotted_get(v, &nested) {
                            Some(x) => Ok(x.deep_clone()),
                            None => Err(InterpreterError::MissingDataPath(path.to_owned())),
                        }
                    },
                    None => Err(InterpreterError::MissingDataPath(path.to_owned())),
                }
            },
        }
    } else {
        Err(InterpreterError::UnsupportedExpression)
    }
}

/// Where a value stands among ordered values.
#[derive(Clone, Copy, Debug, PartialEq, Eq, Structural)]
pub enum Rank {
    Below,
    Same,
    Above,
}

/// The largest integer every `f64` holds exactly.
pub open spec fn exact_limit() -> int {
    9007199254740992
}

/// How a value takes part in an ordered comparison as a number: `Some(Some(n))`
/// for an integer (or a duration text, in milliseconds) within the exact
/// limit, `Some(None)` for any other number, `None` for a value that is not
/// one.
pub open spec fn numeric_rank(v: JsonValue) -> Option<Option<int>> {
    match v {
        JsonValue::Number(n) => if n.len() > 0 && n[0] == '-' {
            match number_u64(n.drop_first()) {
                Some(x) => if x <= exact_limit() { Some(Some(-(x as int))) } else { Some(None) },
                None => Some(None),
            }
        } else {
            match number_u64(n) {
                Some(x) => if x <= exact_limit() { Some(Some(x as int)) } else { Some(None) },
                None => Some(None),
            }
        },
        JsonValue::Str(s) => match duration_millis(s) {
            Some(m) => if m <= exact_limit() { Some(Some(m as int)) } else { Some(None) },
            None => None,
        },
        _ => None,
    }
}

/// How `l` ranks against `r`: as numbers (numbers and duration texts) where
/// both are, else as strings by code points; other pairs, and numbers this
/// library cannot order exactly, are unsupported.
pub open spec fn rank_spec(l: JsonValue, r: JsonValue) -> Result<Rank, EvalError> {
    match (numeric_rank(l), numeric_rank(r)) {
        (Some(a), Some(b)) => match (a, b) {
            (Some(x), Some(y)) => Ok(if x < y { Rank::Below } else if x == y { Rank::Same } else { Rank::Above }),
            _ => Err(EvalError::Unsupported),
        },
        _ => match (l, r) {
            (JsonValue::Str(a), JsonValue::Str(b)) => Ok(
                if a == b { Rank::Same } else if lex_lt(a, b) { Rank::Below } else { Rank::Above },
            ),
            _ => Err(EvalError::Unsupported),
        },
    }
}

/// Whether `needle` is an item of a list, or a key of an object.
pub open spec fn in_spec(needle: JsonValue, hay: JsonValue) -> bool {
    match hay {
        JsonValue::Array(items) => items.contains(needle),
        JsonValue::Object(ms) => match needle {
            JsonValue::Str(k) => map_has(ms, k),
            _ => false,
        },
        _ => false,
    }
}

/// A call on evaluated arguments: a built-in helper; else, with one
/// argument, `path.append` or `path.remove` on the list at `path`.
pub open spec fn call_spec(name: Seq<char>, args: Seq<JsonValue>, env: EnvView) -> Result<JsonValue, EvalError> {
    match builtin_spec(name, args, env.now) {
        Some(Some(v)) => Ok(v),
        Some(None) => Err(EvalError::Unsupported),
        None => {
            let append = name.len() >= 7 && name.subrange(name.len() - 7, name.len() as int) == ".append"@;
            let remove = name.len() >= 7 && name.subrange(name.len() - 7, name.len() as int) == ".remove"@;
            if args.len() == 1 && (append || remove) {
                match path_spec(name.subrange(0, name.len() - 7), env) {
                    Err(e) => Err(e),
                    Ok(JsonValue::Array(items)) => Ok(
                        JsonValue::Array(if append { items.push(args[0]) } else { remove_all(items, args[0]) }),
                    ),
                    Ok(_) => Err(EvalError::Unsupported),
                }
            } else {
                Err(EvalError::Unsupported)
            }
        },
    }
}

pub open spec fn bool_result(r: Result<Rank, EvalError>, f: spec_fn(Rank) -> bool) -> Result<JsonValue, EvalError> {
    match r {
        Ok(k) => Ok(JsonValue::Bool(f(k))),
        Err(e) => Err(e),
    }
}

/// The index of the first `a` directly followed by `b`.
pub open spec fn first_pair(s: Seq<char>, a: char, b: char) -> Option<int>
    decreases s.len(),
{
    if s.len() < 2 {
        None
    } else {
        match first_pair(s.drop_last(), a, b) {
            Some(k) => Some(k),
            None => if s[s.len() - 2] == a && s[s.len() - 1] == b {
                Some(s.len() - 2)
            } else {
                None
            },
        }
    }
}

pub proof fn lemma_first_pair(s: Seq<char>, a: char, b: char)
    ensures
        first_pair(s, a, b) matches Some(k) ==> 0 <= k && k + 2 <= s.len() && s[k] == a && s[k + 1] == b,
    decreases s.len(),
{
    if s.len() >= 2 {
        lemma_first_pair(s.drop_last(), a, b);
    }
}

/// A character a template path may hold.
pub open spec fn template_path_char(c: char) -> bool {
    ('a' <= c && c <= 'z') || ('A' <= c && c <= 'Z') || ('0' <= c && c <= '9') || c == '_' || c == '.' || c == '-'
}

/// The value a `{{ path }}` of a template names: a non-empty path of
/// letters, digits, `_`, `.` and `-`.
pub open spec fn template_path(p: Seq<char>, env: EnvView) -> Result<JsonValue, EvalError> {
    if p.len() == 0 || exists|i: int| 0 <= i < p.len() && !template_path_char(#[trigger] p[i]) {
        Err(EvalError::Unsupported)
    } else {
        path_spec(p, env)
    }
}

/// The text a value puts into a template: nothing for null, a string as it
/// is, `true`/`false`, a number's text. A list or object is not rendered
/// here (`None`).
pub open spec fn template_text(v: JsonValue) -> Option<Seq<char>> {
    match v {
        JsonValue::Null => Some(Seq::empty()),
        JsonValue::Str(s) => Some(s),
        JsonValue::Bool(b) => Some(if b { "true"@ } else { "false"@ }),
        JsonValue::Number(n) => Some(n),
        _ => None,
    }
}

/// A template with each `{{ path }}` replaced by the text of its value; an
/// unclosed `{{` is unsupported.
pub open spec fn render(t: Seq<char>, env: EnvView) -> Result<Seq<char>, EvalError>
    decreases t.len(),
{
    proof {
        lemma_first_pair(t, '{', '{');
    }
    match first_pair(t, '{', '{') {
        None => Ok(t),
        Some(start) => {
            let after = t.subrange(start + 2, t.len() as int);
            proof {
                lemma_first_pair(after, '}', '}');
            }
            match first_pair(after, '}', '}') {
                None => Err(EvalError::Unsupported),
                Some(end) => match template_path(crate::text::trim_spec(after.subrange(0, end)), env) {
                    Err(x) => Err(x),
                    Ok(v) => match template_text(v) {
                        None => Err(EvalError::Unsupported),
                        Some(text) => match render(after.subrange(end + 2, after.len() as int), env) {
                            Ok(tail) => Ok(t.subrange(0, start) + text + tail),
                            Err(x) => Err(x),
                        },
                    },
                },
            }
        },
    }
}

/// What a string literal holding `{{` evaluates to: a template that is a
/// single `{{ path }}` (around whitespace) gives that path's value; any
/// other gives the rendered string.
pub open spec fn template_spec(text: Seq<char>, env: EnvView) -> Result<JsonValue, EvalError> {
    let t = crate::text::trim_spec(text);
    if t.len() >= 4 && t[0] == '{' && t[1] == '{' && t[t.len() - 2] == '}' && t[t.len() - 1] == '}' {
        template_path(crate::text::trim_spec(t.subrange(2, t.len() - 2)), env)
    } else {
        match render(text, env) {
            Ok(s) => Ok(JsonValue::Str(s)),
            Err(x) => Err(x),
        }
    }
}

/// Whether a literal is a string holding `{{`.
pub open spec fn is_template(v: JsonValue) -> bool {
    v matches JsonValue::Str(s) && first_pair(s, '{', '{') is Some
}

/// The value of an expression.
pub open spec fn eval_spec(e: Expr, env: EnvView) -> Result<JsonValue, EvalError>
    decreases e,
{
    match e {
        Expr::Literal(j) => if is_template(j.value()) {
            template_spec(j.value()->Str_0, env)
        } else {
            Ok(j.value())
        },
        Expr::Path(p) => path_spec(p@, env),
        Expr::Object(fs) => match eval_fields(fs@, env, Seq::empty()) {
            Ok(ms) => Ok(JsonValue::Object(ms)),
            Err(x) => Err(x),
        },
        Expr::List(items) => match eval_all(items@, env) {
            Ok(vs) => Ok(JsonValue::Array(vs)),
            Err(x) => Err(x),
        },
        Expr::Call { name, args } => match eval_all(args@, env) {
            Ok(vs) => call_spec(name@, vs, env),
            Err(x) => Err(x),
        },
        Expr::Eq(a, b) => match eval_spec(*a, env) {
            Err(x) => Err(x),
            Ok(l) => match eval_spec(*b, env) {
                Err(x) => Err(x),
                Ok(r) => Ok(JsonValue::Bool(l == r)),
            },
        },
        Expr::Neq(a, b) => match eval_spec(*a, env) {
            Err(x) => Err(x),
            Ok(l) => match eval_spec(*b, env) {
                Err(x) => Err(x),
                Ok(r) => Ok(JsonValue::Bool(l != r)),
            },
        },
        Expr::Lt(a, b) => ordered(eval_spec(*a, env), eval_spec(*b, env), |k: Rank| k == Rank::Below),
        Expr::Lte(a, b) => ordered(eval_spec(*a, env), eval_spec(*b, env), |k: Rank| k != Rank::Above),
        Expr::Gt(a, b) => ordered(eval_spec(*a, env), eval_spec(*b, env), |k: Rank| k == Rank::Above),
        Expr::Gte(a, b) => ordered(eval_spec(*a, env), eval_spec(*b, env), |k: Rank| k != Rank::Below),
        Expr::In(a, b) => match eval_spec(*a, env) {
            Err(x) => Err(x),
            Ok(l) => match eval_spec(*b, env) {
                Err(x) => Err(x),
                Ok(r) => Ok(JsonValue::Bool(in_spec(l, r))),
            },
        },
        Expr::And(es) => match eval_and(es@, env) {
            Ok(b) => Ok(JsonValue::Bool(b)),
            Err(x) => Err(x),
        },
        Expr::Or(es) => match eval_or(es@, env) {
            Ok(b) => Ok(JsonValue::Bool(b)),
            Err(x) => Err(x),
        },
        Expr::Not(a) => match eval_spec(*a, env) {
            Err(x) => Err(x),
            Ok(JsonValue::Bool(b)) => Ok(JsonValue::Bool(!b)),
            Ok(_) => Err(EvalError::GuardNotBoolean),
        },
    }
}

/// An ordered comparison of two evaluated sides, the left first.
pub open spec fn ordered(
    l: Result<JsonValue, EvalError>,
    r: Result<JsonValue, EvalError>,
    f: spec_fn(Rank) -> bool,
) -> Result<JsonValue, EvalError> {
    match l {
        Err(x) => Err(x),
        Ok(a) => match r {
            Err(x) => Err(x),
            Ok(b) => bool_result(rank_spec(a, b), f),
        },
    }
}

/// The values of expressions, in order; the first failure stops.
pub open spec fn eval_all(es: Seq<Expr>, env: EnvView) -> Result<Seq<JsonValue>, EvalError>
    decreases es,
{
    if es.len() == 0 {
        Ok(Seq::empty())
    } else {
        proof {
            broadcast use vstd::seq::axiom_seq_index_decreases, vstd::seq::axiom_seq_subrange_decreases;
            assert(es.drop_first() == es.subrange(1, es.len() as int));
            assert(decreases_to!(es => es.subrange(1, es.len() as int)));
        }
        match eval_spec(es[0], env) {
            Err(x) => Err(x),
            Ok(v) => match eval_all(es.drop_first(), env) {
                Err(x) => Err(x),
                Ok(vs) => Ok(seq![v] + vs),
            },
        }
    }
}

/// The members an object expression builds onto `acc`: each field set in
/// turn, as a map sets keys; the first failure stops.
pub open spec fn eval_fields(fs: Seq<(String, Expr)>, env: EnvView, acc: Seq<(Seq<char>, JsonValue)>) -> Result<Seq<(Seq<char>, JsonValue)>, EvalError>
    decreases fs,
{
    if fs.len() == 0 {
        Ok(acc)
    } else {
        proof {
            broadcast use vstd::seq::axiom_seq_index_decreases, vstd::seq::axiom_seq_subrange_decreases;
            assert(decreases_to!(fs => fs[0]));
            assert(decreases_to!(fs[0] => fs[0].1));
            assert(fs.drop_first() == fs.subrange(1, fs.len() as int));
            assert(decreases_to!(fs => fs.subrange(1, fs.len() as int)));
        }
        match eval_spec(fs[0].1, env) {
            Err(x) => Err(x),
            Ok(v) => eval_fields(fs.drop_first(), env, map_insert(acc, fs[0].0@, v)),
        }
    }
}

/// `and` of conditions, stopping at the first false one; a condition that
/// is not a boolean fails.
pub open spec fn eval_and(es: Seq<Expr>, env: EnvView) -> Result<bool, EvalError>
    decreases es,
{
    if es.len() == 0 {
        Ok(true)
    } else {
        proof {
            broadcast use vstd::seq::axiom_seq_index_decreases, vstd::seq::axiom_seq_subrange_decreases;
            assert(es.drop_first() == es.subrange(1, es.len() as int));
            assert(decreases_to!(es => es.subrange(1, es.len() as int)));
        }
        match eval_spec(es[0], env) {
            Err(x) => Err(x),
            Ok(JsonValue::Bool(b)) => if !b { Ok(false) } else { eval_and(es.drop_first(), env) },
            Ok(_) => Err(EvalError::GuardNotBoolean),
        }
    }
}

/// `or` of conditions, stopping at the first true one; a condition that is
/// not a boolean fails.
pub open spec fn eval_or(es: Seq<Expr>, env: EnvView) -> Result<bool, EvalError>
    decreases es,
{
    if es.len() == 0 {
        Ok(false)
    } else {
        proof {
            broadcast use vstd::seq::axiom_seq_index_decreases, vstd::seq::axiom_seq_subrange_decreases;
            assert(es.drop_first() == es.subrange(1, es.len() as int));
            assert(decreases_to!(es => es.subrange(1, es.len() as int)));
        }
        match eval_spec(es[0], env) {
            Err(x) => Err(x),
            Ok(JsonValue::Bool(b)) => if b { Ok(true) } else { eval_or(es.drop_first(), env) },
            Ok(_) => Err(EvalError::GuardNotBoolean),
        }
    }
}

/// The view of evaluated lists.
pub open spec fn list_view(r: Result<Vec<Json>, InterpreterError>) -> Result<Seq<JsonValue>, EvalError> {
    match r {
        Ok(v) => Ok(values_of(v@)),
        Err(e) => Err(error_view(e)),
    }
}

/// How a value takes part in an ordered comparison as a number.
fn numeric_rank_exec(v: &Json) -> (r: Option<Option<i64>>)
    ensures
        match r {
            Some(Some(x)) => numeric_rank(v.value()) == Some(Some(x as int)),
            Some(None) => numeric_rank(v.value()) == Some(None::<int>),
            None => numeric_rank(v.value()) is None,
        },
{
    let limit: u64 = 9007199254740992;
    match v {
        Json::Number(n) => {
            let cs = chars_of(n.as_str());
            if cs.len() > 0 && cs[0] == '-' {
                let rest = chars_slice(&cs, 1, cs.len());
                assert(rest@ =~= n@.drop_first());
                match parse_u64_text(string_from_chars(&rest).as_str()) {
                    Some(x) => if x <= limit {
                        Some(Some(-(x as i64)))
                    } else {
                        Some(None)
                    },
                    None => Some(None),
                }
            } else {
                match parse_u64_text(n.as_str()) {
                    Some(x) => if x <= limit {
                        Some(Some(x as i64))
                    } else {
                        Some(None)
                    },
                    None => Some(None),
                }
            }
        },
        Json::Str(t) => match parse_duration_millis(t.as_str()) {
            Some(m) => if m <= limit {
                Some(Some(m as i64))
            } else {
                Some(None)
            },
            None => None,
        },
        _ => None,
    }
}

/// How `l` ranks against `r`.
pub fn rank_values(l: &Json, r: &Json) -> (res: Result<Rank, InterpreterError>)
    ensures
        match rank_spec(l.value(), r.value()) {
            Ok(k) => res == Ok::<Rank, InterpreterError>(k),
            Err(_) => res matches Err(e) && e is UnsupportedExpression,
        },
{
    let a = numeric_rank_exec(l);
    let b = numeric_rank_exec(r);
    if a.is_some() && b.is_some() {
        return match (a, b) {
            (Some(Some(x)), Some(Some(y))) => Ok(if x < y {
                Rank::Below
            } else if x == y {
                Rank::Same
            } else {
                Rank::Above
            }),
            _ => Err(InterpreterError::UnsupportedExpression),
        };
    }
    match (l, r) {
        (Json::Str(x), Json::Str(y)) => Ok(if str_eq(x.as_str(), y.as_str()) {
            Rank::Same
        } else if str_lt(x.as_str(), y.as_str()) {
            Rank::Below
        } else {
            Rank::Above
        }),
        _ => Err(InterpreterError::UnsupportedExpression),
    }
}

/// Whether `needle` is an item of a list, or a key of an object.
fn in_exec(needle: &Json, hay: &Json) -> (r: bool)
    ensures
        r == in_spec(needle.value(), hay.value()),
{
    match hay {
        Json::Array(items) => {
            proof {
                lemma_array_items(*items);
            }
            list_contains(items, needle)
        },
        Json::Object(ms) => {
            proof {
                lemma_object_members(*ms);
            }
            match needle {
                Json::Str(k) => map_has_json(ms, k.as_str()),
                _ => false,
            }
        },
        _ => false,
    }
}

/// A call on evaluated arguments.
fn call_exec(name: &str, args: &Vec<Json>, env: &EvalEnv) -> (r: Result<Json, InterpreterError>)
    ensures
        result_view(r) == call_spec(name@, values_of(args@), env_view(*env)),
{
    proof {
        reveal_strlit(".append");
        reveal_strlit(".remove");
    }
    match call_builtin(name, args, env.now) {
        Some(r) => {
            return r;
        },
        None => {},
    }
    let cs = chars_of(name);
    let n = cs.len();
    if args.len() != 1 || n < 7 {
        return Err(InterpreterError::UnsupportedExpression);
    }
    let suffix = chars_slice(&cs, n - 7, n);
    let append = crate::text::chars_eq(&suffix, &chars_of(".append"));
    let remove = crate::text::chars_eq(&suffix, &chars_of(".remove"));
    if !append && !remove {
        return Err(InterpreterError::UnsupportedExpression);
    }
    let receiver = string_from_chars(&chars_slice(&cs, 0, n - 7));
    match eval_path(receiver.as_str(), env) {
        Err(e) => Err(e),
        Ok(Json::Array(items)) => {
            proof {
                lemma_array_items(items);
            }
            assert(values_of(args@)[0] == args@[0].value());
            let out = if append {
                list_append(&items, &args[0])
            } else {
                remove_all_json(&items, &args[0])
            };
            proof {
                lemma_array_items(out);
            }
            Ok(Json::Array(out))
        },
        Ok(_) => Err(InterpreterError::UnsupportedExpression),
    }
}

/// The index of the first `a` directly followed by `b`.
fn find_pair(s: &Vec<char>, a: char, b: char) -> (r: Option<usize>)
    ensures
        match r {
            Some(k) => first_pair(s@, a, b) == Some(k as int),
            None => first_pair(s@, a, b) is None,
        },
{
    let mut i: usize = 0;
    while i + 1 < s.len()
        invariant
            i + 1 <= s.len() || s.len() < 2,
            s.len() >= 2 ==> first_pair(s@.subrange(0, i as int + 1), a, b) is None,
            s.len() < 2 ==> i == 0,
        decreases s.len() - i,
    {
        assert(s@.subrange(0, i + 2).drop_last() =~= s@.subrange(0, i as int + 1));
        if s[i] == a && s[i + 1] == b {
            proof {
                assert(first_pair(s@.subrange(0, i + 2), a, b) == Some(i as int));
                lemma_first_pair_prefix(s@, a, b, i as int + 2);
            }
            return Some(i);
        }
        i += 1;
    }
    proof {
        if s.len() >= 2 {
            assert(s@.subrange(0, s.len() as int) =~= s@);
        }
    }
    None
}

proof fn lemma_first_pair_prefix(s: Seq<char>, a: char, b: char, n: int)
    requires
        2 <= n <= s.len(),
        first_pair(s.subrange(0, n), a, b) is Some,
    ensures
        first_pair(s, a, b) == first_pair(s.subrange(0, n), a, b),
    decreases s.len(),
{
    if s.len() > n {
        assert(s.drop_last().subrange(0, n) =~= s.subrange(0, n));
        lemma_first_pair_prefix(s.drop_last(), a, b, n);
    } else {
        assert(s.subrange(0, n) =~= s);
    }
}

/// The value a template path names.
fn template_path_exec(p: &Vec<char>, env: &EvalEnv) -> (r: Result<Json, InterpreterError>)
    ensures
        result_view(r) == template_path(p@, env_view(*env)),
{
    if p.len() == 0 {
        return Err(InterpreterError::UnsupportedExpression);
    }
    let mut i: usize = 0;
    while i < p.len()
        invariant
            i <= p.len(),
            forall|k: int| 0 <= k < i ==> template_path_char(#[trigger] p@[k]),
        decreases p.len() - i,
    {
        let c = p[i];
        if !(('a' <= c && c <= 'z') || ('A' <= c && c <= 'Z') || ('0' <= c && c <= '9') || c == '_' || c == '.'
            || c == '-') {
            return Err(InterpreterError::UnsupportedExpression);
        }
        i += 1;
    }
    eval_path(string_from_chars(p).as_str(), env)
}

/// The text a value puts into a template.
fn template_text_exec(v: &Json) -> (r: Option<Vec<char>>)
    ensures
        match r {
            Some(t) => template_text(v.value()) == Some(t@),
            None => template_text(v.value()) is None,
        },
{
    match v {
        Json::Null => Some(Vec::new()),
        Json::Str(s) => Some(chars_of(s.as_str())),
        Json::Bool(b) => Some(if *b {
            chars_of("true")
        } else {
            chars_of("false")
        }),
        Json::Number(n) => Some(chars_of(n.as_str())),
        _ => None,
    }
}

/// A template with each `{{ path }}` replaced by its value's text.
fn render_exec(t: &Vec<char>, env: &EvalEnv) -> (r: Result<Vec<char>, InterpreterError>)
    ensures
        match r {
            Ok(x) => render(t@, env_view(*env)) == Ok::<Seq<char>, EvalError>(x@),
            Err(e) => render(t@, env_view(*env)) == Err::<Seq<char>, EvalError>(error_view(e)),
        },
    decreases t.len(),
{
    proof {
        lemma_first_pair(t@, '{', '{');
    }
    let start = match find_pair(t, '{', '{') {
        None => {
            return Ok(t.clone());
        },
        Some(k) => k,
    };
    let after = chars_slice(t, start + 2, t.len());
    proof {
        lemma_first_pair(after@, '}', '}');
    }
    let end = match find_pair(&after, '}', '}') {
        None => {
            return Err(InterpreterError::UnsupportedExpression);
        },
        Some(k) => k,
    };
    let inner = crate::text::trim_chars(&chars_slice(&after, 0, end));
    let v = template_path_exec(&inner, env)?;
    let text = match template_text_exec(&v) {
        None => {
            return Err(InterpreterError::UnsupportedExpression);
        },
        Some(x) => x,
    };
    let tail = render_exec(&chars_slice(&after, end + 2, after.len()), env)?;
    let mut out = chars_slice(t, 0, start);
    let mut k: usize = 0;
    let ghost head = out@;
    while k < text.len()
        invariant
            k <= text@.len(),
            out@ == head + text@.subrange(0, k as int),
        decreases text.len() - k,
    {
        out.push(text[k]);
        assert(text@.subrange(0, k + 1) =~= text@.subrange(0, k as int).push(text@[k as int]));
        k += 1;
    }
    assert(text@.subrange(0, text@.len() as int) =~= text@);
    let ghost mid = out@;
    let mut k: usize = 0;
    while k < tail.len()
        invariant
            k <= tail@.len(),
            out@ == mid + tail@.subrange(0, k as int),
        decreases tail.len() - k,
    {
        out.push(tail[k]);
        assert(tail@.subrange(0, k + 1) =~= tail@.subrange(0, k as int).push(tail@[k as int]));
        k += 1;
    }
    assert(tail@.subrange(0, tail@.len() as int) =~= tail@);
    assert(out@ =~= t@.subrange(0, start as int) + text@ + tail@);
    Ok(out)
}

/// The value of a literal: a string holding `{{` is a template.
fn eval_literal(j: &Json, env: &EvalEnv) -> (r: Result<Json, InterpreterError>)
    ensures
        result_view(r) == (if is_template(j.value()) {
            template_spec(j.value()->Str_0, env_view(*env))
        } else {
            Ok(j.value())
        }),
{
    let text = match j {
        Json::Str(s) => s,
        _ => {
            return Ok(j.deep_clone());
        },
    };
    let cs = chars_of(text.as_str());
    if find_pair(&cs, '{', '{').is_none() {
        return Ok(j.deep_clone());
    }
    let t = crate::text::trim_chars(&cs);
    let n = t.len();
    if n >= 4 && t[0] == '{' && t[1] == '{' && t[n - 2] == '}' && t[n - 1] == '}' {
        let inner = crate::text::trim_chars(&chars_slice(&t, 2, n - 2));
        return template_path_exec(&inner, env);
    }
    match render_exec(&cs, env) {
        Ok(out) => Ok(Json::Str(string_from_chars(&out))),
        Err(e) => Err(e),
    }
}

/// The value of an expression.
#[verifier::rlimit(80)]
#[verifier::spinoff_prover]
pub fn eval_expr(expr: &Expr, env: &EvalEnv) -> (r: Result<Json, InterpreterError>)
    ensures
        result_view(r) == eval_spec(*expr, env_view(*env)),
    decreases expr, 0nat,
{
    let ghost ev = env_view(*env);
    match expr {
        Expr::Literal(j) => eval_literal(j, env),
        Expr::Path(p) => eval_path(p.as_str(), env),
        Expr::Object(fields) => {
            proof {
                assert(decreases_to!(*expr => *fields));
            }
            let empty: Vec<(String, Json)> = Vec::new();
            assert(members_of(empty@) =~= Seq::<(Seq<char>, JsonValue)>::empty());
            assert(fields@.skip(0) =~= fields@);
            match eval_fields_exec(fields, 0, empty, env) {
                Ok(ms) => {
                    proof {
                        lemma_object_members(ms);
                    }
                    Ok(Json::Object(ms))
                },
                Err(e) => Err(e),
            }
        },
        Expr::List(items) => {
            proof {
                assert(decreases_to!(*expr => *items));
            }
            assert(items@.skip(0) =~= items@);
            match eval_items(items, 0, env) {
                Ok(vs) => {
                    proof {
                        lemma_array_items(vs);
                    }
                    Ok(Json::Array(vs))
                },
                Err(e) => Err(e),
            }
        },
        Expr::Call { name, args } => {
            proof {
                assert(decreases_to!(*expr => *args));
            }
            assert(args@.skip(0) =~= args@);
            match eval_items(args, 0, env) {
                Ok(vs) => call_exec(name.as_str(), &vs, env),
                Err(e) => Err(e),
            }
        },
        Expr::Eq(a, b) => {
            let l = eval_expr(a, env)?;
            let r = eval_expr(b, env)?;
            Ok(Json::Bool(json_eq(&l, &r)))
        },
        Expr::Neq(a, b) => {
            let l = eval_expr(a, env)?;
            let r = eval_expr(b, env)?;
            Ok(Json::Bool(!json_eq(&l, &r)))
        },
        Expr::Lt(a, b) => {
            let l = eval_expr(a, env)?;
            let r = eval_expr(b, env)?;
            let k = rank_values(&l, &r)?;
            Ok(Json::Bool(k == Rank::Below))
        },
        Expr::Lte(a, b) => {
            let l = eval_expr(a, env)?;
            let r = eval_expr(b, env)?;
            let k = rank_values(&l, &r)?;
            Ok(Json::Bool(k != Rank::Above))
        },
        Expr::Gt(a, b) => {
            let l = eval_expr(a, env)?;
            let r = eval_expr(b, env)?;
            let k = rank_values(&l, &r)?;
            Ok(Json::Bool(k == Rank::Above))
        },
        Expr::Gte(a, b) => {
            let l = eval_expr(a, env)?;
            let r = eval_expr(b, env)?;
            let k = rank_values(&l, &r)?;
            Ok(Json::Bool(k != Rank::Below))
        },
        Expr::In(a, b) => {
            let l = eval_expr(a, env)?;
            let r = eval_expr(b, env)?;
            Ok(Json::Bool(in_exec(&l, &r)))
        },
        Expr::And(es) => {
            proof {
                assert(decreases_to!(*expr => *es));
            }
            assert(es@.skip(0) =~= es@);
            match eval_and_exec(es, 0, env) {
                Ok(b) => Ok(Json::Bool(b)),
                Err(e) => Err(e),
            }
        },
        Expr::Or(es) => {
            proof {
                assert(decreases_to!(*expr => *es));
            }
            assert(es@.skip(0) =~= es@);
            match eval_or_exec(es, 0, env) {
                Ok(b) => Ok(Json::Bool(b)),
                Err(e) => Err(e),
            }
        },
        Expr::Not(a) => match eval_expr(a, env)? {
            Json::Bool(b) => Ok(Json::Bool(!b)),
            _ => Err(InterpreterError::GuardNotBoolean),
        },
    }
}

/// The values of `items[at..]`, in order.
pub(crate) fn eval_items(items: &Vec<Expr>, at: usize, env: &EvalEnv) -> (r: Result<Vec<Json>, InterpreterError>)
    requires
        at <= items.len(),
    ensures
        list_view(r) == eval_all(items@.skip(at as int), env_view(*env)),
    decreases items, items.len() - at,
{
    if at == items.len() {
        assert(items@.skip(at as int) =~= Seq::<Expr>::empty());
        let none: Vec<Json> = Vec::new();
        assert(values_of(none@) =~= Seq::<JsonValue>::empty());
        return Ok(none);
    }
    assert(items@.skip(at as int)[0] == items@[at as int]);
    assert(items@.skip(at as int).drop_first() =~= items@.skip(at + 1));
    proof {
        broadcast use vstd::std_specs::vec::axiom_vec_index_decreases;
        assert(decreases_to!(*items => items[at as int]));
    }
    let v = eval_expr(&items[at], env)?;
    let rest = eval_items(items, at + 1, env)?;
    let mut out: Vec<Json> = Vec::new();
    out.push(v);
    let mut k: usize = 0;
    while k < rest.len()
        invariant
            k <= rest@.len(),
            values_of(out@) == seq![v.value()] + values_of(rest@).subrange(0, k as int),
        decreases rest.len() - k,
    {
        let ghost before = out@;
        let item = rest[k].deep_clone();
        out.push(item);
        assert(values_of(out@) =~= values_of(before).push(rest@[k as int].value()));
        assert(values_of(rest@).subrange(0, k + 1) =~= values_of(rest@).subrange(0, k as int).push(rest@[k as int].value()));
        k += 1;
    }
    assert(values_of(rest@).subrange(0, rest@.len() as int) =~= values_of(rest@));
    Ok(out)
}

/// The members `fields[at..]` set onto `acc`.
fn eval_fields_exec(fields: &Vec<(String, Expr)>, at: usize, acc: Vec<(String, Json)>, env: &EvalEnv) -> (r: Result<Vec<(String, Json)>, InterpreterError>)
    requires
        at <= fields.len(),
    ensures
        match r {
            Ok(ms) => eval_fields(fields@.skip(at as int), env_view(*env), members_of(acc@)) == Ok::<Seq<(Seq<char>, JsonValue)>, EvalError>(members_of(ms@)),
            Err(e) => eval_fields(fields@.skip(at as int), env_view(*env), members_of(acc@)) == Err::<Seq<(Seq<char>, JsonValue)>, EvalError>(error_view(e)),
        },
    decreases fields, fields.len() - at,
{
    if at == fields.len() {
        assert(fields@.skip(at as int) =~= Seq::<(String, Expr)>::empty());
        return Ok(acc);
    }
    assert(fields@.skip(at as int)[0] == fields@[at as int]);
    assert(fields@.skip(at as int).drop_first() =~= fields@.skip(at + 1));
    proof {
        broadcast use vstd::std_specs::vec::axiom_vec_index_decreases;
        assert(decreases_to!(*fields => fields[at as int]));
        assert(decreases_to!(fields[at as int] => fields[at as int].1));
    }
    let v = eval_expr(&fields[at].1, env)?;
    let next = map_insert_json(&acc, fields[at].0.as_str(), &v);
    eval_fields_exec(fields, at + 1, next, env)
}

/// `and` of `es[at..]`.
fn eval_and_exec(es: &Vec<Expr>, at: usize, env: &EvalEnv) -> (r: Result<bool, InterpreterError>)
    requires
        at <= es.len(),
    ensures
        match r {
            Ok(b) => eval_and(es@.skip(at as int), env_view(*env)) == Ok::<bool, EvalError>(b),
            Err(e) => eval_and(es@.skip(at as int), env_view(*env)) == Err::<bool, EvalError>(error_view(e)),
        },
    decreases es, es.len() - at,
{
    if at == es.len() {
        assert(es@.skip(at as int) =~= Seq::<Expr>::empty());
        return Ok(true);
    }
    assert(es@.skip(at as int)[0] == es@[at as int]);
    assert(es@.skip(at as int).drop_first() =~= es@.skip(at + 1));
    proof {
        broadcast use vstd::std_specs::vec::axiom_vec_index_decreases;
        assert(decreases_to!(*es => es[at as int]));
    }
    match eval_expr(&es[at], env)? {
        Json::Bool(b) => if !b {
            Ok(false)
        } else {
            eval_and_exec(es, at + 1, env)
        },
        _ => Err(InterpreterError::GuardNotBoolean),
    }
}

/// `or` of `es[at..]`.
fn eval_or_exec(es: &Vec<Expr>, at: usize, env: &EvalEnv) -> (r: Result<bool, InterpreterError>)
    requires
        at <= es.len(),
    ensures
        match r {
            Ok(b) => eval_or(es@.skip(at as int), env_view(*env)) == Ok::<bool, EvalError>(b),
            Err(e) => eval_or(es@.skip(at as int), env_view(*env)) == Err::<bool, EvalError>(error_view(e)),
        },
    decreases es, es.len() - at,
{
    if at == es.len() {
        assert(es@.skip(at as int) =~= Seq::<Expr>::empty());
        return Ok(false);
    }
    assert(es@.skip(at as int)[0] == es@[at as int]);
    assert(es@.skip(at as int).drop_first() =~= es@.skip(at + 1));
    proof {
        broadcast use vstd::std_specs::vec::axiom_vec_index_decreases;
        assert(decreases_to!(*es => es[at as int]));
    }
    match eval_expr(&es[at], env)? {
        Json::Bool(b) => if b {
            Ok(true)
        } else {
            eval_or_exec(es, at + 1, env)
        },
        _ => Err(InterpreterError::GuardNotBoolean),
    }
}

/// The workflow data after `assign <target> = <value>`: the target must be
/// a `data.` path whose first field is declared; then the value is
/// evaluated and set there, the field's current value (else its schema
/// default, else an empty object) being the root of a nested path.
pub open spec fn assign_spec(
    data: Seq<(Seq<char>, JsonValue)>,
    declared: Seq<Seq<char>>,
    defaults: Seq<(Seq<char>, JsonValue)>,
    target: Seq<char>,
    value: Expr,
    env: EnvView,
) -> Result<Seq<(Seq<char>, JsonValue)>, EvalError> {
    if !has_prefix(target, "data."@) {
        Err(EvalError::InvalidAssignTarget(target))
    } else {
        let dp = target.subrange(5, target.len() as int);
        let field = match first_dot(dp) {
            Some(k) => dp.subrange(0, k),
            None => dp,
        };
        if !declared.contains(field) {
            Err(EvalError::UndeclaredDataField(field))
        } else {
            match eval_spec(value, env) {
                Err(e) => Err(e),
                Ok(v) => match first_dot(dp) {
                    None => Ok(map_insert(data, dp, v)),
                    Some(k) => {
                        let root = match member(data, field) {
                            Some(x) => x,
                            None => match member(defaults, field) {
                                Some(d) => d,
                                None => JsonValue::Object(Seq::empty()),
                            },
                        };
                        match set_path(root, dotted(dp.subrange(k + 1, dp.len() as int)), v) {
                            None => Err(EvalError::Unsupported),
                            Some(nr) => Ok(map_insert(data, field, nr)),
                        }
                    },
                },
            }
        }
    }
}

/// Applies `assign <target> = <value>` to the workflow data (`env` holds the
/// same data for evaluating the value); on an error the data is unchanged.
pub fn apply_assign(
    data: &mut Vec<(String, Json)>,
    declared: &Vec<String>,
    defaults: &Vec<(String, Json)>,
    target: &str,
    value: &Expr,
    env: &EvalEnv,
) -> (r: Result<(), InterpreterError>)
    ensures
        match assign_spec(members_of(old(data)@), crate::order::views(declared@), members_of(defaults@), target@, *value, env_view(*env)) {
            Ok(nd) => r is Ok && members_of(final(data)@) == nd,
            Err(e) => r matches Err(x) && error_view(x) == e && *final(data) == *old(data),
        },
{
    proof {
        reveal_strlit("data.");
    }
    let cs = chars_of(target);
    let prefix = chars_of("data.");
    if !crate::text::chars_starts_with(&cs, &prefix) {
        return Err(InterpreterError::InvalidAssignTarget(target.to_owned()));
    }
    let dp = chars_slice(&cs, 5, cs.len());
    let dot = first_dot_exec(&dp);
    let field = match dot {
        Some(k) => chars_slice(&dp, 0, k),
        None => dp.clone(),
    };
    let field_text = string_from_chars(&field);
    let mut i: usize = 0;
    let mut found = false;
    while i < declared.len()
        invariant
            i <= declared@.len(),
            field_text@ == field@,
            found == exists|j: int| 0 <= j < i && (#[trigger] declared@[j])@ == field@,
        decreases declared.len() - i,
    {
        if str_eq(declared[i].as_str(), field_text.as_str()) {
            found = true;
        }
        assert(found == exists|j: int| 0 <= j < i + 1 && (#[trigger] declared@[j])@ == field@) by {
            if declared@[i as int]@ == field@ {
                assert(0 <= i < i + 1);
            }
        }
        i += 1;
    }
    proof {
        if found {
            let j = choose|j: int| 0 <= j < declared@.len() && (#[trigger] declared@[j])@ == field@;
            assert(crate::order::views(declared@)[j] == field@);
        } else {
            assert forall|j: int| 0 <= j < crate::order::views(declared@).len() implies crate::order::views(declared@)[j] != field@ by {
                assert(crate::order::views(declared@)[j] == declared@[j]@);
            }
        }
    }
    if !found {
        return Err(InterpreterError::UndeclaredDataField(field_text));
    }
    let v = eval_expr(value, env)?;
    match dot {
        None => {
            let next = map_insert_json(data, field_text.as_str(), &v);
            *data = next;
            Ok(())
        },
        Some(k) => {
            let mut root = match member_json(data, field_text.as_str()) {
                Some(x) => x.deep_clone(),
                None => match member_json(defaults, field_text.as_str()) {
                    Some(d) => d.deep_clone(),
                    None => {
                        let empty: Vec<(String, Json)> = Vec::new();
                        proof {
                            lemma_object_members(empty);
                            assert(members_of(empty@) =~= Seq::<(Seq<char>, JsonValue)>::empty());
                        }
                        Json::Object(empty)
                    },
                },
            };
            let nested = string_from_chars(&chars_slice(&dp, k + 1, dp.len()));
            set_json_path(&mut root, nested.as_str(), v)?;
            let next = map_insert_json(data, field_text.as_str(), &root);
            *data = next;
            Ok(())
        },
    }
}

/// The index of the first arm whose pattern matches `v`.
pub open spec fn first_arm(arms: Seq<crate::cases::CasePattern>, v: JsonValue) -> Option<int>
    decreases arms.len(),
{
    if arms.len() == 0 {
        None
    } else {
        match first_arm(arms.drop_last(), v) {
            Some(k) => Some(k),
            None => if crate::cases::case_matches(arms.last(), v) {
                Some(arms.len() - 1)
            } else {
                None
            },
        }
    }
}

/// The arm a `case` step takes: its subject is evaluated and the first arm
/// whose pattern matches it is taken (`None`: no arm matches).
pub fn select_case_arm(subject: &Expr, arms: &Vec<crate::cases::CasePattern>, env: &EvalEnv) -> (r: Result<Option<usize>, InterpreterError>)
    ensures
        match eval_spec(*subject, env_view(*env)) {
            Err(e) => r matches Err(x) && error_view(x) == e,
            Ok(v) => match first_arm(arms@, v) {
                Some(k) => r matches Ok(Some(j)) && j == k,
                None => r == Ok::<Option<usize>, InterpreterError>(None),
            },
        },
{
    let v = match eval_expr(subject, env) {
        Ok(v) => v,
        Err(e) => {
            return Err(e);
        },
    };
    let mut i: usize = 0;
    while i < arms.len()
        invariant
            i <= arms@.len(),
            eval_spec(*subject, env_view(*env)) == Ok::<JsonValue, EvalError>(v.value()),
            first_arm(arms@.subrange(0, i as int), v.value()) is None,
        decreases arms.len() - i,
    {
        let ghost pre = arms@.subrange(0, i + 1);
        assert(pre.drop_last() =~= arms@.subrange(0, i as int));
        if crate::cases::case_pattern_matches(&arms[i], &v) {
            proof {
                assert(first_arm(pre, v.value()) == Some(i as int));
                lemma_first_arm_prefix(arms@, v.value(), i as int + 1);
            }
            return Ok(Some(i));
        }
        i += 1;
    }
    assert(arms@.subrange(0, arms@.len() as int) =~= arms@);
    Ok(None)
}

pub(crate) proof fn lemma_first_arm_prefix(arms: Seq<crate::cases::CasePattern>, v: JsonValue, n: int)
    requires
        1 <= n <= arms.len(),
        first_arm(arms.subrange(0, n), v) is Some,
    ensures
        first_arm(arms, v) == first_arm(arms.subrange(0, n), v),
    decreases arms.len(),
{
    if arms.len() > n {
        assert(arms.drop_last().subrange(0, n) =~= arms.subrange(0, n));
        lemma_first_arm_prefix(arms.drop_last(), v, n);
    } else {
        assert(arms.subrange(0, n) =~= arms);
    }
}

/// Applies `let <name> = <value>`: the value is evaluated and bound among
/// the step locals (replacing an earlier binding of the name); on an error
/// the locals are unchanged.
pub fn apply_let(locals: &mut Vec<(String, Json)>, name: &str, value: &Expr, env: &EvalEnv) -> (r: Result<(), InterpreterError>)
    ensures
        match eval_spec(*value, env_view(*env)) {
            Ok(v) => r is Ok && members_of(final(locals)@) == map_insert(members_of(old(locals)@), name@, v),
            Err(e) => r matches Err(x) && error_view(x) == e && *final(locals) == *old(locals),
        },
{
    let v = match eval_expr(value, env) {
        Ok(v) => v,
        Err(e) => {
            return Err(e);
        },
    };
    let next = map_insert_json(locals, name, &v);
    *locals = next;
    Ok(())
}

/// Whether the workflow's expression invariants hold, checked in order:
/// each must evaluate to `true`; the first that fails to evaluate, is not a
/// boolean, or is false stops the check.
pub open spec fn invariants_spec(invs: Seq<(String, Expr)>, env: EnvView) -> Result<(), EvalError>
    decreases invs.len(),
{
    if invs.len() == 0 {
        Ok(())
    } else {
        match eval_spec(invs[0].1, env) {
            Err(e) => Err(e),
            Ok(JsonValue::Bool(true)) => invariants_spec(invs.drop_first(), env),
            Ok(JsonValue::Bool(false)) => Err(EvalError::InvariantViolated(invs[0].0@)),
            Ok(_) => Err(EvalError::InvariantNotBoolean(invs[0].0@)),
        }
    }
}

/// Checks the workflow's expression invariants against the data, with no
/// locals and no event binding.
pub fn check_expression_invariants(invariants: &Vec<(String, Expr)>, env: &EvalEnv) -> (r: Result<(), InterpreterError>)
    requires
        env.locals@.len() == 0,
        env.event_binding is None,
    ensures
        match invariants_spec(invariants@, env_view(*env)) {
            Ok(_) => r is Ok,
            Err(e) => r matches Err(x) && error_view(x) == e,
        },
{
    let mut i: usize = 0;
    assert(invariants@.subrange(0, invariants@.len() as int) =~= invariants@);
    while i < invariants.len()
        invariant
            i <= invariants@.len(),
            invariants_spec(invariants@, env_view(*env)) == invariants_spec(
                invariants@.subrange(i as int, invariants@.len() as int),
                env_view(*env),
            ),
        decreases invariants.len() - i,
    {
        let ghost rest = invariants@.subrange(i as int, invariants@.len() as int);
        assert(rest.drop_first() =~= invariants@.subrange(i + 1, invariants@.len() as int));
        assert(rest[0] == invariants@[i as int]);
        match eval_expr(&invariants[i].1, env) {
            Err(e) => {
                return Err(e);
            },
            Ok(Json::Bool(true)) => {},
            Ok(Json::Bool(false)) => {
                return Err(InterpreterError::InvariantViolated { name: invariants[i].0.clone() });
            },
            Ok(_) => {
                return Err(InterpreterError::InvariantNotBoolean { name: invariants[i].0.clone() });
            },
        }
        i += 1;
    }
    Ok(())
}


/// Inequality is the negation of equality: where both operands evaluate,
/// `a == b` and `a != b` are booleans and exactly one of them is true; a
/// value is equal to itself and never unequal to itself.
pub proof fn law_not_equal_negates_equal(a: Expr, b: Expr, env: EnvView)
    requires
        eval_spec(a, env) is Ok,
        eval_spec(b, env) is Ok,
    ensures
        eval_spec(Expr::Eq(Box::new(a), Box::new(b)), env) matches Ok(JsonValue::Bool(x))
            && eval_spec(Expr::Neq(Box::new(a), Box::new(b)), env) == Ok::<JsonValue, EvalError>(JsonValue::Bool(!x))
            && (x <==> eval_spec(a, env) == eval_spec(b, env)),
        eval_spec(Expr::Eq(Box::new(a), Box::new(a)), env) == Ok::<JsonValue, EvalError>(JsonValue::Bool(true)),
        eval_spec(Expr::Neq(Box::new(a), Box::new(a)), env) == Ok::<JsonValue, EvalError>(JsonValue::Bool(false)),
{
}

} // verus!
