//! The built-in helpers workflow expressions may call on values: time,
//! list, map and text functions. Maps are objects whose members are in key
//! order, each key once.
use vstd::prelude::*;
use crate::errors::InterpreterError;
use crate::glob::{glob_matches, simple_glob_matches};
use crate::json::{Json, JsonValue};
use crate::order::{lex_lt, str_lt};
use crate::selection::number_u64;
use crate::text::{
    chars_ends_with, chars_match_at, chars_of, chars_starts_with, decimal, has_prefix, has_suffix, str_eq,
    string_from_chars, trim_chars, trim_spec, u64_to_decimal,
};

verus! {

/// Whether `t` occurs in `s`.
pub open spec fn contains_text(s: Seq<char>, t: Seq<char>) -> bool {
    exists|i: int| 0 <= i && i + t.len() <= s.len() && #[trigger] s.subrange(i, i + t.len()) == t
}

/// The items other than `x`, in order.
pub open spec fn remove_all(items: Seq<JsonValue>, x: JsonValue) -> Seq<JsonValue>
    decreases items.len(),
{
    if items.len() == 0 {
        Seq::empty()
    } else {
        let rest = remove_all(items.drop_last(), x);
        if items.last() == x {
            rest
        } else {
            rest.push(items.last())
        }
    }
}

/// The value of the member `key`, or null.
pub open spec fn map_get(ms: Seq<(Seq<char>, JsonValue)>, key: Seq<char>) -> JsonValue
    decreases ms.len(),
{
    if ms.len() == 0 {
        JsonValue::Null
    } else if ms[0].0 == key {
        ms[0].1
    } else {
        map_get(ms.drop_first(), key)
    }
}

/// Whether some member is `key`.
pub open spec fn map_has(ms: Seq<(Seq<char>, JsonValue)>, key: Seq<char>) -> bool {
    exists|i: int| 0 <= i < ms.len() && (#[trigger] ms[i]).0 == key
}

/// The members other than `key`, in order.
pub open spec fn map_remove(ms: Seq<(Seq<char>, JsonValue)>, key: Seq<char>) -> Seq<(Seq<char>, JsonValue)>
    decreases ms.len(),
{
    if ms.len() == 0 {
        Seq::empty()
    } else {
        let rest = map_remove(ms.drop_last(), key);
        if ms.last().0 == key {
            rest
        } else {
            rest.push(ms.last())
        }
    }
}

/// The members with `key` set to `v`: in place where the key is a member,
/// otherwise before the first member whose key sorts after it.
pub open spec fn map_insert(ms: Seq<(Seq<char>, JsonValue)>, key: Seq<char>, v: JsonValue) -> Seq<(Seq<char>, JsonValue)>
    decreases ms.len(),
{
    if ms.len() == 0 {
        seq![(key, v)]
    } else if ms[0].0 == key {
        seq![(key, v)] + ms.drop_first()
    } else if lex_lt(key, ms[0].0) {
        seq![(key, v)] + ms
    } else {
        seq![ms[0]] + map_insert(ms.drop_first(), key, v)
    }
}

/// A count as a JSON number.
pub open spec fn count_value(n: nat) -> JsonValue {
    JsonValue::Number(decimal(n))
}

/// The milliseconds since a start time (unset: the longest possible).
pub open spec fn elapsed_value(v: JsonValue, now: u64) -> Option<JsonValue> {
    match v {
        JsonValue::Null => Some(count_value(u64::MAX as nat)),
        JsonValue::Number(n) => match number_u64(n) {
            Some(start) => Some(count_value(if start >= now { 0 } else { (now - start) as nat })),
            None => None,
        },
        _ => None,
    }
}

/// The list helpers: `None` for a name and arity that is none of them,
/// `Some(None)` where the first argument is not a list.
pub open spec fn list_builtin(name: Seq<char>, args: Seq<JsonValue>) -> Option<Option<JsonValue>> {
    let n = args.len();
    let unary = n == 1 && (name == "list.length"@ || name == "list.isEmpty"@ || name == "list.first"@);
    let binary = n == 2 && (name == "list.contains"@ || name == "list.append"@ || name == "list.remove"@);
    if !unary && !binary {
        None
    } else {
        Some(
            match args[0] {
                JsonValue::Array(items) => Some(
                    if name == "list.length"@ {
                        count_value(items.len())
                    } else if name == "list.isEmpty"@ {
                        JsonValue::Bool(items.len() == 0)
                    } else if name == "list.first"@ {
                        if items.len() > 0 {
                            items[0]
                        } else {
                            JsonValue::Null
                        }
                    } else if name == "list.contains"@ {
                        JsonValue::Bool(items.contains(args[1]))
                    } else if name == "list.append"@ {
                        JsonValue::Array(items.push(args[1]))
                    } else {
                        JsonValue::Array(remove_all(items, args[1]))
                    },
                ),
                _ => None,
            },
        )
    }
}

/// The map helpers: `None` for a name and arity that is none of them,
/// `Some(None)` where the first argument is not an object or the key is
/// not a string.
pub open spec fn map_builtin(name: Seq<char>, args: Seq<JsonValue>) -> Option<Option<JsonValue>> {
    let n = args.len();
    let binary = n == 2 && (name == "map.get"@ || name == "map.remove"@ || name == "map.containsKey"@);
    let ternary = n == 3 && name == "map.set"@;
    if !binary && !ternary {
        None
    } else {
        Some(
            match (args[0], args[1]) {
                (JsonValue::Object(ms), JsonValue::Str(k)) => Some(
                    if name == "map.get"@ {
                        map_get(ms, k)
                    } else if name == "map.containsKey"@ {
                        JsonValue::Bool(map_has(ms, k))
                    } else if name == "map.remove"@ {
                        JsonValue::Object(map_remove(ms, k))
                    } else {
                        JsonValue::Object(map_insert(ms, k, args[2]))
                    },
                ),
                _ => None,
            },
        )
    }
}

/// The text helpers: `None` for a name and arity that is none of them,
/// `Some(None)` where an argument is not a string.
pub open spec fn text_builtin(name: Seq<char>, args: Seq<JsonValue>) -> Option<Option<JsonValue>> {
    let n = args.len();
    if name == "text.trim"@ && n == 1 {
        Some(
            match args[0] {
                JsonValue::Str(s) => Some(JsonValue::Str(trim_spec(s))),
                _ => None,
            },
        )
    } else if n == 2 && (name == "text.contains"@ || name == "text.startsWith"@ || name == "text.endsWith"@
        || name == "text.matchesGlob"@) {
        Some(
            match (args[0], args[1]) {
                (JsonValue::Str(s), JsonValue::Str(t)) => Some(
                    JsonValue::Bool(
                        if name == "text.contains"@ {
                            contains_text(s, t)
                        } else if name == "text.startsWith"@ {
                            has_prefix(s, t)
                        } else if name == "text.endsWith"@ {
                            has_suffix(s, t)
                        } else {
                            glob_matches(t, s)
                        },
                    ),
                ),
                _ => None,
            },
        )
    } else {
        None
    }
}

/// What a built-in helper call gives on its evaluated arguments: `None`
/// where `name` with that many arguments is no helper; `Some(None)` where
/// an argument is not of the kind the helper takes (an unsupported
/// expression); otherwise the value. `now` answers the time helpers.
pub open spec fn builtin_spec(name: Seq<char>, args: Seq<JsonValue>, now: u64) -> Option<Option<JsonValue>> {
    if name == "now"@ && args.len() == 0 {
        Some(Some(count_value(now as nat)))
    } else if (name == "elapsedSince"@ || name == "time.elapsedSince"@) && args.len() == 1 {
        Some(elapsed_value(args[0], now))
    } else {
        match list_builtin(name, args) {
            Some(x) => Some(x),
            None => match map_builtin(name, args) {
                Some(x) => Some(x),
                None => text_builtin(name, args),
            },
        }
    }
}

/// Whether two JSON values are the same value.
pub fn json_eq(a: &Json, b: &Json) -> (r: bool)
    ensures
        r == (a.value() == b.value()),
    decreases a,
{
    match (a, b) {
        (Json::Null, Json::Null) => true,
        (Json::Bool(x), Json::Bool(y)) => *x == *y,
        (Json::Number(x), Json::Number(y)) => str_eq(x.as_str(), y.as_str()),
        (Json::Str(x), Json::Str(y)) => str_eq(x.as_str(), y.as_str()),
        (Json::Array(xs), Json::Array(ys)) => {
            if xs.len() != ys.len() {
                assert(a.value()->Array_0.len() != b.value()->Array_0.len());
                return false;
            }
            let mut i: usize = 0;
            while i < xs.len()
                invariant
                    i <= xs.len(),
                    xs.len() == ys.len(),
                    *a == Json::Array(*xs),
                    *b == Json::Array(*ys),
                    forall|k: int| 0 <= k < i ==> (#[trigger] xs@[k]).value() == ys@[k].value(),
                decreases xs.len() - i,
            {
                proof {
                    broadcast use vstd::std_specs::vec::axiom_vec_index_decreases;
                    assert(decreases_to!(*a => a->Array_0));
                    assert(decreases_to!(a->Array_0 => a->Array_0[i as int]));
                }
                if !json_eq(&xs[i], &ys[i]) {
                    assert(a.value()->Array_0[i as int] != b.value()->Array_0[i as int]);
                    return false;
                }
                i += 1;
            }
            assert(a.value()->Array_0 =~= b.value()->Array_0);
            true
        },
        (Json::Object(xs), Json::Object(ys)) => {
            if xs.len() != ys.len() {
                assert(a.value()->Object_0.len() != b.value()->Object_0.len());
                return false;
            }
            let mut i: usize = 0;
            while i < xs.len()
                invariant
                    i <= xs.len(),
                    xs.len() == ys.len(),
                    *a == Json::Object(*xs),
                    *b == Json::Object(*ys),
                    forall|k: int|
                        0 <= k < i ==> (#[trigger] xs@[k]).0@ == ys@[k].0@ && xs@[k].1.value() == ys@[k].1.value(),
                decreases xs.len() - i,
            {
                proof {
                    broadcast use vstd::std_specs::vec::axiom_vec_index_decreases;
                    assert(decreases_to!(*a => a->Object_0));
                    assert(decreases_to!(a->Object_0 => a->Object_0[i as int]));
                    assert(decreases_to!(a->Object_0[i as int] => a->Object_0[i as int].1));
                }
                if !str_eq(xs[i].0.as_str(), ys[i].0.as_str()) || !json_eq(&xs[i].1, &ys[i].1) {
                    assert(a.value()->Object_0[i as int] != b.value()->Object_0[i as int]);
                    return false;
                }
                i += 1;
            }
            assert(a.value()->Object_0 =~= b.value()->Object_0);
            true
        },
        _ => false,
    }
}

/// A count as a JSON number.
fn count_json(n: u64) -> (r: Json)
    ensures
        r.value() == count_value(n as nat),
{
    Json::Number(u64_to_decimal(n))
}

/// The items other than `x`, in order.
pub(crate) fn remove_all_json(items: &Vec<Json>, x: &Json) -> (r: Vec<Json>)
    ensures
        r@.map_values(|j: Json| j.value()) == remove_all(items@.map_values(|j: Json| j.value()), x.value()),
{
    let ghost iv = items@.map_values(|j: Json| j.value());
    let mut r: Vec<Json> = Vec::new();
    let mut i: usize = 0;
    while i < items.len()
        invariant
            i <= items.len(),
            iv == items@.map_values(|j: Json| j.value()),
            r@.map_values(|j: Json| j.value()) == remove_all(iv.subrange(0, i as int), x.value()),
        decreases items.len() - i,
    {
        proof {
            assert(iv.subrange(0, i + 1).drop_last() =~= iv.subrange(0, i as int));
            assert(iv.subrange(0, i + 1).last() == items@[i as int].value());
        }
        if !json_eq(&items[i], x) {
            let ghost before = r@.map_values(|j: Json| j.value());
            let item = items[i].deep_clone();
            r.push(item);
            assert(r@.map_values(|j: Json| j.value()) =~= before.push(items@[i as int].value()));
        }
        i += 1;
    }
    assert(iv.subrange(0, items.len() as int) =~= iv);
    r
}

/// The members of an object as the contracts read them.
pub open spec fn members_of(ms: Seq<(String, Json)>) -> Seq<(Seq<char>, JsonValue)> {
    ms.map_values(|m: (String, Json)| (m.0@, m.1.value()))
}

/// The value of the member `key`, or null.
pub(crate) fn map_get_json(ms: &Vec<(String, Json)>, key: &str) -> (r: Json)
    ensures
        r.value() == map_get(members_of(ms@), key@),
{
    let ghost mv = members_of(ms@);
    let mut i: usize = 0;
    assert(mv.subrange(0, mv.len() as int) =~= mv);
    while i < ms.len()
        invariant
            i <= ms.len(),
            mv == members_of(ms@),
            map_get(mv, key@) == map_get(mv.subrange(i as int, mv.len() as int), key@),
        decreases ms.len() - i,
    {
        let ghost rest = mv.subrange(i as int, mv.len() as int);
        assert(rest.drop_first() =~= mv.subrange(i + 1, mv.len() as int));
        assert(rest[0] == (ms@[i as int].0@, ms@[i as int].1.value()));
        if str_eq(ms[i].0.as_str(), key) {
            return ms[i].1.deep_clone();
        }
        i += 1;
    }
    Json::Null
}

/// Whether some member is `key`.
pub(crate) fn map_has_json(ms: &Vec<(String, Json)>, key: &str) -> (r: bool)
    ensures
        r == map_has(members_of(ms@), key@),
{
    let mut i: usize = 0;
    while i < ms.len()
        invariant
            i <= ms.len(),
            forall|k: int| 0 <= k < i ==> (#[trigger] ms@[k]).0@ != key@,
        decreases ms.len() - i,
    {
        if str_eq(ms[i].0.as_str(), key) {
            assert(members_of(ms@)[i as int].0 == key@);
            return true;
        }
        i += 1;
    }
    assert forall|k: int| 0 <= k < members_of(ms@).len() implies (#[trigger] members_of(ms@)[k]).0 != key@ by {
        assert(members_of(ms@)[k].0 == ms@[k].0@);
    }
    false
}

/// A copy of a member.
fn copy_member(m: &(String, Json)) -> (r: (String, Json))
    ensures
        (r.0@, r.1.value()) == (m.0@, m.1.value()),
{
    (m.0.clone(), m.1.deep_clone())
}

/// The members other than `key`, in order.
fn map_remove_json(ms: &Vec<(String, Json)>, key: &str) -> (r: Vec<(String, Json)>)
    ensures
        members_of(r@) == map_remove(members_of(ms@), key@),
{
    let ghost mv = members_of(ms@);
    let mut r: Vec<(String, Json)> = Vec::new();
    let mut i: usize = 0;
    while i < ms.len()
        invariant
            i <= ms.len(),
            mv == members_of(ms@),
            members_of(r@) == map_remove(mv.subrange(0, i as int), key@),
        decreases ms.len() - i,
    {
        proof {
            assert(mv.subrange(0, i + 1).drop_last() =~= mv.subrange(0, i as int));
            assert(mv.subrange(0, i + 1).last() == (ms@[i as int].0@, ms@[i as int].1.value()));
        }
        if !str_eq(ms[i].0.as_str(), key) {
            let ghost before = members_of(r@);
            let m = copy_member(&ms[i]);
            r.push(m);
            assert(members_of(r@) =~= before.push((ms@[i as int].0@, ms@[i as int].1.value())));
        }
        i += 1;
    }
    assert(mv.subrange(0, ms.len() as int) =~= mv);
    r
}

/// The members with `key` set to `v`.
pub(crate) fn map_insert_json(ms: &Vec<(String, Json)>, key: &str, v: &Json) -> (r: Vec<(String, Json)>)
    ensures
        members_of(r@) == map_insert(members_of(ms@), key@, v.value()),
{
    let ghost mv = members_of(ms@);
    let mut r: Vec<(String, Json)> = Vec::new();
    let mut i: usize = 0;
    assert(mv.subrange(0, mv.len() as int) =~= mv);
    while i < ms.len()
        invariant
            i <= ms.len(),
            mv == members_of(ms@),
            map_insert(mv, key@, v.value()) == members_of(r@) + map_insert(
                mv.subrange(i as int, mv.len() as int),
                key@,
                v.value(),
            ),
        decreases ms.len() - i,
    {
        let ghost rest = mv.subrange(i as int, mv.len() as int);
        assert(rest.drop_first() =~= mv.subrange(i + 1, mv.len() as int));
        assert(rest[0] == (ms@[i as int].0@, ms@[i as int].1.value()));
        let same = str_eq(ms[i].0.as_str(), key);
        let before_key = str_lt(key, ms[i].0.as_str());
        if same || before_key {
            let ghost prefix = members_of(r@);
            r.push((key.to_owned(), v.deep_clone()));
            let start = if same {
                i + 1
            } else {
                i
            };
            let mut k: usize = start;
            assert(members_of(r@) =~= prefix.push((key@, v.value())));
            assert(mv.subrange(start as int, mv.len() as int).subrange(0, 0) =~= Seq::<(Seq<char>, JsonValue)>::empty());
            while k < ms.len()
                invariant
                    start <= k <= ms.len(),
                    mv == members_of(ms@),
                    members_of(r@) == prefix.push((key@, v.value())) + mv.subrange(start as int, k as int),
                decreases ms.len() - k,
            {
                let ghost before = members_of(r@);
                let m = copy_member(&ms[k]);
                r.push(m);
                assert(members_of(r@) =~= before.push(mv[k as int]));
                assert(mv.subrange(start as int, k + 1) =~= mv.subrange(start as int, k as int).push(mv[k as int]));
                k += 1;
            }
            proof {
                if same {
                    assert(map_insert(rest, key@, v.value()) == seq![(key@, v.value())] + rest.drop_first());
                } else {
                    assert(map_insert(rest, key@, v.value()) == seq![(key@, v.value())] + rest);
                }
                assert(prefix.push((key@, v.value())) + mv.subrange(start as int, ms.len() as int) =~= prefix + (
                seq![(key@, v.value())] + mv.subrange(start as int, mv.len() as int)));
            }
            return r;
        }
        let ghost prefix = members_of(r@);
        let m = copy_member(&ms[i]);
        r.push(m);
        proof {
            assert(members_of(r@) =~= prefix.push(rest[0]));
            assert(map_insert(rest, key@, v.value()) == seq![rest[0]] + map_insert(rest.drop_first(), key@, v.value()));
            assert(prefix + (seq![rest[0]] + map_insert(rest.drop_first(), key@, v.value())) =~= prefix.push(rest[0])
                + map_insert(rest.drop_first(), key@, v.value()));
        }
        i += 1;
    }
    let ghost prefix = members_of(r@);
    r.push((key.to_owned(), v.deep_clone()));
    assert(members_of(r@) =~= prefix + seq![(key@, v.value())]);
    r
}

/// Whether `t` occurs in `s`.
pub(crate) fn contains_chars(s: &Vec<char>, t: &Vec<char>) -> (r: bool)
    ensures
        r == contains_text(s@, t@),
{
    if t.len() > s.len() {
        return false;
    }
    let last = s.len() - t.len();
    let mut i: usize = 0;
    while i < last
        invariant
            t.len() <= s.len(),
            last == s.len() - t.len(),
            i <= last,
            forall|k: int| 0 <= k < i ==> #[trigger] s@.subrange(k, k + t@.len()) != t@,
        decreases last - i,
    {
        if chars_match_at(s, i, t) {
            return true;
        }
        i += 1;
    }
    chars_match_at(s, last, t)
}

/// Reveals the helper names and tells apart those of one length.
proof fn lemma_helper_names()
    ensures
        "map.get"@ != "map.set"@,
        "list.length"@ != "list.append"@,
        "list.length"@ != "list.remove"@,
        "list.append"@ != "list.remove"@,
        "list.isEmpty"@ != "elapsedSince"@,
        "text.contains"@ != "list.contains"@,
        "text.endsWith"@ != "list.contains"@,
        "text.contains"@ != "text.endsWith"@,
        "text.startsWith"@ != "map.containsKey"@,
        "list.first"@ != "map.remove"@,
        "now"@.len() == 3,
        "elapsedSince"@.len() == 12,
        "time.elapsedSince"@.len() == 17,
        "list.length"@.len() == 11,
        "list.isEmpty"@.len() == 12,
        "list.contains"@.len() == 13,
        "list.append"@.len() == 11,
        "list.remove"@.len() == 11,
        "list.first"@.len() == 10,
        "map.get"@.len() == 7,
        "map.set"@.len() == 7,
        "map.remove"@.len() == 10,
        "map.containsKey"@.len() == 15,
        "text.trim"@.len() == 9,
        "text.contains"@.len() == 13,
        "text.startsWith"@.len() == 15,
        "text.endsWith"@.len() == 13,
        "text.matchesGlob"@.len() == 16,
{
    reveal_strlit("now");
    reveal_strlit("elapsedSince");
    reveal_strlit("time.elapsedSince");
    reveal_strlit("list.length");
    reveal_strlit("list.isEmpty");
    reveal_strlit("list.contains");
    reveal_strlit("list.append");
    reveal_strlit("list.remove");
    reveal_strlit("list.first");
    reveal_strlit("map.get");
    reveal_strlit("map.set");
    reveal_strlit("map.remove");
    reveal_strlit("map.containsKey");
    reveal_strlit("text.trim");
    reveal_strlit("text.contains");
    reveal_strlit("text.startsWith");
    reveal_strlit("text.endsWith");
    reveal_strlit("text.matchesGlob");
    assert("map.get"@[4] != "map.set"@[4]);
    assert("list.length"@[5] != "list.append"@[5]);
    assert("list.length"@[5] != "list.remove"@[5]);
    assert("list.append"@[5] != "list.remove"@[5]);
    assert("list.isEmpty"@[0] != "elapsedSince"@[0]);
    assert("text.contains"@[0] != "list.contains"@[0]);
    assert("text.endsWith"@[0] != "list.contains"@[0]);
    assert("text.contains"@[5] != "text.endsWith"@[5]);
    assert("text.startsWith"@[0] != "map.containsKey"@[0]);
    assert("list.first"@[0] != "map.remove"@[0]);
}

/// The view of a helper call's outcome.
pub open spec fn builtin_view(r: Option<Result<Json, InterpreterError>>) -> Option<Option<JsonValue>> {
    match r {
        None => None,
        Some(Ok(v)) => Some(Some(v.value())),
        Some(Err(_)) => Some(None),
    }
}

/// The values of a list of JSON values.
pub open spec fn values_of(v: Seq<Json>) -> Seq<JsonValue> {
    v.map_values(|j: Json| j.value())
}

/// Whether the list holds `x`.
pub(crate) fn list_contains(items: &Vec<Json>, x: &Json) -> (r: bool)
    ensures
        r == values_of(items@).contains(x.value()),
{
    let ghost iv = values_of(items@);
    let mut i: usize = 0;
    while i < items.len()
        invariant
            i <= items.len(),
            iv == values_of(items@),
            forall|k: int| 0 <= k < i ==> #[trigger] iv[k] != x.value(),
        decreases items.len() - i,
    {
        assert(iv[i as int] == items@[i as int].value());
        if json_eq(&items[i], x) {
            return true;
        }
        i += 1;
    }
    false
}

/// The list with `x` added at the end.
pub(crate) fn list_append(items: &Vec<Json>, x: &Json) -> (r: Vec<Json>)
    ensures
        values_of(r@) == values_of(items@).push(x.value()),
{
    let ghost iv = values_of(items@);
    let mut out: Vec<Json> = Vec::new();
    let mut i: usize = 0;
    while i < items.len()
        invariant
            i <= items.len(),
            iv == values_of(items@),
            values_of(out@) == iv.subrange(0, i as int),
        decreases items.len() - i,
    {
        let ghost before = values_of(out@);
        out.push(items[i].deep_clone());
        assert(values_of(out@) =~= before.push(iv[i as int]));
        assert(iv.subrange(0, i + 1) =~= iv.subrange(0, i as int).push(iv[i as int]));
        i += 1;
    }
    assert(iv.subrange(0, items.len() as int) =~= iv);
    let ghost before = values_of(out@);
    out.push(x.deep_clone());
    assert(values_of(out@) =~= before.push(x.value()));
    out
}

/// Calls a list helper.
fn call_list_builtin(name: &str, args: &Vec<Json>) -> (r: Option<Result<Json, InterpreterError>>)
    ensures
        builtin_view(r) == list_builtin(name@, values_of(args@)),
        r matches Some(Err(e)) ==> e is UnsupportedExpression,
{
    proof {
        lemma_helper_names();
    }
    let ghost av = values_of(args@);
    let n = args.len();
    let unary = n == 1 && (str_eq(name, "list.length") || str_eq(name, "list.isEmpty") || str_eq(name, "list.first"));
    let binary = n == 2 && (str_eq(name, "list.contains") || str_eq(name, "list.append") || str_eq(name, "list.remove"));
    if !unary && !binary {
        return None;
    }
    assert(av[0] == args@[0].value());
    let items = match &args[0] {
        Json::Array(items) => items,
        _ => {
            return Some(Err(InterpreterError::UnsupportedExpression));
        },
    };
    assert(av[0]->Array_0 =~= values_of(items@));
    let result = if str_eq(name, "list.length") {
        count_json(items.len() as u64)
    } else if str_eq(name, "list.isEmpty") {
        Json::Bool(items.len() == 0)
    } else if str_eq(name, "list.first") {
        if items.len() > 0 {
            assert(values_of(items@)[0] == items@[0].value());
            items[0].deep_clone()
        } else {
            Json::Null
        }
    } else {
        assert(av[1] == args@[1].value());
        if str_eq(name, "list.contains") {
            Json::Bool(list_contains(items, &args[1]))
        } else if str_eq(name, "list.append") {
            let out = list_append(items, &args[1]);
            let r = Json::Array(out);
            assert(r.value()->Array_0 =~= values_of(out@));
            r
        } else {
            let kept = remove_all_json(items, &args[1]);
            let r = Json::Array(kept);
            assert(r.value()->Array_0 =~= values_of(kept@));
            r
        }
    };
    Some(Ok(result))
}

/// Calls a map helper.
fn call_map_builtin(name: &str, args: &Vec<Json>) -> (r: Option<Result<Json, InterpreterError>>)
    ensures
        builtin_view(r) == map_builtin(name@, values_of(args@)),
        r matches Some(Err(e)) ==> e is UnsupportedExpression,
{
    proof {
        lemma_helper_names();
    }
    let ghost av = values_of(args@);
    let n = args.len();
    let binary = n == 2 && (str_eq(name, "map.get") || str_eq(name, "map.remove") || str_eq(name, "map.containsKey"));
    let ternary = n == 3 && str_eq(name, "map.set");
    if !binary && !ternary {
        return None;
    }
    assert(av[0] == args@[0].value() && av[1] == args@[1].value());
    let (ms, k) = match (&args[0], &args[1]) {
        (Json::Object(ms), Json::Str(k)) => (ms, k),
        _ => {
            return Some(Err(InterpreterError::UnsupportedExpression));
        },
    };
    assert(av[0]->Object_0 =~= members_of(ms@));
    let result = if str_eq(name, "map.get") {
        map_get_json(ms, k.as_str())
    } else if str_eq(name, "map.containsKey") {
        Json::Bool(map_has_json(ms, k.as_str()))
    } else if str_eq(name, "map.remove") {
        let kept = map_remove_json(ms, k.as_str());
        let r = Json::Object(kept);
        assert(r.value()->Object_0 =~= members_of(kept@));
        r
    } else {
        assert(av[2] == args@[2].value());
        let set = map_insert_json(ms, k.as_str(), &args[2]);
        let r = Json::Object(set);
        assert(r.value()->Object_0 =~= members_of(set@));
        r
    };
    Some(Ok(result))
}

/// Calls a text helper.
fn call_text_builtin(name: &str, args: &Vec<Json>) -> (r: Option<Result<Json, InterpreterError>>)
    ensures
        builtin_view(r) == text_builtin(name@, values_of(args@)),
        r matches Some(Err(e)) ==> e is UnsupportedExpression,
{
    proof {
        lemma_helper_names();
    }
    let ghost av = values_of(args@);
    let n = args.len();
    if str_eq(name, "text.trim") && n == 1 {
        assert(av[0] == args@[0].value());
        return Some(
            match &args[0] {
                Json::Str(s) => {
                    let t = trim_chars(&chars_of(s.as_str()));
                    Ok(Json::Str(string_from_chars(&t)))
                },
                _ => Err(InterpreterError::UnsupportedExpression),
            },
        );
    }
    let binary = n == 2 && (str_eq(name, "text.contains") || str_eq(name, "text.startsWith") || str_eq(
        name,
        "text.endsWith",
    ) || str_eq(name, "text.matchesGlob"));
    if !binary {
        return None;
    }
    assert(av[0] == args@[0].value() && av[1] == args@[1].value());
    match (&args[0], &args[1]) {
        (Json::Str(s), Json::Str(t)) => {
            let sc = chars_of(s.as_str());
            let tc = chars_of(t.as_str());
            let b = if str_eq(name, "text.contains") {
                contains_chars(&sc, &tc)
            } else if str_eq(name, "text.startsWith") {
                chars_starts_with(&sc, &tc)
            } else if str_eq(name, "text.endsWith") {
                chars_ends_with(&sc, &tc)
            } else {
                simple_glob_matches(t.as_str(), s.as_str())
            };
            Some(Ok(Json::Bool(b)))
        },
        _ => Some(Err(InterpreterError::UnsupportedExpression)),
    }
}

/// Calls a built-in helper on its evaluated arguments (`now` is the
/// current time in Unix milliseconds). `None` where `name` is no helper of
/// that many arguments; an argument of the wrong kind is an unsupported
/// expression.
pub fn call_builtin(name: &str, args: &Vec<Json>, now: u64) -> (r: Option<Result<Json, InterpreterError>>)
    ensures
        builtin_view(r) == builtin_spec(name@, values_of(args@), now),
        r matches Some(Err(e)) ==> e is UnsupportedExpression,
{
    proof {
        lemma_helper_names();
    }
    let ghost av = values_of(args@);
    if str_eq(name, "now") && args.len() == 0 {
        return Some(Ok(count_json(now)));
    }
    if (str_eq(name, "elapsedSince") || str_eq(name, "time.elapsedSince")) && args.len() == 1 {
        assert(av[0] == args@[0].value());
        return Some(
            match crate::engine::elapsed_millis_since_at(&args[0], now) {
                Ok(ms) => Ok(count_json(ms)),
                Err(_) => Err(InterpreterError::UnsupportedExpression),
            },
        );
    }
    match call_list_builtin(name, args) {
        Some(r) => {
            return Some(r);
        },
        None => {},
    }
    match call_map_builtin(name, args) {
        Some(r) => {
            return Some(r);
        },
        None => {},
    }
    call_text_builtin(name, args)
}


/// `list.isEmpty` tells whether a list has no items: it is true of the empty
/// list, false of any list something was appended to, and true only where
/// `list.length` of the same list is zero.
pub proof fn law_list_is_empty_means_no_items(xs: Seq<JsonValue>, v: JsonValue, now: u64)
    ensures
        builtin_spec("list.isEmpty"@, seq![JsonValue::Array(xs)], now) == Some(Some(JsonValue::Bool(xs.len() == 0))),
        builtin_spec("list.isEmpty"@, seq![JsonValue::Array(Seq::empty())], now) == Some(Some(JsonValue::Bool(true))),
        builtin_spec("list.isEmpty"@, seq![JsonValue::Array(xs.push(v))], now) == Some(Some(JsonValue::Bool(false))),
        builtin_spec("list.isEmpty"@, seq![JsonValue::Array(xs)], now) == Some(Some(JsonValue::Bool(true)))
            ==> builtin_spec("list.length"@, seq![JsonValue::Array(xs)], now) == Some(Some(count_value(0))),
        builtin_spec("list.append"@, seq![JsonValue::Array(xs), v], now) == Some(Some(JsonValue::Array(xs.push(v)))),
{
    lemma_helper_names();
    reveal_strlit("list.isEmpty");
    reveal_strlit("list.length");
    reveal_strlit("list.append");
    reveal_strlit("now");
    reveal_strlit("elapsedSince");
    reveal_strlit("time.elapsedSince");
    assert("list.isEmpty"@ != "now"@);
    assert("list.isEmpty"@ != "time.elapsedSince"@);
    assert("list.isEmpty"@ != "list.length"@) by {
        assert("list.isEmpty"@.len() != "list.length"@.len());
    }
    assert("list.isEmpty"@ != "list.first"@);
    assert("list.length"@ != "now"@);
    assert("list.length"@ != "elapsedSince"@);
    assert("list.length"@ != "time.elapsedSince"@);
    assert("list.append"@ != "list.length"@);
    assert("list.append"@ != "list.isEmpty"@);
    assert("list.append"@ != "list.first"@);
    assert("list.append"@ != "list.contains"@);
    assert("list.append"@ != "now"@);
    assert("list.append"@ != "elapsedSince"@);
    assert("list.append"@ != "time.elapsedSince"@);
    assert(xs.push(v).len() != 0);
}

} // verus!
