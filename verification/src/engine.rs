//! Pieces of the workflow engine that stand on their own: events raised by
//! `raise` effects, JSON pointers to data paths, duration texts, and the
//! summaries the status view shows of workflow data.
use vstd::prelude::*;
use crate::errors::{InterpreterError, RuntimeError};
use crate::events::{EffectRequest, EventSource, EventStatus, WorkflowEvent};
use crate::json::{Json, JsonValue};
use crate::selection::number_u64;
use crate::builtins::{map_get, map_get_json, map_has, map_has_json, map_insert, map_insert_json, members_of};
use crate::text::{chars_of, decimal, lemma_split_on_props, push_char, split_chars, split_on, string_from_chars, u64_to_decimal};

verus! {

/// A fresh ULID, as its 26-character Crockford base-32 text.
///
/// Calls `ulid::Ulid::new` and renders it with `Display`. The contract
/// claims only what the crate's encoder shows: the text is 26 characters
/// of its alphabet. Which ULID comes back depends on the clock and a
/// random source, and is not stated.
#[verifier::external_body]
pub(crate) fn new_ulid() -> (r: String)
    ensures
        r@.len() == 26,
        forall|i: int| 0 <= i < 26 ==> "0123456789ABCDEFGHJKMNPQRSTVWXYZ"@.contains(#[trigger] r@[i]),
{
    ulid::Ulid::new().to_string()
}

/// The event a `raise` effect raises, from the event that caused it: the
/// effect's arguments must be an object naming the `event` type; its
/// `payload` (an empty object where there is none) becomes the payload.
/// The new event is queued, raised by the runtime, correlated with the
/// source event's correlation (or the source event itself), caused by the
/// source event, and deduplicated by the effect's idempotency key.
pub open spec fn raised_event_ok(effect: EffectRequest, source_event: WorkflowEvent, event_id: Seq<char>, r: WorkflowEvent) -> bool {
    &&& r.event_id@ == event_id
    &&& r.workflow_id@ == effect.workflow_id@
    &&& Some(r.event_type@) == raised_event_type(effect.args)
    &&& r.payload.value() == raised_payload(effect.args)
    &&& r.source matches Some(s) && (s.kind@ == "runtime"@ && (s.name matches Some(n) && n@ == "raise"@))
    &&& r.occurred_at is None
    &&& r.enqueued_at is None
    &&& r.correlation_id matches Some(c) && c@ == match source_event.correlation_id {
        Some(sc) => sc@,
        None => source_event.event_id@,
    }
    &&& r.causation_id matches Some(c) && c@ == source_event.event_id@
    &&& r.dedupe_key matches Some(d) && d@ == effect.idempotency_key@
    &&& r.status == EventStatus::Queued
    &&& r.attempt_count == 0
    &&& r.last_error is None
}

/// The event type a `raise` effect names: its arguments must be an object
/// with a string `event`.
pub open spec fn raised_event_type(args: Json) -> Option<Seq<char>> {
    match args {
        Json::Object(_) => match args.get_spec("event"@) {
            Some(v) => v.str_spec(),
            None => None,
        },
        _ => None,
    }
}

/// The payload a `raise` effect gives its event.
pub open spec fn raised_payload(args: Json) -> JsonValue {
    match args.get_spec("payload"@) {
        Some(p) => p.value(),
        None => JsonValue::Object(Seq::empty()),
    }
}

/// The event a `raise` effect raises, with the given id; malformed
/// arguments are an error.
pub fn raised_event_with_id(effect: &EffectRequest, source_event: &WorkflowEvent, event_id: String) -> (r: Result<WorkflowEvent, RuntimeError>)
    ensures
        match raised_event_type(effect.args) {
            Some(_) => r matches Ok(e) && raised_event_ok(*effect, *source_event, event_id@, e),
            None => r matches Err(RuntimeError::MalformedRaisedEvent),
        },
{
    let event_type = match &effect.args {
        Json::Object(_) => match effect.args.get("event") {
            Some(v) => match v.as_str() {
                Some(t) => t,
                None => {
                    return Err(RuntimeError::MalformedRaisedEvent);
                },
            },
            None => {
                return Err(RuntimeError::MalformedRaisedEvent);
            },
        },
        _ => {
            return Err(RuntimeError::MalformedRaisedEvent);
        },
    };
    let payload = match effect.args.get("payload") {
        Some(p) => p.deep_clone(),
        None => {
            let empty = Json::Object(Vec::new());
            proof {
                assert(empty.value()->Object_0 =~= Seq::<(Seq<char>, JsonValue)>::empty());
            }
            empty
        },
    };
    let correlation_id = match &source_event.correlation_id {
        Some(c) => c.clone(),
        None => source_event.event_id.clone(),
    };
    Ok(WorkflowEvent {
        event_id,
        workflow_id: effect.workflow_id.clone(),
        event_type: event_type.to_owned(),
        payload,
        source: Some(EventSource { kind: "runtime".to_owned(), name: Some("raise".to_owned()) }),
        occurred_at: None,
        enqueued_at: None,
        correlation_id: Some(correlation_id),
        causation_id: Some(source_event.event_id.clone()),
        dedupe_key: Some(effect.idempotency_key.clone()),
        status: EventStatus::Queued,
        attempt_count: 0,
        last_error: None,
    })
}

/// The event a `raise` effect raises, with a fresh `evt_raise_` id.
pub fn raised_event_from_effect(effect: &EffectRequest, source_event: &WorkflowEvent) -> (r: Result<WorkflowEvent, RuntimeError>)
    ensures
        match raised_event_type(effect.args) {
            Some(_) => r matches Ok(e) && exists|ulid: Seq<char>|
                ulid.len() == 26 && #[trigger] raised_event_ok(*effect, *source_event, "evt_raise_"@ + ulid, e),
            None => r matches Err(RuntimeError::MalformedRaisedEvent),
        },
{
    let ulid = new_ulid();
    let mut id = "evt_raise_".to_owned();
    id.append(ulid.as_str());
    let r = raised_event_with_id(effect, source_event, id);
    proof {
        if let Ok(e) = &r {
            assert(raised_event_ok(*effect, *source_event, "evt_raise_"@ + ulid@, *e));
        }
    }
    r
}

/// What a character of a dotted data path becomes in a JSON pointer: a
/// `.` separates segments (`/`), and `~` and `/` are escaped (`~0`, `~1`).
pub open spec fn pointer_chars(c: char) -> Seq<char> {
    if c == '.' {
        seq!['/']
    } else if c == '~' {
        seq!['~', '0']
    } else if c == '/' {
        seq!['~', '1']
    } else {
        seq![c]
    }
}

/// The pointer text of a path's characters.
pub open spec fn pointer_of(path: Seq<char>) -> Seq<char>
    decreases path.len(),
{
    if path.len() == 0 {
        Seq::empty()
    } else {
        pointer_of(path.drop_last()) + pointer_chars(path.last())
    }
}

/// The JSON pointer of a dotted data path: `/` before each segment, with
/// `~` and `/` in segments escaped.
pub fn json_pointer(path: &str) -> (r: String)
    ensures
        r@ == seq!['/'] + pointer_of(path@),
{
    let cs = chars_of(path);
    let mut r = String::new();
    push_char(&mut r, '/');
    proof {
        reveal_strlit("");
        assert(r@ =~= seq!['/'] + pointer_of(cs@.subrange(0, 0)));
    }
    let mut i: usize = 0;
    while i < cs.len()
        invariant
            i <= cs.len(),
            cs@ == path@,
            r@ == seq!['/'] + pointer_of(cs@.subrange(0, i as int)),
        decreases cs.len() - i,
    {
        proof {
            assert(cs@.subrange(0, i + 1).drop_last() =~= cs@.subrange(0, i as int));
        }
        let c = cs[i];
        let ghost before = r@;
        if c == '.' {
            push_char(&mut r, '/');
        } else if c == '~' {
            push_char(&mut r, '~');
            push_char(&mut r, '0');
        } else if c == '/' {
            push_char(&mut r, '~');
            push_char(&mut r, '1');
        } else {
            push_char(&mut r, c);
        }
        assert(r@ =~= before + pointer_chars(c));
        i += 1;
    }
    assert(cs@.subrange(0, cs.len() as int) =~= cs@);
    r
}

/// What `root` becomes when the member reached by the keys `segs` is set to
/// `v`: an object member that is missing on the way is created as an empty
/// object; `None` where the way passes through a value that is not an
/// object.
pub open spec fn set_path(root: JsonValue, segs: Seq<Seq<char>>, v: JsonValue) -> Option<JsonValue>
    decreases segs.len(),
{
    if segs.len() == 0 {
        None
    } else {
        match root {
            JsonValue::Object(ms) => if segs.len() == 1 {
                Some(JsonValue::Object(map_insert(ms, segs[0], v)))
            } else {
                let child = if map_has(ms, segs[0]) {
                    map_get(ms, segs[0])
                } else {
                    JsonValue::Object(Seq::empty())
                };
                match set_path(child, segs.drop_first(), v) {
                    Some(c) => Some(JsonValue::Object(map_insert(ms, segs[0], c))),
                    None => None,
                }
            },
            _ => None,
        }
    }
}

/// The value reached from `root` by the keys `segs`, where every step is a
/// member of an object.
pub open spec fn get_path(root: JsonValue, segs: Seq<Seq<char>>) -> Option<JsonValue>
    decreases segs.len(),
{
    if segs.len() == 0 {
        Some(root)
    } else {
        match root {
            JsonValue::Object(ms) => if map_has(ms, segs[0]) {
                get_path(map_get(ms, segs[0]), segs.drop_first())
            } else {
                None
            },
            _ => None,
        }
    }
}

pub(crate) proof fn lemma_object_members(members: Vec<(String, Json)>)
    ensures
        Json::Object(members).value() == JsonValue::Object(members_of(members@)),
{
    let j = Json::Object(members);
    assert(j.value()->Object_0 =~= members_of(members@));
}

/// The value `root` becomes when the member reached by `segs[at..]` is set.
fn set_segments(root: &Json, segs: &Vec<Vec<char>>, at: usize, v: &Json) -> (r: Option<Json>)
    requires
        at < segs.len(),
    ensures
        match r {
            Some(j) => set_path(root.value(), segs@.map_values(|s: Vec<char>| s@).skip(at as int), v.value())
                == Some(j.value()),
            None => set_path(root.value(), segs@.map_values(|s: Vec<char>| s@).skip(at as int), v.value()) is None,
        },
    decreases segs.len() - at,
{
    let ghost sv = segs@.map_values(|s: Vec<char>| s@);
    let ghost rest = sv.skip(at as int);
    assert(rest[0] == segs@[at as int]@);
    assert(rest.drop_first() =~= sv.skip(at + 1));
    match root {
        Json::Object(ms) => {
            proof {
                lemma_object_members(*ms);
            }
            let key = string_from_chars(&segs[at]);
            if at + 1 == segs.len() {
                let set = map_insert_json(ms, key.as_str(), v);
                proof {
                    lemma_object_members(set);
                }
                Some(Json::Object(set))
            } else {
                let child = if map_has_json(ms, key.as_str()) {
                    map_get_json(ms, key.as_str())
                } else {
                    let empty: Vec<(String, Json)> = Vec::new();
                    proof {
                        lemma_object_members(empty);
                        assert(members_of(empty@) =~= Seq::empty());
                    }
                    Json::Object(empty)
                };
                match set_segments(&child, segs, at + 1, v) {
                    Some(c) => {
                        let set = map_insert_json(ms, key.as_str(), &c);
                        proof {
                            lemma_object_members(set);
                        }
                        Some(Json::Object(set))
                    },
                    None => None,
                }
            }
        },
        _ => None,
    }
}

/// Sets the member at a dotted data path below `root` to `value`, creating
/// missing objects on the way. A path that passes through a value that is
/// not an object is refused, and `root` is left as it was.
pub fn set_json_path(root: &mut Json, path: &str, value: Json) -> (r: Result<(), InterpreterError>)
    ensures
        match set_path(old(root).value(), split_on(path@, seq!['.']), value.value()) {
            Some(nv) => r is Ok && final(root).value() == nv,
            None => r == Err::<(), InterpreterError>(InterpreterError::UnsupportedExpression)
                && *final(root) == *old(root),
        },
{
    let cs = chars_of(path);
    let mut dots: Vec<char> = Vec::new();
    dots.push('.');
    let segs = split_chars(&cs, &dots);
    proof {
        lemma_split_on_props(path@, seq!['.']);
        assert(dots@ =~= seq!['.']);
        assert(segs@.map_values(|s: Vec<char>| s@).skip(0) =~= segs@.map_values(|s: Vec<char>| s@));
    }
    match set_segments(root, &segs, 0, &value) {
        Some(j) => {
            *root = j;
            Ok(())
        },
        None => Err(InterpreterError::UnsupportedExpression),
    }
}

/// How many leading characters of `s` are ASCII digits.
pub open spec fn digit_prefix_len(s: Seq<char>) -> int
    decreases s.len(),
{
    if s.len() == 0 || !('0' <= s[0] && s[0] <= '9') {
        0
    } else {
        1 + digit_prefix_len(s.drop_first())
    }
}

/// The milliseconds of a duration unit.
pub open spec fn unit_millis(unit: Seq<char>) -> Option<u64> {
    if unit == "ms"@ {
        Some(1)
    } else if unit == "s"@ {
        Some(1_000)
    } else if unit == "m"@ {
        Some(60_000)
    } else if unit == "h"@ {
        Some(3_600_000)
    } else if unit == "d"@ {
        Some(86_400_000)
    } else {
        None
    }
}

/// The milliseconds a duration text like `30s` or `5m` stands for: a
/// decimal amount then a unit (`ms`, `s`, `m`, `h`, `d`); `None` for any
/// other text or a result beyond 64 bits.
pub open spec fn duration_millis(s: Seq<char>) -> Option<u64> {
    let k = digit_prefix_len(s);
    match number_u64(s.subrange(0, k)) {
        Some(amount) => match unit_millis(s.subrange(k, s.len() as int)) {
            Some(m) => if amount * m <= u64::MAX {
                Some((amount * m) as u64)
            } else {
                None
            },
            None => None,
        },
        None => None,
    }
}

proof fn lemma_digit_prefix(s: Seq<char>, i: int)
    requires
        0 <= i <= s.len(),
        forall|j: int| 0 <= j < i ==> '0' <= #[trigger] s[j] && s[j] <= '9',
        i == s.len() || !('0' <= s[i] && s[i] <= '9'),
    ensures
        digit_prefix_len(s) == i,
    decreases i,
{
    if i > 0 {
        lemma_digit_prefix(s.drop_first(), i - 1);
    }
}

/// The milliseconds a duration text stands for.
pub fn parse_duration_millis(value: &str) -> (r: Option<u64>)
    ensures
        r == duration_millis(value@),
{
    let cs = chars_of(value);
    let mut k: usize = 0;
    while k < cs.len() && '0' <= cs[k] && cs[k] <= '9'
        invariant
            k <= cs.len(),
            forall|j: int| 0 <= j < k ==> '0' <= #[trigger] cs@[j] && cs@[j] <= '9',
        decreases cs.len() - k,
    {
        k += 1;
    }
    proof {
        lemma_digit_prefix(cs@, k as int);
    }
    let digits = crate::text::chars_slice(&cs, 0, k);
    let digits_text = crate::text::string_from_chars(&digits);
    let amount = match crate::selection::parse_u64_text(digits_text.as_str()) {
        Some(a) => a,
        None => {
            return None;
        },
    };
    let unit_chars = crate::text::chars_slice(&cs, k, cs.len());
    let unit = crate::text::string_from_chars(&unit_chars);
    let multiplier: u64 = if crate::text::str_eq(unit.as_str(), "ms") {
        1
    } else if crate::text::str_eq(unit.as_str(), "s") {
        1_000
    } else if crate::text::str_eq(unit.as_str(), "m") {
        60_000
    } else if crate::text::str_eq(unit.as_str(), "h") {
        3_600_000
    } else if crate::text::str_eq(unit.as_str(), "d") {
        86_400_000
    } else {
        return None;
    };
    amount.checked_mul(multiplier)
}

/// How many milliseconds have passed since a recorded start, at `now`: a
/// null start counts as forever (`u64::MAX`); a start that is not an
/// unsigned integer is an unsupported expression; a start after `now`
/// counts as none.
pub fn elapsed_millis_since_at(value: &Json, now: u64) -> (r: Result<u64, InterpreterError>)
    ensures
        match *value {
            Json::Null => r == Ok::<u64, InterpreterError>(u64::MAX),
            Json::Number(n) => match number_u64(n@) {
                Some(start) => r == Ok::<u64, InterpreterError>(if start >= now {
                    0
                } else {
                    (now - start) as u64
                }),
                None => r matches Err(InterpreterError::UnsupportedExpression),
            },
            _ => r matches Err(InterpreterError::UnsupportedExpression),
        },
{
    match value {
        Json::Null => Ok(u64::MAX),
        Json::Number(n) => match crate::selection::parse_u64_text(n.as_str()) {
            Some(start) => Ok(if start >= now {
                0
            } else {
                now - start
            }),
            None => Err(InterpreterError::UnsupportedExpression),
        },
        _ => Err(InterpreterError::UnsupportedExpression),
    }
}

/// What the status view shows of a value of workflow data: an array as its
/// length, an object as `{"fields": <member count>}`, anything else as it
/// is.
pub open spec fn status_summary(v: JsonValue) -> JsonValue {
    match v {
        JsonValue::Array(items) => JsonValue::Number(decimal(items.len())),
        JsonValue::Object(members) => JsonValue::Object(seq![("fields"@, JsonValue::Number(decimal(members.len())))]),
        _ => v,
    }
}

/// The status view's summary of one value of workflow data.
pub fn summarize_status_value(value: &Json) -> (r: Json)
    ensures
        r.value() == status_summary(value.value()),
{
    match value {
        Json::Array(items) => {
            let n = u64_to_decimal(items.len() as u64);
            Json::Number(n)
        },
        Json::Object(members) => {
            let n = u64_to_decimal(members.len() as u64);
            let mut ms: Vec<(String, Json)> = Vec::new();
            ms.push(("fields".to_owned(), Json::Number(n)));
            let r = Json::Object(ms);
            proof {
                let s2 = r.value()->Object_0;
                assert(s2.len() == 1);
                assert(ms@[0].1.value() == JsonValue::Number(decimal(members@.len() as nat)));
                assert(s2 =~= seq![("fields"@, JsonValue::Number(decimal(members@.len() as nat)))]);
            }
            r
        },
        _ => value.deep_clone(),
    }
}

/// The status view's summary of workflow data, entry by entry.
pub fn summarize_status_data(data: &Vec<(String, Json)>) -> (r: Vec<(String, Json)>)
    ensures
        r.len() == data.len(),
        forall|i: int| 0 <= i < r.len() ==> (#[trigger] r@[i]).0@ == data@[i].0@ && r@[i].1.value()
            == status_summary(data@[i].1.value()),
{
    let mut r: Vec<(String, Json)> = Vec::new();
    let mut i: usize = 0;
    while i < data.len()
        invariant
            i <= data.len(),
            r.len() == i,
            forall|j: int| 0 <= j < i ==> (#[trigger] r@[j]).0@ == data@[j].0@ && r@[j].1.value()
                == status_summary(data@[j].1.value()),
        decreases data.len() - i,
    {
        let summary = summarize_status_value(&data[i].1);
        r.push((data[i].0.clone(), summary));
        i += 1;
    }
    r
}

} // verus!
