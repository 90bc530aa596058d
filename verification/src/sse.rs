//! Collapsing a Responses-API server-sent event stream into one
//! `response`-shaped value: the data payloads of its lines, the events they
//! carry folded together, and the value assembled from the fold.
use vstd::prelude::*;
use crate::json::{Json, JsonValue};
use crate::lines::{lines_of, lines_spec};
use crate::order::views;
use crate::text::{chars_eq, chars_starts_with, chars_slice, has_prefix, string_from_chars, trim_chars, trim_spec};

verus! {

/// The data payload of one stream line: the trimmed line must start with
/// `data:`; what follows, trimmed, is the payload unless it is empty or
/// `[DONE]`.
pub open spec fn sse_payload(line: Seq<char>) -> Option<Seq<char>> {
    let t = trim_spec(line);
    if has_prefix(t, "data:"@) {
        let p = trim_spec(t.subrange(5, t.len() as int));
        if p.len() == 0 || p == "[DONE]"@ {
            None
        } else {
            Some(p)
        }
    } else {
        None
    }
}

/// The data payloads of the lines, in order.
pub open spec fn sse_payloads(lines: Seq<Seq<char>>) -> Seq<Seq<char>>
    decreases lines.len(),
{
    if lines.len() == 0 {
        Seq::empty()
    } else {
        let rest = sse_payloads(lines.drop_last());
        match sse_payload(lines.last()) {
            Some(p) => rest.push(p),
            None => rest,
        }
    }
}

/// The data payloads of a raw event stream, in order.
pub fn sse_data_payloads(raw: &str) -> (r: Vec<String>)
    ensures
        views(r@) == sse_payloads(lines_spec(raw@)),
{
    let lines = lines_of(raw);
    let ghost lv = lines@.map_values(|v: Vec<char>| v@);
    let data = vec!['d', 'a', 't', 'a', ':'];
    let done = vec!['[', 'D', 'O', 'N', 'E', ']'];
    proof {
        reveal_strlit("data:");
        reveal_strlit("[DONE]");
        assert(data@ =~= "data:"@);
        assert(done@ =~= "[DONE]"@);
    }
    let mut r: Vec<String> = Vec::new();
    let mut i: usize = 0;
    while i < lines.len()
        invariant
            i <= lines.len(),
            lv == lines@.map_values(|v: Vec<char>| v@),
            data@ == "data:"@,
            done@ == "[DONE]"@,
            views(r@) == sse_payloads(lv.subrange(0, i as int)),
        decreases lines.len() - i,
    {
        proof {
            assert(lv.subrange(0, i + 1).drop_last() =~= lv.subrange(0, i as int));
            assert(lv.subrange(0, i + 1).last() == lines@[i as int]@);
        }
        let t = trim_chars(&lines[i]);
        if chars_starts_with(&t, &data) {
            proof {
                reveal_strlit("data:");
            }
            let rest = chars_slice(&t, 5, t.len());
            let p = trim_chars(&rest);
            if p.len() > 0 && !chars_eq(&p, &done) {
                let ghost before = r@;
                r.push(string_from_chars(&p));
                assert(views(r@) =~= views(before).push(p@));
            }
        }
        i += 1;
    }
    assert(lv.subrange(0, lines.len() as int) =~= lv);
    r
}

/// The member `key` of a JSON value, if it is an object that has one.
pub open spec fn jv_get(v: JsonValue, key: Seq<char>) -> Option<JsonValue> {
    match v {
        JsonValue::Object(members) => jv_member(members, key),
        _ => None,
    }
}

/// The value of the first member named `key`.
pub open spec fn jv_member(members: Seq<(Seq<char>, JsonValue)>, key: Seq<char>) -> Option<JsonValue>
    decreases members.len(),
{
    if members.len() == 0 {
        None
    } else if members[0].0 == key {
        Some(members[0].1)
    } else {
        jv_member(members.drop_first(), key)
    }
}

/// What the events have gathered: the last `response.completed` response
/// (`None` also where that event had none), the text deltas in order, and
/// the items of `response.output_item.done` events.
pub struct SseFoldView {
    pub completed: Option<JsonValue>,
    pub deltas: Seq<char>,
    pub items: Seq<JsonValue>,
}

/// The `type` of an event.
pub open spec fn event_type(e: Json) -> Option<Seq<char>> {
    match e.get_spec("type"@) {
        Some(t) => t.str_spec(),
        None => None,
    }
}

/// The events folded in order.
pub open spec fn sse_fold(events: Seq<Json>) -> SseFoldView
    decreases events.len(),
{
    if events.len() == 0 {
        SseFoldView { completed: None, deltas: Seq::empty(), items: Seq::empty() }
    } else {
        let st = sse_fold(events.drop_last());
        let e = events.last();
        match event_type(e) {
            Some(t) => if t == "response.completed"@ {
                SseFoldView {
                    completed: match e.get_spec("response"@) {
                        Some(r) => Some(r.value()),
                        None => None,
                    },
                    ..st
                }
            } else if t == "response.output_text.delta"@ {
                match e.get_spec("delta"@) {
                    Some(d) => match d.str_spec() {
                        Some(text) => SseFoldView { deltas: st.deltas + text, ..st },
                        None => st,
                    },
                    None => st,
                }
            } else if t == "response.output_item.done"@ {
                match e.get_spec("item"@) {
                    Some(item) => SseFoldView { items: st.items.push(item.value()), ..st },
                    None => st,
                }
            } else {
                st
            },
            None => st,
        }
    }
}

/// The fold of a stream's events.
#[derive(Debug)]
pub struct SseFold {
    pub completed: Option<Json>,
    pub deltas: String,
    pub items: Vec<Json>,
}

/// The view of a fold.
pub open spec fn fold_view(f: SseFold) -> SseFoldView {
    SseFoldView {
        completed: match f.completed {
            Some(c) => Some(c.value()),
            None => None,
        },
        deltas: f.deltas@,
        items: f.items@.map_values(|j: Json| j.value()),
    }
}

/// Folds the parsed events of a stream.
pub fn fold_sse_events(events: &Vec<Json>) -> (r: SseFold)
    ensures
        fold_view(r) == sse_fold(events@),
{
    let mut completed: Option<Json> = None;
    let mut deltas = String::new();
    let mut items: Vec<Json> = Vec::new();
    proof {
        reveal_strlit("");
        assert(deltas@ =~= Seq::<char>::empty());
        assert(items@.map_values(|j: Json| j.value()) =~= Seq::<JsonValue>::empty());
    }
    let mut i: usize = 0;
    while i < events.len()
        invariant
            i <= events.len(),
            fold_view(SseFold { completed, deltas, items }) == sse_fold(events@.subrange(0, i as int)),
        decreases events.len() - i,
    {
        proof {
            assert(events@.subrange(0, i + 1).drop_last() =~= events@.subrange(0, i as int));
            assert(events@.subrange(0, i + 1).last() == events@[i as int]);
        }
        let e = &events[i];
        let t = match e.get("type") {
            Some(v) => v.as_str(),
            None => None,
        };
        match t {
            Some(t) => {
                if crate::text::str_eq(t, "response.completed") {
                    completed = match e.get("response") {
                        Some(r) => Some(r.deep_clone()),
                        None => None,
                    };
                } else if crate::text::str_eq(t, "response.output_text.delta") {
                    match e.get("delta") {
                        Some(d) => match d.as_str() {
                            Some(text) => {
                                deltas.append(text);
                            },
                            None => {},
                        },
                        None => {},
                    }
                } else if crate::text::str_eq(t, "response.output_item.done") {
                    match e.get("item") {
                        Some(item) => {
                            let ghost before = items@;
                            items.push(item.deep_clone());
                            assert(items@.map_values(|j: Json| j.value()) =~= before.map_values(|j: Json| j.value()).push(
                                item.value(),
                            ));
                        },
                        None => {},
                    }
                }
            },
            None => {},
        }
        i += 1;
    }
    assert(events@.subrange(0, events.len() as int) =~= events@);
    SseFold { completed, deltas, items }
}

/// The index of the first member named `key`.
pub open spec fn member_index(ms: Seq<(Seq<char>, JsonValue)>, key: Seq<char>) -> Option<int> {
    if exists|i: int| 0 <= i < ms.len() && #[trigger] ms[i].0 == key {
        Some(choose|i: int| 0 <= i < ms.len() && #[trigger] ms[i].0 == key && forall|j: int| 0 <= j < i ==> ms[j].0 != key)
    } else {
        None
    }
}

/// The member `key` of a JSON value, if it is an object that has one.
pub open spec fn jv_field(v: JsonValue, key: Seq<char>) -> Option<JsonValue> {
    match v {
        JsonValue::Object(ms) => match member_index(ms, key) {
            Some(i) => Some(ms[i].1),
            None => None,
        },
        _ => None,
    }
}

/// A value with member `key` set to `x`: a null becomes an object of that
/// one member; an object has its first such member replaced, or gains one
/// at the end.
pub open spec fn jv_set(v: JsonValue, key: Seq<char>, x: JsonValue) -> JsonValue {
    match v {
        JsonValue::Object(ms) => JsonValue::Object(
            match member_index(ms, key) {
                Some(i) => ms.update(i, (key, x)),
                None => ms.push((key, x)),
            },
        ),
        _ => JsonValue::Object(seq![(key, x)]),
    }
}

/// The completed response as assembly reads it, with the collected items
/// put in as its `output` where it had none.
pub open spec fn completed_with_items(f: SseFoldView) -> JsonValue {
    let c = match f.completed {
        Some(v) => v,
        None => JsonValue::Null,
    };
    let output_missing = match jv_field(c, "output"@) {
        Some(JsonValue::Array(a)) => a.len() == 0,
        _ => true,
    };
    if output_missing && f.items.len() > 0 {
        jv_set(c, "output"@, JsonValue::Array(f.items))
    } else {
        c
    }
}

/// Assembly needs to set `output` on the completed response, which is
/// then neither null nor an object: the stream cannot be assembled.
pub open spec fn assembly_defined(f: SseFoldView) -> bool {
    let c = match f.completed {
        Some(v) => v,
        None => JsonValue::Null,
    };
    let output_missing = match jv_field(c, "output"@) {
        Some(JsonValue::Array(a)) => a.len() == 0,
        _ => true,
    };
    !(output_missing && f.items.len() > 0) || c is Null || c is Object
}

/// The response a fold assembles to: with text deltas, an object of the
/// text, the completed response's `usage` (null where none) and its
/// `output` where it has one; without, the completed response itself.
pub open spec fn sse_assembled(f: SseFoldView) -> JsonValue {
    let c = completed_with_items(f);
    if f.deltas.len() > 0 {
        let base = seq![
            ("output_text"@, JsonValue::Str(f.deltas)),
            ("usage"@, match jv_field(c, "usage"@) {
                Some(u) => u,
                None => JsonValue::Null,
            }),
        ];
        JsonValue::Object(
            match jv_field(c, "output"@) {
                Some(o) => base.push(("output"@, o)),
                None => base,
            },
        )
    } else {
        c
    }
}

/// The values of an object's members.
pub open spec fn members_value(ms: Seq<(String, Json)>) -> Seq<(Seq<char>, JsonValue)> {
    Seq::new(
        ms.len(),
        |i: int|
            if 0 <= i < ms.len() {
                (ms[i].0@, ms[i].1.value())
            } else {
                (Seq::empty(), JsonValue::Null)
            },
    )
}

pub proof fn lemma_object_value(ms: Vec<(String, Json)>)
    ensures
        Json::Object(ms).value() == JsonValue::Object(members_value(ms@)),
{
    assert(Json::Object(ms).value()->Object_0 =~= members_value(ms@));
}

/// The first member with a key, found by a scan, is the one
/// `member_index` names.
pub proof fn lemma_member_index(ms: Seq<(Seq<char>, JsonValue)>, key: Seq<char>, i: int)
    requires
        0 <= i < ms.len(),
        ms[i].0 == key,
        forall|j: int| 0 <= j < i ==> ms[j].0 != key,
    ensures
        member_index(ms, key) == Some(i),
{
    let c = choose|c: int| 0 <= c < ms.len() && #[trigger] ms[c].0 == key && forall|j: int| 0 <= j < c ==> ms[j].0 != key;
    assert(0 <= i < ms.len() && ms[i].0 == key && forall|j: int| 0 <= j < i ==> ms[j].0 != key);
}

/// The index of the first member named `key`.
fn find_member(ms: &Vec<(String, Json)>, key: &str) -> (r: Option<usize>)
    ensures
        match r {
            Some(i) => i < ms.len() && member_index(members_value(ms@), key@) == Some(i as int),
            None => member_index(members_value(ms@), key@) is None,
        },
{
    let ghost mv = members_value(ms@);
    let mut i: usize = 0;
    while i < ms.len()
        invariant
            i <= ms.len(),
            mv == members_value(ms@),
            forall|j: int| 0 <= j < i ==> mv[j].0 != key@,
        decreases ms.len() - i,
    {
        assert(mv[i as int].0 == ms@[i as int].0@);
        if crate::text::str_eq(ms[i].0.as_str(), key) {
            proof {
                lemma_member_index(mv, key@, i as int);
            }
            return Some(i);
        }
        i += 1;
    }
    None
}

/// The member `key` of a JSON value, copied.
pub fn field_copy(v: &Json, key: &str) -> (r: Option<Json>)
    ensures
        match r {
            Some(x) => jv_field(v.value(), key@) == Some(x.value()),
            None => jv_field(v.value(), key@) is None,
        },
{
    match v {
        Json::Object(ms) => {
            proof {
                lemma_object_value(*ms);
            }
            match find_member(ms, key) {
                Some(i) => Some(ms[i].1.deep_clone()),
                None => None,
            }
        },
        _ => None,
    }
}

/// Sets member `key` of a null or an object.
fn set_field(v: Json, key: &str, x: Json) -> (r: Json)
    requires
        v is Null || v is Object,
    ensures
        r.value() == jv_set(v.value(), key@, x.value()),
{
    match v {
        Json::Object(ms) => {
            let mut ms = ms;
            proof {
                lemma_object_value(ms);
            }
            let ghost before = members_value(ms@);
            match find_member(&ms, key) {
                Some(i) => {
                    ms.set(i, (key.to_owned(), x));
                    proof {
                        lemma_object_value(ms);
                        assert(members_value(ms@) =~= before.update(i as int, (key@, x.value())));
                    }
                },
                None => {
                    ms.push((key.to_owned(), x));
                    proof {
                        lemma_object_value(ms);
                        assert(members_value(ms@) =~= before.push((key@, x.value())));
                    }
                },
            }
            Json::Object(ms)
        },
        _ => {
            let mut ms: Vec<(String, Json)> = Vec::new();
            ms.push((key.to_owned(), x));
            proof {
                lemma_object_value(ms);
                assert(members_value(ms@) =~= seq![(key@, x.value())]);
            }
            Json::Object(ms)
        },
    }
}

/// Whether a fold can be assembled (see `assembly_defined`).
pub fn sse_assembly_defined(fold: &SseFold) -> (r: bool)
    ensures
        r == assembly_defined(fold_view(*fold)),
{
    let c = match &fold.completed {
        Some(v) => v.deep_clone(),
        None => Json::Null,
    };
    let output_missing = match field_copy(&c, "output") {
        Some(Json::Array(a)) => {
            proof {
                assert(Json::Array(a).value()->Array_0.len() == a@.len());
            }
            a.len() == 0
        },
        _ => true,
    };
    let null_or_object = match c {
        Json::Null => true,
        Json::Object(_) => true,
        _ => false,
    };
    !(output_missing && fold.items.len() > 0) || null_or_object
}

/// The response a stream's fold assembles to: the text deltas, when there
/// are any, with the completed response's `usage` and `output`; otherwise
/// the completed response (null where there was none). Items collected
/// from `response.output_item.done` events become the completed response's
/// `output` where it had none.
pub fn assemble_sse(fold: SseFold) -> (r: Json)
    requires
        assembly_defined(fold_view(fold)),
    ensures
        r.value() == sse_assembled(fold_view(fold)),
{
    let ghost fv = fold_view(fold);
    let SseFold { completed, deltas, items } = fold;
    let c = match completed {
        Some(v) => v,
        None => Json::Null,
    };
    let output_missing = match field_copy(&c, "output") {
        Some(Json::Array(a)) => {
            proof {
                assert(Json::Array(a).value()->Array_0.len() == a@.len());
            }
            a.len() == 0
        },
        _ => true,
    };
    let c2 = if output_missing && items.len() > 0 {
        let ghost iv = items@.map_values(|j: Json| j.value());
        let arr = Json::Array(items);
        proof {
            assert(arr.value()->Array_0 =~= iv);
        }
        set_field(c, "output", arr)
    } else {
        c
    };
    assert(c2.value() == completed_with_items(fv));
    if deltas.as_str().is_empty() {
        return c2;
    }
    let usage = match field_copy(&c2, "usage") {
        Some(u) => u,
        None => Json::Null,
    };
    let output = field_copy(&c2, "output");
    let mut ms: Vec<(String, Json)> = Vec::new();
    ms.push(("output_text".to_owned(), Json::Str(deltas)));
    ms.push(("usage".to_owned(), usage));
    match output {
        Some(o) => {
            ms.push(("output".to_owned(), o));
        },
        None => {},
    }
    proof {
        lemma_object_value(ms);
    }
    let r = Json::Object(ms);
    proof {
        assert(members_value(ms@) =~= sse_assembled(fv)->Object_0);
    }
    r
}


/// Folding is compositional in its text and items: folding `e1 ++ e2`
/// gathers the deltas of `e1` followed by those of `e2`, and likewise the
/// items; so the folded text is every delta of the stream concatenated in
/// order, none dropped or replaced.
pub proof fn law_fold_concatenates_deltas(e1: Seq<Json>, e2: Seq<Json>)
    ensures
        sse_fold(e1 + e2).deltas == sse_fold(e1).deltas + sse_fold(e2).deltas,
        sse_fold(e1 + e2).items == sse_fold(e1).items + sse_fold(e2).items,
    decreases e2.len(),
{
    if e2.len() == 0 {
        assert(e1 + e2 =~= e1);
        assert(sse_fold(e1).deltas + sse_fold(e2).deltas =~= sse_fold(e1).deltas);
        assert(sse_fold(e1).items + sse_fold(e2).items =~= sse_fold(e1).items);
    } else {
        let all = e1 + e2;
        assert(all.drop_last() =~= e1 + e2.drop_last());
        assert(all.last() == e2.last());
        law_fold_concatenates_deltas(e1, e2.drop_last());
        let a = sse_fold(e1);
        let b = sse_fold(e2.drop_last());
        assert(forall|t: Seq<char>| #![auto] a.deltas + b.deltas + t =~= a.deltas + (b.deltas + t));
        assert(forall|x: JsonValue| #![auto] (a.items + b.items).push(x) =~= a.items + b.items.push(x));
    }
}

/// One delta event appends exactly its text to what was folded before it.
pub proof fn law_delta_appends_its_text(events: Seq<Json>, e: Json, text: Seq<char>)
    requires
        event_type(e) == Some("response.output_text.delta"@),
        e.get_spec("delta"@) matches Some(d) && d.str_spec() == Some(text),
    ensures
        sse_fold(events.push(e)).deltas == sse_fold(events).deltas + text,
{
    reveal_strlit("response.output_text.delta");
    reveal_strlit("response.completed");
    assert("response.output_text.delta"@ != "response.completed"@) by {
        assert("response.output_text.delta"@.len() != "response.completed"@.len());
    }
    assert(events.push(e).drop_last() =~= events);
}

} // verus!
