//! The credential-free fixture model client and the host that echoes its
//! requests: the scripted reply is encoded into the request body, and
//! reading the echoed body back gives the same reply.
use vstd::prelude::*;
use crate::json::{Json, JsonValue};
use crate::sse::{field_copy, jv_field, lemma_member_index, lemma_object_value, members_value, member_index};
use crate::text::{chars_of, chars_slice, string_from_chars};

verus! {

/// One tool call a model asks for.
#[derive(Debug)]
pub struct ToolCall {
    pub id: String,
    pub name: String,
    pub arguments: Json,
}

/// What a model answered: text, tool calls and usage.
#[derive(Debug)]
pub struct ModelReply {
    pub text: String,
    pub tool_calls: Vec<ToolCall>,
    pub usage: Json,
}

/// A model call that failed.
#[derive(Debug)]
pub enum HarnessModelError {
    Transport(String),
}

/// An HTTP request to a model endpoint.
#[derive(Debug)]
pub struct HttpRequest {
    pub url: String,
    pub headers: Vec<(String, String)>,
    pub body: Json,
}

/// An HTTP response from a model endpoint.
#[derive(Debug)]
pub struct HttpResponse {
    pub status: u16,
    pub body: Json,
}

/// A tool call as the contracts read it.
pub open spec fn call_view(c: ToolCall) -> (Seq<char>, Seq<char>, JsonValue) {
    (c.id@, c.name@, c.arguments.value())
}

/// A reply as the contracts read it.
pub open spec fn reply_view(r: ModelReply) -> (Seq<char>, Seq<(Seq<char>, Seq<char>, JsonValue)>, JsonValue) {
    (r.text@, r.tool_calls@.map_values(|c: ToolCall| call_view(c)), r.usage.value())
}

/// The deterministic fixture model: it completes at once, or, with a
/// scripted tool call, makes that call on its first reply.
#[derive(Debug)]
pub struct FixtureModelClient {
    pub tool: Option<(String, String, Json)>,
}

/// The usage every fixture reply reports.
pub open spec fn fixture_usage() -> JsonValue {
    JsonValue::Object(seq![("output_tokens"@, JsonValue::Number("1"@))])
}

/// The text of a completing fixture reply.
pub open spec fn fixture_done_text() -> Seq<char> {
    "owned-harness fixture turn complete"@
}

/// The fixture's reply: the scripted call while the model has not acted
/// yet, otherwise completion.
pub open spec fn fixture_reply(client: FixtureModelClient, already_acted: bool) -> (Seq<char>, Seq<(Seq<char>, Seq<char>, JsonValue)>, JsonValue) {
    match client.tool {
        Some((id, name, args)) => if !already_acted {
            (Seq::empty(), seq![(id@, name@, args.value())], fixture_usage())
        } else {
            (fixture_done_text(), Seq::empty(), fixture_usage())
        },
        None => (fixture_done_text(), Seq::empty(), fixture_usage()),
    }
}

fn usage_json() -> (r: Json)
    ensures
        r.value() == fixture_usage(),
{
    let mut ms: Vec<(String, Json)> = Vec::new();
    ms.push(("output_tokens".to_owned(), Json::Number("1".to_owned())));
    proof {
        lemma_object_value(ms);
        assert(members_value(ms@) =~= seq![("output_tokens"@, JsonValue::Number("1"@))]);
    }
    Json::Object(ms)
}

impl FixtureModelClient {
    /// The scripted call `WHIPPLESCRIPT_OWNED_FIXTURE_TOOL=<tool>:<rest>`
    /// makes, given what parsing `<rest>` as JSON gave: a JSON object is
    /// the call's arguments as it is; anything else is `{"path": <rest>}`.
    pub fn from_tool_spec(name: &str, rest: &str, parsed_rest: Option<Json>) -> (r: Self)
        ensures
            r.tool matches Some(t) && t.0@ == "fixture_call_1"@ && t.1@ == name@ && t.2.value() == (match parsed_rest {
                Some(Json::Object(m)) => Json::Object(m).value(),
                _ => JsonValue::Object(seq![("path"@, JsonValue::Str(rest@))]),
            }),
    {
        let arguments = match parsed_rest {
            Some(Json::Object(m)) => Json::Object(m),
            _ => {
                let mut ms: Vec<(String, Json)> = Vec::new();
                ms.push(("path".to_owned(), Json::Str(rest.to_owned())));
                proof {
                    lemma_object_value(ms);
                    assert(members_value(ms@) =~= seq![("path"@, JsonValue::Str(rest@))]);
                }
                Json::Object(ms)
            },
        };
        FixtureModelClient { tool: Some(("fixture_call_1".to_owned(), name.to_owned(), arguments)) }
    }

    /// The fixture's reply, given whether the model has already acted in
    /// the conversation (an assistant message is in it).
    pub fn reply_for(&self, already_acted: bool) -> (r: ModelReply)
        ensures
            reply_view(r) == fixture_reply(*self, already_acted),
    {
        match &self.tool {
            Some((id, name, args)) => {
                if !already_acted {
                    let mut calls: Vec<ToolCall> = Vec::new();
                    calls.push(ToolCall { id: id.clone(), name: name.clone(), arguments: args.deep_clone() });
                    let r = ModelReply { text: String::new(), tool_calls: calls, usage: usage_json() };
                    proof {
                        reveal_strlit("");
                        assert(reply_view(r).1 =~= seq![(id@, name@, args.value())]);
                    }
                    return r;
                }
            },
            None => {},
        }
        let r = ModelReply {
            text: "owned-harness fixture turn complete".to_owned(),
            tool_calls: Vec::new(),
            usage: usage_json(),
        };
        proof {
            assert(reply_view(r).1 =~= Seq::<(Seq<char>, Seq<char>, JsonValue)>::empty());
        }
        r
    }
}

/// The JSON object of one tool call in a request body.
pub open spec fn call_json(c: (Seq<char>, Seq<char>, JsonValue)) -> JsonValue {
    JsonValue::Object(seq![("id"@, JsonValue::Str(c.0)), ("name"@, JsonValue::Str(c.1)), ("arguments"@, c.2)])
}

/// The request body a reply is encoded into.
pub open spec fn request_body(r: (Seq<char>, Seq<(Seq<char>, Seq<char>, JsonValue)>, JsonValue)) -> JsonValue {
    JsonValue::Object(
        seq![
            ("text"@, JsonValue::Str(r.0)),
            ("tool_calls"@, JsonValue::Array(r.1.map_values(|c: (Seq<char>, Seq<char>, JsonValue)| call_json(c)))),
            ("usage"@, r.2),
        ],
    )
}

/// The text a member holds, empty where it is missing or not a string.
pub open spec fn text_or_empty(o: Option<JsonValue>) -> Seq<char> {
    match o {
        Some(JsonValue::Str(s)) => s,
        _ => Seq::empty(),
    }
}

/// A member's value, null where it is missing.
pub open spec fn value_or_null(o: Option<JsonValue>) -> JsonValue {
    match o {
        Some(v) => v,
        None => JsonValue::Null,
    }
}

/// A tool call read from its JSON object.
pub open spec fn call_of(item: JsonValue) -> (Seq<char>, Seq<char>, JsonValue) {
    (text_or_empty(jv_field(item, "id"@)), text_or_empty(jv_field(item, "name"@)), value_or_null(jv_field(item, "arguments"@)))
}

/// The reply a response body reads as: its text, its tool calls (none
/// where `tool_calls` is not an array), its usage (null where none).
pub open spec fn reply_of_body(body: JsonValue) -> (Seq<char>, Seq<(Seq<char>, Seq<char>, JsonValue)>, JsonValue) {
    (
        text_or_empty(jv_field(body, "text"@)),
        match jv_field(body, "tool_calls"@) {
            Some(JsonValue::Array(items)) => items.map_values(|item: JsonValue| call_of(item)),
            _ => Seq::empty(),
        },
        value_or_null(jv_field(body, "usage"@)),
    )
}

/// A tool call's object reads back as the call.
proof fn lemma_call_round_trip(c: (Seq<char>, Seq<char>, JsonValue))
    ensures
        call_of(call_json(c)) == c,
{
    reveal_strlit("id");
    reveal_strlit("name");
    reveal_strlit("arguments");
    assert("id"@.len() == 2 && "name"@.len() == 4 && "arguments"@.len() == 9);
    let cm = call_json(c)->Object_0;
    lemma_member_index(cm, "id"@, 0);
    lemma_member_index(cm, "name"@, 1);
    lemma_member_index(cm, "arguments"@, 2);
}

/// Reading a request body back gives the reply encoded into it.
pub proof fn lemma_reply_round_trip(r: (Seq<char>, Seq<(Seq<char>, Seq<char>, JsonValue)>, JsonValue))
    ensures
        reply_of_body(request_body(r)) == r,
{
    reveal_strlit("text");
    reveal_strlit("tool_calls");
    reveal_strlit("usage");
    assert("text"@.len() == 4 && "tool_calls"@.len() == 10 && "usage"@.len() == 5);
    let ms = request_body(r)->Object_0;
    lemma_member_index(ms, "text"@, 0);
    lemma_member_index(ms, "tool_calls"@, 1);
    lemma_member_index(ms, "usage"@, 2);
    let calls = r.1.map_values(|c: (Seq<char>, Seq<char>, JsonValue)| call_json(c));
    assert forall|i: int| 0 <= i < r.1.len() implies call_of(#[trigger] calls[i]) == r.1[i] by {
        lemma_call_round_trip(r.1[i]);
    }
    assert(calls.map_values(|item: JsonValue| call_of(item)) =~= r.1);
}

/// The host of the fixture client: it answers every request with success
/// and the request's own body.
pub struct FixtureHost;

impl FixtureHost {
    /// Echoes the request body back with status 200.
    pub fn fulfill(&self, request: HttpRequest) -> (r: HttpResponse)
        ensures
            r.status == 200,
            r.body.value() == request.body.value(),
    {
        HttpResponse { status: 200, body: request.body }
    }
}

/// A text member, empty where it is missing or not a string.
fn text_member_or_empty(v: &Json, key: &str) -> (r: String)
    ensures
        r@ == text_or_empty(jv_field(v.value(), key@)),
{
    proof {
        reveal_strlit("");
    }
    match field_copy(v, key) {
        Some(Json::Str(s)) => s,
        _ => String::new(),
    }
}

/// A member, null where it is missing.
fn member_or_null(v: &Json, key: &str) -> (r: Json)
    ensures
        r.value() == value_or_null(jv_field(v.value(), key@)),
{
    match field_copy(v, key) {
        Some(x) => x,
        None => Json::Null,
    }
}

impl FixtureModelClient {
    /// The request that carries the fixture's reply in its body.
    pub fn build_request(&self, already_acted: bool) -> (r: HttpRequest)
        ensures
            r.url@ == "fixture://owned-harness"@,
            r.headers@.len() == 0,
            r.body.value() == request_body(fixture_reply(*self, already_acted)),
    {
        let reply = self.reply_for(already_acted);
        let ghost rv = reply_view(reply);
        let ModelReply { text, tool_calls, usage } = reply;
        let mut calls: Vec<Json> = Vec::new();
        let mut i: usize = 0;
        while i < tool_calls.len()
            invariant
                i <= tool_calls.len(),
                rv.1 == tool_calls@.map_values(|c: ToolCall| call_view(c)),
                calls.len() == i,
                forall|k: int| 0 <= k < i ==> (#[trigger] calls@[k]).value() == call_json(rv.1[k]),
            decreases tool_calls.len() - i,
        {
            let c = &tool_calls[i];
            let mut ms: Vec<(String, Json)> = Vec::new();
            ms.push(("id".to_owned(), Json::Str(c.id.clone())));
            ms.push(("name".to_owned(), Json::Str(c.name.clone())));
            ms.push(("arguments".to_owned(), c.arguments.deep_clone()));
            proof {
                lemma_object_value(ms);
                assert(rv.1[i as int] == call_view(*c));
                assert(members_value(ms@) =~= call_json(rv.1[i as int])->Object_0);
            }
            calls.push(Json::Object(ms));
            i += 1;
        }
        let arr = Json::Array(calls);
        proof {
            assert(arr.value()->Array_0 =~= rv.1.map_values(|c: (Seq<char>, Seq<char>, JsonValue)| call_json(c)));
        }
        let mut body: Vec<(String, Json)> = Vec::new();
        body.push(("text".to_owned(), Json::Str(text)));
        body.push(("tool_calls".to_owned(), arr));
        body.push(("usage".to_owned(), usage));
        proof {
            lemma_object_value(body);
            assert(members_value(body@) =~= request_body(rv)->Object_0);
        }
        HttpRequest { url: "fixture://owned-harness".to_owned(), headers: Vec::new(), body: Json::Object(body) }
    }

    /// The reply a response carries; a transport failure is that error.
    pub fn parse_response(&self, response: Result<HttpResponse, String>) -> (r: Result<ModelReply, HarnessModelError>)
        ensures
            match response {
                Err(m) => r matches Err(HarnessModelError::Transport(x)) && x@ == m@,
                Ok(resp) => r matches Ok(reply) && reply_view(reply) == reply_of_body(resp.body.value()),
            },
    {
        let body = match response {
            Ok(resp) => resp.body,
            Err(m) => {
                return Err(HarnessModelError::Transport(m));
            },
        };
        let mut calls: Vec<ToolCall> = Vec::new();
        match field_copy(&body, "tool_calls") {
            Some(Json::Array(items)) => {
                let ghost iv = Json::Array(items).value()->Array_0;
                let mut i: usize = 0;
                while i < items.len()
                    invariant
                        i <= items.len(),
                        iv == Json::Array(items).value()->Array_0,
                        calls.len() == i,
                        forall|k: int| 0 <= k < i ==> call_view(#[trigger] calls@[k]) == call_of(iv[k]),
                    decreases items.len() - i,
                {
                    let item = &items[i];
                    assert(iv[i as int] == item.value());
                    let id = text_member_or_empty(item, "id");
                    let name = text_member_or_empty(item, "name");
                    let arguments = member_or_null(item, "arguments");
                    calls.push(ToolCall { id, name, arguments });
                    i += 1;
                }
                proof {
                    assert(calls@.map_values(|c: ToolCall| call_view(c)) =~= iv.map_values(|item: JsonValue| call_of(item)));
                }
            },
            _ => {
                proof {
                    assert(calls@.map_values(|c: ToolCall| call_view(c)) =~= Seq::<(Seq<char>, Seq<char>, JsonValue)>::empty());
                }
            },
        }
        let text = text_member_or_empty(&body, "text");
        let usage = member_or_null(&body, "usage");
        Ok(ModelReply { text, tool_calls: calls, usage })
    }
}

/// The fixture's scripted reply survives the trip through its echoing
/// host: parsing the echo of the built request gives the reply itself.
pub proof fn lemma_fixture_round_trip(client: FixtureModelClient, already_acted: bool)
    ensures
        reply_of_body(request_body(fixture_reply(client, already_acted))) == fixture_reply(client, already_acted),
{
    lemma_reply_round_trip(fixture_reply(client, already_acted));
}

} // verus!
