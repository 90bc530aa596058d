//! The arguments of the file tools and the guard that refuses to read a
//! binary file as text.
use vstd::prelude::*;
use crate::json::{Json, JsonValue};
use crate::selection::number_u64;

verus! {

/// How many leading bytes of a file are sniffed for a NUL.
pub const BINARY_SNIFF_BYTES: usize = 8192;

/// A file whose leading bytes hold a NUL is binary and is not read as
/// text.
pub fn binary_read_refusal(path: &str, head: &[u8]) -> (r: Result<(), String>)
    ensures
        (exists|i: int| 0 <= i < head@.len() && head@[i] == 0) ==> (r matches Err(e) && e@ == "cannot read binary file `"@
            + path@ + "` as text"@),
        (forall|i: int| 0 <= i < head@.len() ==> head@[i] != 0) ==> r is Ok,
{
    let mut i: usize = 0;
    while i < head.len()
        invariant
            i <= head@.len(),
            forall|j: int| 0 <= j < i ==> head@[j] != 0,
        decreases head.len() - i,
    {
        if head[i] == 0 {
            let mut m = "cannot read binary file `".to_owned();
            m.append(path);
            m.append("` as text");
            return Err(m);
        }
        i += 1;
    }
    Ok(())
}

/// The string argument `key` of a tool call.
pub fn str_arg<'a>(args: &'a Json, key: &str) -> (r: Result<&'a str, String>)
    ensures
        match args.get_spec(key@) {
            Some(v) => match v.str_spec() {
                Some(s) => r matches Ok(x) && x@ == s,
                None => r matches Err(e) && e@ == "missing required string argument `"@ + key@ + "`"@,
            },
            None => r matches Err(e) && e@ == "missing required string argument `"@ + key@ + "`"@,
        },
{
    match args.get(key) {
        Some(v) => match v.as_str() {
            Some(s) => Ok(s),
            None => {
                let mut m = "missing required string argument `".to_owned();
                m.append(key);
                m.append("`");
                Err(m)
            },
        },
        None => {
            let mut m = "missing required string argument `".to_owned();
            m.append(key);
            m.append("`");
            Err(m)
        },
    }
}

/// The optional string argument `key` of a tool call.
pub fn optional_str_arg<'a>(args: &'a Json, key: &str) -> (r: Option<&'a str>)
    ensures
        match args.get_spec(key@) {
            Some(v) => match v.str_spec() {
                Some(s) => r matches Some(x) && x@ == s,
                None => r is None,
            },
            None => r is None,
        },
{
    match args.get(key) {
        Some(v) => v.as_str(),
        None => None,
    }
}

/// The unsigned integer argument `key` of a tool call.
pub fn usize_arg(args: &Json, key: &str) -> (r: Option<usize>)
    ensures
        r == match args.get_spec(key@) {
            Some(Json::Number(n)) => match number_u64(n@) {
                Some(v) => Some(v as usize),
                None => None,
            },
            _ => None,
        },
{
    match args.get(key) {
        Some(Json::Number(n)) => match crate::selection::parse_u64_text(n.as_str()) {
            Some(v) => Some(v as usize),
            None => None,
        },
        _ => None,
    }
}

/// The `edits` argument of the `edit` tool, before a JSON-encoded list is
/// parsed.
pub enum EditsArgument {
    /// The edits as given.
    Items(Vec<Json>),
    /// A JSON text that is to hold the list of edits.
    Encoded(String),
}

/// The text of the string member `key`, if there is one.
pub open spec fn opt_str(args: Json, key: Seq<char>) -> Option<Seq<char>> {
    match args.get_spec(key) {
        Some(v) => v.str_spec(),
        None => None,
    }
}

/// Where the `edit` tool's edits come from: the `edits` array, a string
/// holding one as JSON, or (with no `edits`) one edit from top-level
/// `oldText` and `newText` strings.
pub fn edits_argument(args: &Json) -> (r: Result<EditsArgument, String>)
    ensures
        match args.get_spec("edits"@) {
            Some(Json::Array(items)) => r matches Ok(EditsArgument::Items(v))
                && Json::Array(v).value() == Json::Array(items).value(),
            Some(Json::Str(raw)) => r matches Ok(EditsArgument::Encoded(t)) && t@ == raw@,
            Some(_) => r matches Err(e) && e@ == "`edits` must be an array"@,
            None => match (opt_str(*args, "oldText"@), opt_str(*args, "newText"@)) {
                (Some(old), Some(new)) => r matches Ok(EditsArgument::Items(v)) && Json::Array(v).value()
                    == JsonValue::Array(seq![JsonValue::Object(seq![
                        ("newText"@, JsonValue::Str(new)),
                        ("oldText"@, JsonValue::Str(old)),
                    ])]),
                _ => r matches Err(e) && e@ == "`edits` must be an array"@,
            },
        },
{
    match args.get("edits") {
        Some(v) => match v.deep_clone() {
            Json::Array(items) => Ok(EditsArgument::Items(items)),
            Json::Str(raw) => Ok(EditsArgument::Encoded(raw)),
            _ => Err("`edits` must be an array".to_owned()),
        },
        None => match (optional_str_arg(args, "oldText"), optional_str_arg(args, "newText")) {
            (Some(old), Some(new)) => {
                let mut members: Vec<(String, Json)> = Vec::new();
                members.push(("newText".to_owned(), Json::Str(new.to_owned())));
                members.push(("oldText".to_owned(), Json::Str(old.to_owned())));
                proof {
                    crate::engine::lemma_object_members(members);
                    assert(crate::builtins::members_of(members@) =~= seq![
                        ("newText"@, JsonValue::Str(new@)),
                        ("oldText"@, JsonValue::Str(old@)),
                    ]);
                }
                let edit = Json::Object(members);
                let mut items: Vec<Json> = Vec::new();
                items.push(edit);
                assert(Json::Array(items).value()->Array_0 =~= seq![edit.value()]);
                Ok(EditsArgument::Items(items))
            },
            _ => Err("`edits` must be an array".to_owned()),
        },
    }
}

/// The edits a JSON-encoded `edits` argument holds, given what parsing its
/// text gave (the parser's message where it failed).
pub fn encoded_edits(parsed: Result<Json, String>) -> (r: Result<Vec<Json>, String>)
    ensures
        match parsed {
            Ok(Json::Array(items)) => r == Ok::<Vec<Json>, String>(items),
            Ok(_) => r matches Err(e) && e@ == "`edits` must be an array"@,
            Err(e) => r matches Err(m) && m@ == "`edits` is a string but not valid JSON: "@ + e@,
        },
{
    match parsed {
        Ok(Json::Array(items)) => Ok(items),
        Ok(_) => Err("`edits` must be an array".to_owned()),
        Err(e) => {
            let mut m = "`edits` is a string but not valid JSON: ".to_owned();
            m.append(e.as_str());
            Err(m)
        },
    }
}

} // verus!
