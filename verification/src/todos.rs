//! The todo view of the work-item tracker that the harness's todo tools
//! offer: how a todo status maps to a tracker item status and back, what a
//! listed todo shows, and which tracker action an update asks for.
use vstd::prelude::*;
use crate::json::{Json, JsonValue};
use crate::text::{chars_of, chars_starts_with, has_prefix, str_eq};

verus! {

proof fn lemma_status_names()
    ensures
        "pending"@.len() == 7,
        "in_progress"@.len() == 11,
        "completed"@.len() == 9,
        "open"@.len() == 4,
        "closed"@.len() == 6,
        "canceled"@.len() == 8,
        "archived"@.len() == 8,
{
    reveal_strlit("pending");
    reveal_strlit("in_progress");
    reveal_strlit("completed");
    reveal_strlit("open");
    reveal_strlit("closed");
    reveal_strlit("canceled");
    reveal_strlit("archived");
}

/// The tracker item status a todo status filters by: `pending` is `open`,
/// `completed` is `closed`, `in_progress` and anything else stay as they
/// are.
pub open spec fn item_status_of(todo: Seq<char>) -> Seq<char> {
    if todo == "pending"@ {
        "open"@
    } else if todo == "completed"@ {
        "closed"@
    } else {
        todo
    }
}

/// The tracker item status for a todo status.
pub fn todo_to_item_status(todo: &str) -> (r: String)
    ensures
        r@ == item_status_of(todo@),
{
    proof {
        lemma_status_names();
    }
    if str_eq(todo, "pending") {
        "open".to_owned()
    } else if str_eq(todo, "completed") {
        "closed".to_owned()
    } else {
        todo.to_owned()
    }
}

/// The todo status a tracker item shows as: `in_progress` stays; a closed,
/// canceled or archived item is `completed`; anything else is `pending`.
pub open spec fn todo_status_of(item: Seq<char>) -> Seq<char> {
    if item == "in_progress"@ {
        "in_progress"@
    } else if item == "closed"@ || item == "canceled"@ || item == "archived"@ {
        "completed"@
    } else {
        "pending"@
    }
}

/// The todo status of a tracker item status.
pub fn item_to_todo_status(item: &str) -> (r: &'static str)
    ensures
        r@ == todo_status_of(item@),
{
    proof {
        lemma_status_names();
    }
    if str_eq(item, "in_progress") {
        "in_progress"
    } else if str_eq(item, "closed") || str_eq(item, "canceled") || str_eq(item, "archived") {
        "completed"
    } else {
        "pending"
    }
}

/// A todo status read back through the tracker is the status written: each
/// of `pending`, `in_progress` and `completed` maps to an item status that
/// maps back to it.
pub proof fn law_todo_status_round_trip(todo: Seq<char>)
    requires
        todo == "pending"@ || todo == "in_progress"@ || todo == "completed"@,
    ensures
        todo_status_of(item_status_of(todo)) == todo,
{
    lemma_status_names();
}

/// What `list_todos` shows of one tracker item: its id, its title as the
/// content, its todo status, and whether an agent (a filer whose name
/// starts with `agent`) or a rule filed it; the members in key order.
pub open spec fn todo_row_value(id: Seq<char>, title: Seq<char>, item_status: Seq<char>, filed_by: Option<Seq<char>>) -> JsonValue {
    JsonValue::Object(seq![
        ("content"@, JsonValue::Str(title)),
        ("id"@, JsonValue::Str(id)),
        ("source"@, JsonValue::Str(
            if filed_by matches Some(f) && has_prefix(f, "agent"@) { "agent"@ } else { "rule"@ },
        )),
        ("status"@, JsonValue::Str(todo_status_of(item_status))),
    ])
}

/// One listed todo.
pub fn todo_row(id: &str, title: &str, item_status: &str, filed_by: Option<&str>) -> (r: Json)
    ensures
        r.value() == todo_row_value(id@, title@, item_status@, match filed_by {
            Some(f) => Some(f@),
            None => None,
        }),
{
    let by_agent = match filed_by {
        Some(f) => chars_starts_with(&chars_of(f), &chars_of("agent")),
        None => false,
    };
    let source = if by_agent {
        "agent"
    } else {
        "rule"
    };
    let mut members: Vec<(String, Json)> = Vec::new();
    members.push(("content".to_owned(), Json::Str(title.to_owned())));
    members.push(("id".to_owned(), Json::Str(id.to_owned())));
    members.push(("source".to_owned(), Json::Str(source.to_owned())));
    members.push(("status".to_owned(), Json::Str(item_to_todo_status(item_status).to_owned())));
    proof {
        crate::engine::lemma_object_members(members);
        assert(crate::builtins::members_of(members@) =~= todo_row_value(id@, title@, item_status@, match filed_by {
            Some(f) => Some(f@),
            None => None,
        })->Object_0);
    }
    Json::Object(members)
}

/// The tracker action a todo status update asks for.
#[derive(Clone, Copy, Debug, PartialEq, Eq, Structural)]
pub enum TodoUpdate {
    /// `in_progress`: claim the item for the agent.
    Claim,
    /// `completed`: finish the item.
    Finish,
    /// `pending`: release the item.
    Release,
}

/// The action of an update to `status`; any other status is refused.
pub fn todo_update_action(status: &str) -> (r: Result<TodoUpdate, String>)
    ensures
        status@ == "in_progress"@ ==> r == Ok::<TodoUpdate, String>(TodoUpdate::Claim),
        status@ == "completed"@ ==> r == Ok::<TodoUpdate, String>(TodoUpdate::Finish),
        status@ == "pending"@ ==> r == Ok::<TodoUpdate, String>(TodoUpdate::Release),
        !(status@ == "in_progress"@ || status@ == "completed"@ || status@ == "pending"@) ==> (r matches Err(e)
            && e@ == "unknown status `"@ + status@ + "`"@),
{
    proof {
        lemma_status_names();
    }
    if str_eq(status, "in_progress") {
        Ok(TodoUpdate::Claim)
    } else if str_eq(status, "completed") {
        Ok(TodoUpdate::Finish)
    } else if str_eq(status, "pending") {
        Ok(TodoUpdate::Release)
    } else {
        let mut m = "unknown status `".to_owned();
        m.append(status);
        m.append("`");
        Err(m)
    }
}

} // verus!
