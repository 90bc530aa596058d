//! The tool specifications a harness turn offers the model: the file tools
//! and tracker tools, each kept only where the profile policy and the
//! turn's grants allow it.
use vstd::prelude::*;
use crate::harness::{builtin_caps, opt_str_view, tool_allowed, HarnessProfilePolicy, TOOL_ADD_TODO, TOOL_BASH, TOOL_EDIT, TOOL_FIND, TOOL_GREP, TOOL_LIST_TODOS, TOOL_LS, TOOL_READ, TOOL_RECALL, TOOL_UPDATE_TODO, TOOL_WRITE};
use crate::text::str_eq;
use crate::turn::{TurnFileAccess, TurnToolAccess};

verus! {

/// A tool as the model sees it: its name, what it does, and the JSON
/// schema of its input, as JSON text.
#[derive(Clone, Debug)]
pub struct ToolSpec {
    pub name: String,
    pub description: String,
    pub input_schema: String,
}

/// The name, description and schema text of a tool.
pub open spec fn tool_view(t: ToolSpec) -> (Seq<char>, Seq<char>, Seq<char>) {
    (t.name@, t.description@, t.input_schema@)
}

/// The views of a list of tools.
pub open spec fn tools_view(v: Seq<ToolSpec>) -> Seq<(Seq<char>, Seq<char>, Seq<char>)> {
    v.map_values(|t: ToolSpec| tool_view(t))
}

/// The names of a list of tools.
pub open spec fn tool_names(v: Seq<ToolSpec>) -> Seq<Seq<char>> {
    v.map_values(|t: ToolSpec| t.name@)
}

pub const READ_DESCRIPTION: &'static str = "Read a file's text. Optional 1-based line offset and limit; a long file is windowed with a continuation notice.";
pub const READ_SCHEMA: &'static str = "{\"type\":\"object\",\"properties\":{\"path\":{\"type\":\"string\",\"description\":\"workspace-relative path\"},\"offset\":{\"type\":\"integer\",\"description\":\"1-based first line\"},\"limit\":{\"type\":\"integer\",\"description\":\"max lines to return\"}},\"required\":[\"path\"],\"additionalProperties\":false}";
pub const WRITE_DESCRIPTION: &'static str = "Create or overwrite a file with the given content.";
pub const WRITE_SCHEMA: &'static str = "{\"type\":\"object\",\"properties\":{\"path\":{\"type\":\"string\"},\"content\":{\"type\":\"string\"}},\"required\":[\"path\",\"content\"],\"additionalProperties\":false}";
pub const EDIT_DESCRIPTION: &'static str = "Exact string-replace edits in an existing file. Each oldText must match a unique region of the current file.";
pub const EDIT_SCHEMA: &'static str = "{\"type\":\"object\",\"properties\":{\"path\":{\"type\":\"string\"},\"edits\":{\"type\":\"array\",\"items\":{\"type\":\"object\",\"properties\":{\"oldText\":{\"type\":\"string\"},\"newText\":{\"type\":\"string\"}},\"required\":[\"oldText\",\"newText\"],\"additionalProperties\":false}}},\"required\":[\"path\",\"edits\"],\"additionalProperties\":false}";
pub const GREP_DESCRIPTION: &'static str = "Search file contents for a regex (invalid patterns fall back to a literal substring); returns path:line:text.";
pub const GREP_SCHEMA: &'static str = "{\"type\":\"object\",\"properties\":{\"pattern\":{\"type\":\"string\",\"description\":\"regex; an invalid regex is searched literally\"},\"path\":{\"type\":\"string\",\"description\":\"subdir to search, default root\"},\"ignoreCase\":{\"type\":\"boolean\"},\"context\":{\"type\":\"integer\",\"description\":\"lines of context before/after each match, default 0\"},\"limit\":{\"type\":\"integer\"}},\"required\":[\"pattern\"],\"additionalProperties\":false}";
pub const FIND_DESCRIPTION: &'static str = "Find files whose workspace-relative path matches a glob pattern.";
pub const FIND_SCHEMA: &'static str = "{\"type\":\"object\",\"properties\":{\"pattern\":{\"type\":\"string\",\"description\":\"glob, e.g. **/*.rs\"},\"path\":{\"type\":\"string\"},\"limit\":{\"type\":\"integer\"}},\"required\":[\"pattern\"],\"additionalProperties\":false}";
pub const LS_DESCRIPTION: &'static str = "List a directory's entries (directories marked with a trailing /).";
pub const LS_SCHEMA: &'static str = "{\"type\":\"object\",\"properties\":{\"path\":{\"type\":\"string\",\"description\":\"default workspace root\"},\"limit\":{\"type\":\"integer\"}},\"additionalProperties\":false}";
pub const BASH_DESCRIPTION: &'static str = "Run a shell command in the workspace. Only commands allowed by the operator's policy run; others are refused.";
pub const BASH_SCHEMA: &'static str = "{\"type\":\"object\",\"properties\":{\"command\":{\"type\":\"string\"},\"timeout\":{\"type\":\"integer\",\"description\":\"seconds, optional\"}},\"required\":[\"command\"],\"additionalProperties\":false}";
pub const RECALL_DESCRIPTION: &'static str = "Read the full text of an earlier tool output that was truncated. Pass the id from a truncation footer; optional 1-based line offset and limit to page through a large output.";
pub const RECALL_SCHEMA: &'static str = "{\"type\":\"object\",\"properties\":{\"id\":{\"type\":\"string\",\"description\":\"content id from a truncation footer\"},\"offset\":{\"type\":\"integer\",\"description\":\"1-based first line\"},\"limit\":{\"type\":\"integer\",\"description\":\"max lines to return\"}},\"required\":[\"id\"],\"additionalProperties\":false}";
pub const LIST_TODOS_DESCRIPTION: &'static str = "List work-tracker items (optionally filtered by status).";
pub const LIST_TODOS_SCHEMA: &'static str = "{\"type\":\"object\",\"properties\":{\"status\":{\"type\":\"string\",\"enum\":[\"pending\",\"in_progress\",\"completed\"]}},\"additionalProperties\":false}";
pub const ADD_TODO_DESCRIPTION: &'static str = "File a new work-tracker item (a durable to-do the workflow can react to).";
pub const ADD_TODO_SCHEMA: &'static str = "{\"type\":\"object\",\"properties\":{\"content\":{\"type\":\"string\"},\"status\":{\"type\":\"string\",\"enum\":[\"pending\"]}},\"required\":[\"content\"],\"additionalProperties\":false}";
pub const UPDATE_TODO_DESCRIPTION: &'static str = "Change a tracker item's status by id.";
pub const UPDATE_TODO_SCHEMA: &'static str = "{\"type\":\"object\",\"properties\":{\"id\":{\"type\":\"string\"},\"status\":{\"type\":\"string\",\"enum\":[\"pending\",\"in_progress\",\"completed\"]}},\"required\":[\"id\",\"status\"],\"additionalProperties\":false}";

/// The file tools, in the order the model is offered them.
pub open spec fn file_tool_catalogue() -> Seq<(Seq<char>, Seq<char>, Seq<char>)> {
    seq![
        (TOOL_READ@, READ_DESCRIPTION@, READ_SCHEMA@),
        (TOOL_WRITE@, WRITE_DESCRIPTION@, WRITE_SCHEMA@),
        (TOOL_EDIT@, EDIT_DESCRIPTION@, EDIT_SCHEMA@),
        (TOOL_GREP@, GREP_DESCRIPTION@, GREP_SCHEMA@),
        (TOOL_FIND@, FIND_DESCRIPTION@, FIND_SCHEMA@),
        (TOOL_LS@, LS_DESCRIPTION@, LS_SCHEMA@),
        (TOOL_BASH@, BASH_DESCRIPTION@, BASH_SCHEMA@),
        (TOOL_RECALL@, RECALL_DESCRIPTION@, RECALL_SCHEMA@),
    ]
}

/// The tracker tools, in the order the model is offered them.
pub open spec fn tracker_tool_catalogue() -> Seq<(Seq<char>, Seq<char>, Seq<char>)> {
    seq![
        (TOOL_LIST_TODOS@, LIST_TODOS_DESCRIPTION@, LIST_TODOS_SCHEMA@),
        (TOOL_ADD_TODO@, ADD_TODO_DESCRIPTION@, ADD_TODO_SCHEMA@),
        (TOOL_UPDATE_TODO@, UPDATE_TODO_DESCRIPTION@, UPDATE_TODO_SCHEMA@),
    ]
}

impl ToolSpec {
    /// A copy of this tool spec.
    pub fn copy(&self) -> (r: ToolSpec)
        ensures
            tool_view(r) == tool_view(*self),
    {
        ToolSpec {
            name: self.name.clone(),
            description: self.description.clone(),
            input_schema: self.input_schema.clone(),
        }
    }
}

/// A tool spec from its three texts.
fn tool(name: &str, description: &str, schema: &str) -> (r: ToolSpec)
    ensures
        tool_view(r) == (name@, description@, schema@),
{
    ToolSpec { name: name.to_owned(), description: description.to_owned(), input_schema: schema.to_owned() }
}

/// Every file tool, unfiltered.
fn file_tool_list() -> (r: Vec<ToolSpec>)
    ensures
        tools_view(r@) == file_tool_catalogue(),
{
    let mut r: Vec<ToolSpec> = Vec::new();
    r.push(tool(TOOL_READ, READ_DESCRIPTION, READ_SCHEMA));
    r.push(tool(TOOL_WRITE, WRITE_DESCRIPTION, WRITE_SCHEMA));
    r.push(tool(TOOL_EDIT, EDIT_DESCRIPTION, EDIT_SCHEMA));
    r.push(tool(TOOL_GREP, GREP_DESCRIPTION, GREP_SCHEMA));
    r.push(tool(TOOL_FIND, FIND_DESCRIPTION, FIND_SCHEMA));
    r.push(tool(TOOL_LS, LS_DESCRIPTION, LS_SCHEMA));
    r.push(tool(TOOL_BASH, BASH_DESCRIPTION, BASH_SCHEMA));
    r.push(tool(TOOL_RECALL, RECALL_DESCRIPTION, RECALL_SCHEMA));
    assert(tools_view(r@) =~= file_tool_catalogue());
    r
}

/// The tracker tools: list, file and update work-tracker items.
pub fn tracker_tool_specs() -> (r: Vec<ToolSpec>)
    ensures
        tools_view(r@) == tracker_tool_catalogue(),
{
    let mut r: Vec<ToolSpec> = Vec::new();
    r.push(tool(TOOL_LIST_TODOS, LIST_TODOS_DESCRIPTION, LIST_TODOS_SCHEMA));
    r.push(tool(TOOL_ADD_TODO, ADD_TODO_DESCRIPTION, ADD_TODO_SCHEMA));
    r.push(tool(TOOL_UPDATE_TODO, UPDATE_TODO_DESCRIPTION, UPDATE_TODO_SCHEMA));
    assert(tools_view(r@) =~= tracker_tool_catalogue());
    r
}

/// The file tools the policy allows, in catalogue order.
pub fn file_tool_specs_for_policy(policy: &HarnessProfilePolicy) -> (r: Vec<ToolSpec>)
    ensures
        tools_view(r@) == file_tool_catalogue().filter(
            |t: (Seq<char>, Seq<char>, Seq<char>)| tool_allowed(policy.caps(), t.0),
        ),
{
    let all = file_tool_list();
    let ghost pred = |t: (Seq<char>, Seq<char>, Seq<char>)| tool_allowed(policy.caps(), t.0);
    let ghost cat = tools_view(all@);
    let mut r: Vec<ToolSpec> = Vec::new();
    let mut i: usize = 0;
    proof {
        reveal(Seq::filter);
    }
    while i < all.len()
        invariant
            i <= all.len(),
            cat == tools_view(all@),
            pred == (|t: (Seq<char>, Seq<char>, Seq<char>)| tool_allowed(policy.caps(), t.0)),
            tools_view(r@) == cat.subrange(0, i as int).filter(pred),
        decreases all.len() - i,
    {
        proof {
            reveal(Seq::filter);
            assert(cat.subrange(0, i + 1).drop_last() =~= cat.subrange(0, i as int));
            assert(cat.subrange(0, i + 1).last() == tool_view(all@[i as int]));
        }
        let ghost before = r@;
        if policy.allows_tool(all[i].name.as_str()) {
            r.push(all[i].copy());
            assert(tools_view(r@) =~= tools_view(before).push(tool_view(all@[i as int])));
        }
        i += 1;
    }
    assert(cat.subrange(0, all.len() as int) =~= cat);
    r
}

/// The file tools of a named built-in profile.
pub fn file_tool_specs_for_profile(profile: Option<&str>) -> (r: Vec<ToolSpec>)
    ensures
        tools_view(r@) == file_tool_catalogue().filter(
            |t: (Seq<char>, Seq<char>, Seq<char>)| tool_allowed(builtin_caps(opt_str_view(profile)), t.0),
        ),
{
    let policy = HarnessProfilePolicy::for_profile(profile);
    file_tool_specs_for_policy(&policy)
}

/// Whether the turn's grants let the model see the named file tool:
/// read-class tools need a readable store, `write` a writable one, `edit`
/// both, `bash` command execution.
pub open spec fn turn_allows_file_tool(name: Seq<char>, read: bool, write: bool, run: bool) -> bool {
    if name == TOOL_READ@ || name == TOOL_GREP@ || name == TOOL_FIND@ || name == TOOL_LS@ || name
        == TOOL_RECALL@ {
        read
    } else if name == TOOL_WRITE@ {
        write
    } else if name == TOOL_EDIT@ {
        read && write
    } else if name == TOOL_BASH@ {
        run
    } else {
        true
    }
}

/// Some file store of the turn is readable.
pub open spec fn any_read_grant(a: TurnFileAccess) -> bool {
    exists|i: int| 0 <= i < a.scopes@.len() && (#[trigger] a.scopes@[i]).grant_read is Some
}

/// Some file store of the turn is writable.
pub open spec fn any_write_grant(a: TurnFileAccess) -> bool {
    exists|i: int| 0 <= i < a.scopes@.len() && (#[trigger] a.scopes@[i]).grant_write is Some
}

/// The file tools the policy allows that the turn's grants also allow.
pub fn file_tool_specs_for_turn(policy: &HarnessProfilePolicy, access: &TurnToolAccess) -> (r: Vec<ToolSpec>)
    ensures
        tools_view(r@) == file_tool_catalogue().filter(
            |t: (Seq<char>, Seq<char>, Seq<char>)| tool_allowed(policy.caps(), t.0),
        ).filter(
            |t: (Seq<char>, Seq<char>, Seq<char>)|
                turn_allows_file_tool(t.0, any_read_grant(access.file), any_write_grant(access.file), access.command_run),
        ),
{
    let read_files = access.file.grants_read();
    let write_files = access.file.grants_write();
    let allowed = file_tool_specs_for_policy(policy);
    let ghost pred = |t: (Seq<char>, Seq<char>, Seq<char>)| turn_allows_file_tool(t.0, read_files, write_files, access.command_run);
    let ghost cat = tools_view(allowed@);
    let mut r: Vec<ToolSpec> = Vec::new();
    let mut i: usize = 0;
    proof {
        reveal(Seq::filter);
    }
    while i < allowed.len()
        invariant
            i <= allowed.len(),
            cat == tools_view(allowed@),
            pred == (|t: (Seq<char>, Seq<char>, Seq<char>)| turn_allows_file_tool(t.0, read_files, write_files, access.command_run)),
            tools_view(r@) == cat.subrange(0, i as int).filter(pred),
        decreases allowed.len() - i,
    {
        proof {
            reveal(Seq::filter);
            assert(cat.subrange(0, i + 1).drop_last() =~= cat.subrange(0, i as int));
            assert(cat.subrange(0, i + 1).last() == tool_view(allowed@[i as int]));
        }
        let name = allowed[i].name.as_str();
        let keep = if str_eq(name, TOOL_READ) || str_eq(name, TOOL_GREP) || str_eq(name, TOOL_FIND)
            || str_eq(name, TOOL_LS) || str_eq(name, TOOL_RECALL) {
            read_files
        } else if str_eq(name, TOOL_WRITE) {
            write_files
        } else if str_eq(name, TOOL_EDIT) {
            read_files && write_files
        } else if str_eq(name, TOOL_BASH) {
            access.command_run
        } else {
            true
        };
        let ghost before = r@;
        if keep {
            r.push(allowed[i].copy());
            assert(tools_view(r@) =~= tools_view(before).push(tool_view(allowed@[i as int])));
        }
        i += 1;
    }
    assert(cat.subrange(0, allowed.len() as int) =~= cat);
    r
}

/// Whether the turn may see the named tracker tool: listing always; filing
/// where both policy and turn grant it; updating where both grant some
/// update.
pub open spec fn turn_allows_tracker_tool(name: Seq<char>, policy: HarnessProfilePolicy, access: TurnToolAccess) -> bool {
    if name == TOOL_LIST_TODOS@ {
        true
    } else if name == TOOL_ADD_TODO@ {
        policy.tracker_file && access.tracker.file
    } else if name == TOOL_UPDATE_TODO@ {
        (policy.tracker_claim || policy.tracker_finish || policy.tracker_release) && (access.tracker.claim
            || access.tracker.finish || access.tracker.release)
    } else {
        true
    }
}

/// The tracker tools the policy and the turn's grants allow.
pub fn tracker_tool_specs_for_turn(policy: &HarnessProfilePolicy, access: &TurnToolAccess) -> (r: Vec<ToolSpec>)
    ensures
        tools_view(r@) == tracker_tool_catalogue().filter(
            |t: (Seq<char>, Seq<char>, Seq<char>)| turn_allows_tracker_tool(t.0, *policy, *access),
        ),
{
    let all = tracker_tool_specs();
    let ghost pred = |t: (Seq<char>, Seq<char>, Seq<char>)| turn_allows_tracker_tool(t.0, *policy, *access);
    let ghost cat = tools_view(all@);
    let mut r: Vec<ToolSpec> = Vec::new();
    let mut i: usize = 0;
    proof {
        reveal(Seq::filter);
    }
    while i < all.len()
        invariant
            i <= all.len(),
            cat == tools_view(all@),
            pred == (|t: (Seq<char>, Seq<char>, Seq<char>)| turn_allows_tracker_tool(t.0, *policy, *access)),
            tools_view(r@) == cat.subrange(0, i as int).filter(pred),
        decreases all.len() - i,
    {
        proof {
            reveal(Seq::filter);
            assert(cat.subrange(0, i + 1).drop_last() =~= cat.subrange(0, i as int));
            assert(cat.subrange(0, i + 1).last() == tool_view(all@[i as int]));
        }
        let name = all[i].name.as_str();
        let keep = if str_eq(name, TOOL_LIST_TODOS) {
            true
        } else if str_eq(name, TOOL_ADD_TODO) {
            policy.tracker_file && access.tracker.file
        } else if str_eq(name, TOOL_UPDATE_TODO) {
            policy.allows_tracker_update() && access.tracker.allows_update()
        } else {
            true
        };
        let ghost before = r@;
        if keep {
            r.push(all[i].copy());
            assert(tools_view(r@) =~= tools_view(before).push(tool_view(all@[i as int])));
        }
        i += 1;
    }
    assert(cat.subrange(0, all.len() as int) =~= cat);
    r
}

/// The registered workflow tools, where the policy allows invoking
/// workflows; none otherwise.
pub fn workflow_tool_specs_for_policy(policy: &HarnessProfilePolicy, specs: Vec<ToolSpec>) -> (r: Vec<ToolSpec>)
    ensures
        tools_view(r@) == if policy.workflow_invoke {
            tools_view(specs@)
        } else {
            Seq::empty()
        },
{
    if policy.workflow_invoke {
        specs
    } else {
        Vec::new()
    }
}

/// Whether some tool of the list is `read`, the tool that loads a skill
/// body.
pub fn has_read_class_tool(tools: &Vec<ToolSpec>) -> (r: bool)
    ensures
        r == tool_names(tools@).contains(TOOL_READ@),
{
    let mut i: usize = 0;
    while i < tools.len()
        invariant
            i <= tools.len(),
            forall|j: int| 0 <= j < i ==> tools@[j].name@ != TOOL_READ@,
        decreases tools.len() - i,
    {
        if str_eq(tools[i].name.as_str(), TOOL_READ) {
            assert(tool_names(tools@)[i as int] == TOOL_READ@);
            return true;
        }
        i += 1;
    }
    proof {
        if tool_names(tools@).contains(TOOL_READ@) {
            let k = choose|k: int| 0 <= k < tool_names(tools@).len() && tool_names(tools@)[k] == TOOL_READ@;
            assert(tools@[k].name@ == TOOL_READ@);
        }
    }
    false
}

} // verus!
