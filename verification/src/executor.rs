//! The harness tool executor's configuration and the decisions it makes
//! before a tool runs: which commands the allow-list admits, which tracker
//! writes a turn may make, and which path arguments a command may pass.
use vstd::prelude::*;
use crate::harness::{
    HarnessProfilePolicy, TurnTrackerAccess, status_allowed, TOOL_ADD_TODO, TOOL_BASH, TOOL_EDIT, TOOL_FIND, TOOL_GREP,
    TOOL_LIST_TODOS, TOOL_LS, TOOL_READ, TOOL_RECALL, TOOL_UPDATE_TODO, TOOL_WRITE,
};
use crate::json::Json;
use crate::order::{copy_strings, views};
use crate::shell::{
    arg_violation, command_argument_policy_violation, command_input_redirection_targets,
    command_output_redirection_targets, command_path_argument_policy_violation, command_words, fd_target, has_parent_component,
    path_has_parent_component,
    is_fd_redirection_target, opt_string_view, path_argument_violation, redirect_targets, strings_result_view,
    words_from,
};
use crate::text::{
    char_is_white_space, chars_eq, chars_match_at, chars_of, has_prefix, is_white_space,
    split_chars, split_on, str_eq, string_from_chars, trim_chars, trim_spec,
};
use crate::turn::{
    FileStoreScope, TurnFileAccess, TurnToolAccess, join_on, relative_to_root, root_contains, store_relative_path,
    store_root_contains,
};
use vstd::string::StringSliceAdditionalSpecFns;

verus! {

/// A registered `@tool` sub-workflow: the tool name the model sees, the
/// source file and root workflow to start, and the package it comes from.
#[derive(Clone, Debug)]
pub struct WorkflowToolEntry {
    pub name: String,
    pub path: String,
    pub root: String,
    pub package_id: String,
}

/// The default byte budget of one tool output.
pub const DEFAULT_MAX_BYTES: usize = 50_000;

/// Executes the file, command and tracker tools of one turn against a
/// workspace root, under the turn's policies.
pub struct FileToolExecutor {
    pub root: String,
    /// `None`: no store policy (the whole workspace); `Some(scopes)`: the
    /// granted stores (none: every file tool is refused).
    pub file_policy: Option<Vec<FileStoreScope>>,
    pub bash_allow: Vec<String>,
    pub profile_policy: HarnessProfilePolicy,
    pub tracker_queue: Option<String>,
    pub holder: String,
    pub max_bytes: usize,
    /// `None`: no turn policy installed; `Some(granted)`: whether the turn
    /// may run commands.
    pub command_run_granted: Option<bool>,
    pub tracker_access: Option<TurnTrackerAccess>,
    pub workflow_tools: Vec<WorkflowToolEntry>,
    pub store_path: Option<String>,
    pub max_child_iterations: usize,
    pub work_unit: String,
    /// Registered skill bodies by catalogue location.
    pub skill_bodies: Vec<(String, String)>,
    pub content_store_path: Option<String>,
}

/// The allow-list entries in a comma- or newline-separated list: each piece
/// trimmed, empty pieces dropped.
pub open spec fn allow_entries(pieces: Seq<Seq<char>>) -> Seq<Seq<char>>
    decreases pieces.len(),
{
    if pieces.len() == 0 {
        Seq::empty()
    } else if trim_spec(pieces.last()).len() > 0 {
        allow_entries(pieces.drop_last()).push(trim_spec(pieces.last()))
    } else {
        allow_entries(pieces.drop_last())
    }
}

/// The command prefixes of a `WHIPPLESCRIPT_HARNESS_BASH_ALLOW` value (none
/// when it is unset).
pub fn bash_allow_from_value(raw: Option<&str>) -> (r: Vec<String>)
    ensures
        raw is None ==> r@.len() == 0,
        raw matches Some(text) ==> views(r@) == allow_entries(split_on(text@, seq![',', '\n'])),
{
    match raw {
        None => Vec::new(),
        Some(text) => {
            let cs = chars_of(text);
            let seps = vec![',', '\n'];
            assert(seps@ =~= seq![',', '\n']);
            let pieces = split_chars(&cs, &seps);
            let ghost pv = pieces@.map_values(|v: Vec<char>| v@);
            let mut out: Vec<String> = Vec::new();
            let mut i: usize = 0;
            assert(pv.subrange(0, 0) =~= Seq::<Seq<char>>::empty());
            assert(views(out@) =~= Seq::<Seq<char>>::empty());
            while i < pieces.len()
                invariant
                    i <= pieces.len(),
                    pv == pieces@.map_values(|v: Vec<char>| v@),
                    views(out@) == allow_entries(pv.subrange(0, i as int)),
                decreases pieces.len() - i,
            {
                assert(pv.subrange(0, i + 1).drop_last() =~= pv.subrange(0, i as int));
                assert(pv.subrange(0, i + 1).last() == pieces@[i as int]@);
                let t = trim_chars(&pieces[i]);
                if t.len() > 0 {
                    let ghost before = views(out@);
                    out.push(string_from_chars(&t));
                    assert(views(out@) =~= before.push(t@));
                }
                i += 1;
            }
            assert(pv.subrange(0, pieces@.len() as int) =~= pv);
            out
        },
    }
}

/// An allow-list prefix admits a command: the trimmed prefix is not empty
/// and the trimmed command is the prefix or the prefix followed by
/// whitespace (so `git` admits `git status` but not `gitfoo`).
pub open spec fn prefix_admits(prefix: Seq<char>, command: Seq<char>) -> bool {
    let p = trim_spec(prefix);
    let c = trim_spec(command);
    &&& p.len() > 0
    &&& (c == p || (has_prefix(c, p) && c.len() > p.len() && is_white_space(c[p.len() as int])))
}

/// Some allow-list entry admits the command.
pub open spec fn allow_list_admits(allow: Seq<String>, command: Seq<char>) -> bool {
    exists|i: int| 0 <= i < allow.len() && prefix_admits(#[trigger] allow[i]@, command)
}

fn prefix_admits_exec(prefix: &str, command: &Vec<char>) -> (r: bool)
    ensures
        r == prefix_admits(prefix@, command@),
{
    let p = trim_chars(&chars_of(prefix));
    let c = trim_chars(command);
    if p.len() == 0 {
        return false;
    }
    if chars_eq(&c, &p) {
        return true;
    }
    chars_match_at(&c, 0, &p) && c.len() > p.len() && char_is_white_space(c[p.len()])
}

/// What the tracker write policy says about `action` (`file` or `update`,
/// the latter possibly to `status`): `None` when the profile and the turn's
/// tracker grants (if installed) allow it, else the refusal.
pub open spec fn tracker_refusal(
    policy: HarnessProfilePolicy,
    access: Option<TurnTrackerAccess>,
    action: Seq<char>,
    status: Option<Seq<char>>,
) -> Option<Seq<char>> {
    let profile_allows = if action == "file"@ {
        policy.tracker_file
    } else if action == "update"@ {
        match status {
            Some(s) => status_allowed(policy.tracker_claim, policy.tracker_finish, policy.tracker_release, s),
            None => policy.tracker_claim || policy.tracker_finish || policy.tracker_release,
        }
    } else {
        true
    };
    let name = match policy.profile {
        Some(p) => p@,
        None => "<unspecified>"@,
    };
    if !profile_allows {
        Some("tracker "@ + action + " is not permitted by profile `"@ + name + "`"@)
    } else {
        match access {
            None => None,
            Some(a) => {
                let granted = if action == "file"@ {
                    a.file
                } else if action == "update"@ {
                    match status {
                        Some(s) => status_allowed(a.claim, a.finish, a.release, s),
                        None => a.claim || a.finish || a.release,
                    }
                } else {
                    true
                };
                if granted {
                    None
                } else {
                    Some("tracker "@ + action + " is not granted for this turn ("@ + tracker_grant_needed(action, status) + " required)"@)
                }
            },
        }
    }
}

/// The grant a refused tracker action needs.
pub open spec fn tracker_grant_needed(action: Seq<char>, status: Option<Seq<char>>) -> Seq<char> {
    if action == "file"@ {
        "`with access to tracker { file }`"@
    } else if action == "update"@ && status == Some("in_progress"@) {
        "`with access to tracker { claim }`"@
    } else if action == "update"@ && status == Some("completed"@) {
        "`with access to tracker { finish }`"@
    } else if action == "update"@ && status == Some("pending"@) {
        "`with access to tracker { release }`"@
    } else if action == "update"@ {
        "`with access to tracker { update }`"@
    } else {
        "`with access to tracker { write }`"@
    }
}

fn tracker_grant_needed_exec(action: &str, status: Option<&str>) -> (r: &'static str)
    ensures
        r@ == tracker_grant_needed(action@, crate::harness::opt_str_view(status)),
{
    if str_eq(action, "file") {
        return "`with access to tracker { file }`";
    }
    if str_eq(action, "update") {
        match status {
            Some(s) => {
                if str_eq(s, "in_progress") {
                    return "`with access to tracker { claim }`";
                } else if str_eq(s, "completed") {
                    return "`with access to tracker { finish }`";
                } else if str_eq(s, "pending") {
                    return "`with access to tracker { release }`";
                }
            },
            None => {},
        }
        return "`with access to tracker { update }`";
    }
    "`with access to tracker { write }`"
}

/// The first refusal among the command words, in order.
pub open spec fn first_path_refusal(words: Seq<Seq<char>>, i: int) -> Option<Seq<char>>
    decreases words.len() - i,
{
    if i < 0 || i >= words.len() {
        None
    } else {
        match path_argument_violation(words[i]) {
            Some(reason) => Some("command path argument `"@ + words[i] + "` refused: "@ + reason),
            None => first_path_refusal(words, i + 1),
        }
    }
}

/// The result of checking a command's path arguments.
pub open spec fn path_boundary(b: Seq<u8>) -> Result<(), Seq<char>> {
    match words_from(b, 0, Seq::empty()) {
        Err(e) => Err(e),
        Ok(words) => match first_path_refusal(words, 0) {
            Some(m) => Err(m),
            None => Ok(()),
        },
    }
}

/// A view of a unit result.
pub open spec fn unit_result_view(r: Result<(), String>) -> Result<(), Seq<char>> {
    match r {
        Ok(()) => Ok(()),
        Err(e) => Err(e@),
    }
}

/// A character that makes a redirection target dynamic.
pub open spec fn dynamic_char(c: char) -> bool {
    c == '$' || c == '`' || c == '*' || c == '?' || c == '[' || c == ']' || c == '{' || c == '}' || c == '~'
}

/// Why the first refused redirection target among `targets` is refused:
/// fd targets and `/dev/null` are skipped where `output`; a target that is
/// not a literal path, or one the file policy refuses for reading (input)
/// or writing (output), is refused.
pub open spec fn target_refusal(
    targets: Seq<Seq<char>>,
    output: bool,
    policy: HarnessProfilePolicy,
    file_policy: Option<Vec<FileStoreScope>>,
) -> Option<Seq<char>>
    decreases targets.len(),
{
    if targets.len() == 0 {
        None
    } else {
        let t = targets[0];
        if output && (fd_target(t) || t == "/dev/null"@) {
            target_refusal(targets.drop_first(), output, policy, file_policy)
        } else if exists|i: int| 0 <= i < t.len() && dynamic_char(#[trigger] t[i]) {
            Some(
                if output {
                    "command output redirection target `"@ + t + "` must be a literal workspace-relative path"@
                } else {
                    "command input redirection target `"@ + t + "` must be a literal workspace-relative path"@
                },
            )
        } else {
            match path_refusal(policy, file_policy, t, if output { "write"@ } else { "read"@ }) {
                Some(reason) => Some(
                    if output {
                        "command output redirection to `"@ + t + "` refused: "@ + reason
                    } else {
                        "command input redirection from `"@ + t + "` refused: "@ + reason
                    },
                ),
                None => target_refusal(targets.drop_first(), output, policy, file_policy),
            }
        }
    }
}

/// Why a command's redirections are refused before any glob is matched: a
/// target that cannot be found, one that is not a literal path, or one the
/// file policy refuses; input redirections first.
pub open spec fn redirect_refusal(
    b: Seq<u8>,
    policy: HarnessProfilePolicy,
    file_policy: Option<Vec<FileStoreScope>>,
) -> Option<Seq<char>> {
    match redirect_targets(b, 0, false, false, false, Seq::empty(), true) {
        Err(e) => Some(e),
        Ok(ins) => match target_refusal(ins, false, policy, file_policy) {
            Some(m) => Some(m),
            None => match redirect_targets(b, 0, false, false, false, Seq::empty(), false) {
                Err(e) => Some(e),
                Ok(outs) => target_refusal(outs, true, policy, file_policy),
            },
        },
    }
}

/// Why `bash` refuses a command, in the order it checks: the profile must
/// allow bash; an installed turn policy must grant commands; the trimmed
/// command must be on the allow-list; its redirections must name literal
/// paths that the file policy does not refuse; it must use no shell control, substitution or expansion; and its
/// path arguments must stay in the workspace.
pub open spec fn bash_refusal_spec(
    policy: HarnessProfilePolicy,
    file_policy: Option<Vec<FileStoreScope>>,
    granted: Option<bool>,
    allow: Seq<String>,
    command: Seq<char>,
    b: Seq<u8>,
) -> Option<Seq<char>> {
    if !policy.bash {
        Some(
            "bash is not permitted by profile `"@ + (match policy.profile {
                Some(p) => p@,
                None => "<unspecified>"@,
            }) + "`"@,
        )
    } else if granted == Some(false) {
        Some("bash is not granted for this turn (`with access to command { run }` required)"@)
    } else if !allow_list_admits(allow, trim_spec(command)) {
        Some("command refused: `"@ + command + "` is not permitted by WHIPPLESCRIPT_HARNESS_BASH_ALLOW"@)
    } else {
        match redirect_refusal(b, policy, file_policy) {
            Some(e) => Some(e),
            None => match arg_violation(b, 0, false, false, false) {
                Some(r) => Some("command refused: "@ + r),
                None => match path_boundary(b) {
                    Err(e) => Some(e),
                    Ok(_) => None,
                },
            },
        }
    }
}

/// The first of the targets that is not a literal path.
impl FileToolExecutor {
    /// A workspace-rooted executor with no store, turn or profile policy
    /// beyond the permissive profile; `bash_allow` is the command allow-list.
    pub fn new(root: String, bash_allow: Vec<String>) -> (r: Self)
        ensures
            r.root == root,
            r.file_policy is None,
            r.bash_allow == bash_allow,
            r.profile_policy.profile is None,
            r.profile_policy.caps() == crate::harness::uniform_caps(true),
            r.tracker_queue is None,
            r.holder@ == "agent"@,
            r.max_bytes == DEFAULT_MAX_BYTES,
            r.command_run_granted is None,
            r.tracker_access is None,
            r.workflow_tools@.len() == 0,
            r.store_path is None,
            r.max_child_iterations == 8,
            r.work_unit@.len() == 0,
            r.skill_bodies@.len() == 0,
            r.content_store_path is None,
    {
        FileToolExecutor {
            root,
            file_policy: None,
            bash_allow,
            profile_policy: HarnessProfilePolicy::permissive(),
            tracker_queue: None,
            holder: "agent".to_owned(),
            max_bytes: DEFAULT_MAX_BYTES,
            command_run_granted: None,
            tracker_access: None,
            workflow_tools: Vec::new(),
            store_path: None,
            max_child_iterations: 8,
            work_unit: String::new(),
            skill_bodies: Vec::new(),
            content_store_path: None,
        }
    }

    /// Installs the skill registry: catalogue location to registered body.
    pub fn with_skill_bodies(self, skill_bodies: Vec<(String, String)>) -> (r: Self)
        ensures
            r == (FileToolExecutor { skill_bodies, ..self }),
    {
        FileToolExecutor { skill_bodies, ..self }
    }

    /// Enables capture of large tool outputs into a content store.
    pub fn with_content_store(self, path: String) -> (r: Self)
        ensures
            r == (FileToolExecutor { content_store_path: Some(path), ..self }),
    {
        FileToolExecutor { content_store_path: Some(path), ..self }
    }

    /// Registers `@tool` sub-workflows, their run store, the per-child
    /// iteration bound (at least 1) and the work unit they run under.
    pub fn with_workflow_tools(
        self,
        workflow_tools: Vec<WorkflowToolEntry>,
        store_path: String,
        max_child_iterations: usize,
        work_unit: String,
    ) -> (r: Self)
        ensures
            r == (FileToolExecutor {
                workflow_tools,
                store_path: Some(store_path),
                max_child_iterations: if max_child_iterations >= 1 { max_child_iterations } else { 1 },
                work_unit,
                ..self
            }),
    {
        let bound = if max_child_iterations >= 1 { max_child_iterations } else { 1 };
        FileToolExecutor {
            workflow_tools,
            store_path: Some(store_path),
            max_child_iterations: bound,
            work_unit,
            ..self
        }
    }

    /// Enables the tracker tools on `queue`, attributing writes to `holder`.
    pub fn with_tracker(self, queue: String, holder: String) -> (r: Self)
        ensures
            r == (FileToolExecutor { tracker_queue: Some(queue), holder, ..self }),
    {
        FileToolExecutor { tracker_queue: Some(queue), holder, ..self }
    }

    /// Installs a store-only policy rooted at the workspace: the grant is
    /// unrestricted and the store's `allow` globs are the ceiling.
    pub fn with_policy(self, store_name: String, allow_read: Vec<String>, allow_write: Vec<String>) -> (r: Self)
        ensures
            r.file_policy is Some,
            ({
                let scopes = r.file_policy->Some_0@;
                &&& scopes.len() == 1
                &&& scopes[0].store_name == store_name
                &&& scopes[0].root@.len() == 0
                &&& scopes[0].grant_read is Some && scopes[0].grant_read->Some_0@.len() == 0
                &&& scopes[0].grant_write is Some && scopes[0].grant_write->Some_0@.len() == 0
                &&& scopes[0].store_read == allow_read
                &&& scopes[0].store_write == allow_write
            }),
            r == (FileToolExecutor { file_policy: r.file_policy, ..self }),
    {
        let mut scopes: Vec<FileStoreScope> = Vec::new();
        scopes.push(
            FileStoreScope {
                store_name,
                root: String::new(),
                grant_read: Some(Vec::new()),
                grant_write: Some(Vec::new()),
                store_read: allow_read,
                store_write: allow_write,
            },
        );
        FileToolExecutor { file_policy: Some(scopes), ..self }
    }

    /// Installs a turn's file grants with commands and tracker writes denied.
    pub fn with_turn_file_access(self, access: TurnFileAccess) -> (r: Self)
        ensures
            r == (FileToolExecutor {
                file_policy: Some(access.scopes),
                command_run_granted: Some(false),
                tracker_access: Some(TurnTrackerAccess { file: false, claim: false, finish: false, release: false }),
                ..self
            }),
    {
        FileToolExecutor {
            file_policy: Some(access.scopes),
            command_run_granted: Some(false),
            tracker_access: Some(TurnTrackerAccess::deny_all()),
            ..self
        }
    }

    /// Installs everything a turn was granted.
    pub fn with_turn_tool_access(self, access: TurnToolAccess) -> (r: Self)
        ensures
            r == (FileToolExecutor {
                file_policy: Some(access.file.scopes),
                command_run_granted: Some(access.command_run),
                tracker_access: Some(access.tracker),
                ..self
            }),
    {
        FileToolExecutor {
            file_policy: Some(access.file.scopes),
            command_run_granted: Some(access.command_run),
            tracker_access: Some(access.tracker),
            ..self
        }
    }

    /// Installs the built-in policy of a profile.
    pub fn with_profile_policy(self, profile: Option<&str>) -> (r: Self)
        ensures
            crate::harness::opt_string_seq(r.profile_policy.profile) == crate::harness::builtin_profile_name(
                crate::harness::opt_str_view(profile),
            ),
            r.profile_policy.caps() == crate::harness::builtin_caps(crate::harness::opt_str_view(profile)),
            r == (FileToolExecutor { profile_policy: r.profile_policy, ..self }),
    {
        FileToolExecutor { profile_policy: HarnessProfilePolicy::for_profile(profile), ..self }
    }

    /// Installs an already resolved profile policy.
    pub fn with_resolved_profile_policy(self, policy: HarnessProfilePolicy) -> (r: Self)
        ensures
            r == (FileToolExecutor { profile_policy: policy, ..self }),
    {
        FileToolExecutor { profile_policy: policy, ..self }
    }

    /// Replaces the command allow-list.
    pub fn with_bash_allow(self, allow: Vec<String>) -> (r: Self)
        ensures
            r == (FileToolExecutor { bash_allow: allow, ..self }),
    {
        FileToolExecutor { bash_allow: allow, ..self }
    }

    /// The trimmed command is admitted by the allow-list.
    pub fn command_allowed(&self, command: &str) -> (r: bool)
        ensures
            r == allow_list_admits(self.bash_allow@, trim_spec(command@)),
    {
        let trimmed = trim_chars(&chars_of(command));
        let t = string_from_chars(&trimmed);
        self.command_prefix_allowed(t.as_str())
    }

    /// Some allow-list prefix admits the command.
    pub fn command_prefix_allowed(&self, command: &str) -> (r: bool)
        ensures
            r == allow_list_admits(self.bash_allow@, command@),
    {
        let c = chars_of(command);
        let mut i: usize = 0;
        while i < self.bash_allow.len()
            invariant
                i <= self.bash_allow@.len(),
                c@ == command@,
                forall|j: int| 0 <= j < i ==> !prefix_admits(#[trigger] self.bash_allow@[j]@, command@),
            decreases self.bash_allow.len() - i,
        {
            if prefix_admits_exec(self.bash_allow[i].as_str(), &c) {
                return true;
            }
            i += 1;
        }
        false
    }

    /// Refuses a command whose words pass a path outside the workspace.
    pub fn enforce_command_path_argument_boundary(&self, command: &str) -> (r: Result<(), String>)
        ensures
            unit_result_view(r) == path_boundary(command.spec_bytes()),
    {
        let words = match command_words(command) {
            Err(e) => return Err(e),
            Ok(w) => w,
        };
        let ghost wv = views(words@);
        assert(crate::shell::strings_view(words@) == wv);
        let mut i: usize = 0;
        while i < words.len()
            invariant
                i <= words@.len(),
                wv == views(words@),
                words_from(command.spec_bytes(), 0, Seq::empty()) == Ok::<Seq<Seq<char>>, Seq<char>>(wv),
                first_path_refusal(wv, 0) == first_path_refusal(wv, i as int),
            decreases words.len() - i,
        {
            let word = words[i].as_str();
            assert(wv[i as int] == word@);
            match command_path_argument_policy_violation(word) {
                Some(reason) => {
                    let mut message = "command path argument `".to_owned();
                    message.append(word);
                    message.append("` refused: ");
                    message.append(reason.as_str());
                    return Err(message);
                },
                None => {},
            }
            i += 1;
        }
        Ok(())
    }

    /// Whether the profile and the turn's tracker grants allow a tracker
    /// `action` (`file` or `update`, possibly to `status`); the refusal
    /// message when not.
    pub fn tracker_write_policy(&self, action: &str, status: Option<&str>) -> (r: Option<String>)
        ensures
            crate::shell::opt_string_view(r) == tracker_refusal(
                self.profile_policy,
                self.tracker_access,
                action@,
                crate::harness::opt_str_view(status),
            ),
    {
        let pp = &self.profile_policy;
        let profile_allows = if str_eq(action, "file") {
            pp.tracker_file
        } else if str_eq(action, "update") {
            match status {
                Some(s) => pp.allows_tracker_status(s),
                None => pp.allows_tracker_update(),
            }
        } else {
            true
        };
        if !profile_allows {
            let mut message = "tracker ".to_owned();
            message.append(action);
            message.append(" is not permitted by profile `");
            message.append(pp.profile_name());
            message.append("`");
            return Some(message);
        }
        match &self.tracker_access {
            None => None,
            Some(access) => {
                let granted = if str_eq(action, "file") {
                    access.file
                } else if str_eq(action, "update") {
                    match status {
                        Some(s) => access.allows_status(s),
                        None => access.allows_update(),
                    }
                } else {
                    true
                };
                if granted {
                    None
                } else {
                    let mut message = "tracker ".to_owned();
                    message.append(action);
                    message.append(" is not granted for this turn (");
                    message.append(tracker_grant_needed_exec(action, status));
                    message.append(" required)");
                    Some(message)
                }
            },
        }
    }
}


impl FileToolExecutor {
    /// Why `bash` refuses a command before running it, if it does. The
    /// grant and store globs of redirection targets are the caller's to
    /// match.
    pub fn bash_refusal(&self, command: &str) -> (r: Option<String>)
        ensures
            opt_string_view(r) == bash_refusal_spec(
                self.profile_policy,
                self.file_policy,
                self.command_run_granted,
                self.bash_allow@,
                command@,
                command.spec_bytes(),
            ),
    {
        proof {
            reveal_strlit("/dev/null");
        }
        if !self.profile_policy.bash {
            let mut m = "bash is not permitted by profile `".to_owned();
            m.append(self.profile_policy.profile_name());
            m.append("`");
            return Some(m);
        }
        if self.command_run_granted == Some(false) {
            return Some("bash is not granted for this turn (`with access to command { run }` required)".to_owned());
        }
        if !self.command_allowed(command) {
            let mut m = "command refused: `".to_owned();
            m.append(command);
            m.append("` is not permitted by WHIPPLESCRIPT_HARNESS_BASH_ALLOW");
            return Some(m);
        }
        let inputs = match command_input_redirection_targets(command) {
            Err(e) => {
                return Some(e);
            },
            Ok(t) => t,
        };
        match self.first_target_refusal(&inputs, false) {
            Some(m) => {
                return Some(m);
            },
            None => {},
        }
        let outputs = match command_output_redirection_targets(command) {
            Err(e) => {
                return Some(e);
            },
            Ok(t) => t,
        };
        match self.first_target_refusal(&outputs, true) {
            Some(m) => {
                return Some(m);
            },
            None => {},
        }
        match command_argument_policy_violation(command) {
            Some(reason) => {
                let mut m = "command refused: ".to_owned();
                m.append(reason.as_str());
                return Some(m);
            },
            None => {},
        }
        match self.enforce_command_path_argument_boundary(command) {
            Err(e) => Some(e),
            Ok(_) => None,
        }
    }
}

/// Where a file tool's path stands with the turn's policies before any
/// glob is matched.
pub enum PathPolicy {
    /// Refused, with the message the tool reports.
    Refused(String),
    /// No store policy is installed: the workspace-wide check applies to the
    /// path as given.
    Workspace,
    /// The path routes to a granted store. The path relative to the store
    /// root must match one of the turn's grant globs (when there are any),
    /// and then the store's own globs.
    Store { store_name: String, relative: String, grant_globs: Vec<String>, store_globs: Vec<String> },
}

/// The granted store a path routes to: of the stores whose root contains
/// it, the one with the longest root; of several, the last.
pub open spec fn route(scopes: Seq<FileStoreScope>, path: Seq<char>) -> Option<int>
    decreases scopes.len(),
{
    if scopes.len() == 0 {
        None
    } else {
        let rest = route(scopes.drop_last(), path);
        let last = scopes.len() - 1;
        if root_contains(scopes.last().root@, path) {
            match rest {
                Some(j) => if scopes[j].root@.len() <= scopes.last().root@.len() {
                    Some(last)
                } else {
                    Some(j)
                },
                None => Some(last),
            }
        } else {
            rest
        }
    }
}

/// The grant globs of a store for an operation (`None`: not granted).
pub open spec fn grant_for(scope: FileStoreScope, write: bool) -> Option<Vec<String>> {
    if write {
        scope.grant_write
    } else {
        scope.grant_read
    }
}

/// Why a file tool refuses `path` for `op` before any glob is matched: the
/// profile forbids the operation; no store is granted; the path is absolute
/// or climbs with `..`; no granted store's root contains it; or the store
/// it routes to does not grant the operation.
pub open spec fn path_refusal(
    policy: HarnessProfilePolicy,
    file_policy: Option<Vec<FileStoreScope>>,
    path: Seq<char>,
    op: Seq<char>,
) -> Option<Seq<char>> {
    let write = op == "write"@;
    let name = match policy.profile {
        Some(p) => p@,
        None => "<unspecified>"@,
    };
    if write && !policy.write_files {
        Some("file write is not permitted by profile `"@ + name + "`"@)
    } else if !write && !policy.read_files {
        Some("file read is not permitted by profile `"@ + name + "`"@)
    } else {
        match file_policy {
            None => None,
            Some(scopes) => if scopes@.len() == 0 {
                Some("file "@ + op + " is not granted for this turn"@)
            } else if (path.len() > 0 && path[0] == '/') || has_parent_component(path) {
                Some("path `"@ + path + "` escapes the store root"@)
            } else {
                match route(scopes@, path) {
                    None => Some("path `"@ + path + "` is outside every file store granted to this turn"@),
                    Some(i) => if grant_for(scopes@[i], write) is None {
                        Some("file "@ + op + " is not granted for store `"@ + scopes@[i].store_name@ + "` in this turn"@)
                    } else {
                        None
                    },
                }
            },
        }
    }
}

/// The store `path` routes to among `scopes`.
fn route_index(scopes: &Vec<FileStoreScope>, path: &str) -> (r: Option<usize>)
    ensures
        match r {
            Some(i) => i < scopes@.len() && route(scopes@, path@) == Some(i as int),
            None => route(scopes@, path@) is None,
        },
{
    let mut best: Option<usize> = None;
    let mut best_len: usize = 0;
    let mut i: usize = 0;
    while i < scopes.len()
        invariant
            i <= scopes@.len(),
            match best {
                Some(j) => j < i && route(scopes@.subrange(0, i as int), path@) == Some(j as int)
                    && best_len == scopes@[j as int].root@.len(),
                None => route(scopes@.subrange(0, i as int), path@) is None,
            },
        decreases scopes.len() - i,
    {
        let ghost sub = scopes@.subrange(0, i + 1);
        assert(sub.drop_last() =~= scopes@.subrange(0, i as int));
        assert(sub.last() == scopes@[i as int]);
        if store_root_contains(scopes[i].root.as_str(), path) {
            let len = chars_of(scopes[i].root.as_str()).len();
            match best {
                Some(j) => {
                    assert(sub[j as int] == scopes@[j as int]);
                    if best_len <= len {
                        best = Some(i);
                        best_len = len;
                    }
                },
                None => {
                    best = Some(i);
                    best_len = len;
                },
            }
        }
        i += 1;
    }
    assert(scopes@.subrange(0, scopes@.len() as int) =~= scopes@);
    best
}

impl FileToolExecutor {
    /// Where `path` stands for the file operation `op` (`read` or `write`)
    /// with the profile, the granted stores and their grants, before the
    /// grant and store globs are matched against it.
    pub fn policy(&self, path: &str, op: &str) -> (r: PathPolicy)
        ensures
            match path_refusal(self.profile_policy, self.file_policy, path@, op@) {
                Some(m) => r matches PathPolicy::Refused(t) && t@ == m,
                None => match self.file_policy {
                    None => r is Workspace,
                    Some(scopes) => {
                        let i = route(scopes@, path@)->Some_0;
                        let write = op@ == "write"@;
                        &&& route(scopes@, path@) is Some
                        &&& r matches PathPolicy::Store { store_name, relative, grant_globs, store_globs }
                        &&& store_name@ == scopes@[i].store_name@
                        &&& relative@ == relative_to_root(scopes@[i].root@, path@)
                        &&& views(grant_globs@) == views(grant_for(scopes@[i], write)->Some_0@)
                        &&& views(store_globs@) == views(
                            if write {
                                scopes@[i].store_write@
                            } else {
                                scopes@[i].store_read@
                            },
                        )
                    },
                },
            },
    {
        let write = str_eq(op, "write");
        proof {
            reveal_strlit("write");
        }
        if write && !self.profile_policy.write_files {
            let mut m = "file write is not permitted by profile `".to_owned();
            m.append(self.profile_policy.profile_name());
            m.append("`");
            return PathPolicy::Refused(m);
        }
        if !write && !self.profile_policy.read_files {
            let mut m = "file read is not permitted by profile `".to_owned();
            m.append(self.profile_policy.profile_name());
            m.append("`");
            return PathPolicy::Refused(m);
        }
        let scopes = match &self.file_policy {
            None => {
                return PathPolicy::Workspace;
            },
            Some(scopes) => scopes,
        };
        if scopes.len() == 0 {
            let mut m = "file ".to_owned();
            m.append(op);
            m.append(" is not granted for this turn");
            return PathPolicy::Refused(m);
        }
        let cs = chars_of(path);
        if (cs.len() > 0 && cs[0] == '/') || path_has_parent_component(&cs) {
            let mut m = "path `".to_owned();
            m.append(path);
            m.append("` escapes the store root");
            return PathPolicy::Refused(m);
        }
        let i = match route_index(scopes, path) {
            None => {
                let mut m = "path `".to_owned();
                m.append(path);
                m.append("` is outside every file store granted to this turn");
                return PathPolicy::Refused(m);
            },
            Some(i) => i,
        };
        let scope = &scopes[i];
        let grant = if write {
            &scope.grant_write
        } else {
            &scope.grant_read
        };
        let grant_globs = match grant {
            None => {
                let mut m = "file ".to_owned();
                m.append(op);
                m.append(" is not granted for store `");
                m.append(scope.store_name.as_str());
                m.append("` in this turn");
                return PathPolicy::Refused(m);
            },
            Some(globs) => copy_strings(globs),
        };
        let store_globs = if write {
            copy_strings(&scope.store_write)
        } else {
            copy_strings(&scope.store_read)
        };
        PathPolicy::Store {
            store_name: scope.store_name.clone(),
            relative: store_relative_path(scope.root.as_str(), path),
            grant_globs,
            store_globs,
        }
    }
}

impl FileToolExecutor {
    /// Why the first refused redirection target among `targets` is refused.
    fn first_target_refusal(&self, targets: &Vec<String>, output: bool) -> (r: Option<String>)
        ensures
            opt_string_view(r) == target_refusal(views(targets@), output, self.profile_policy, self.file_policy),
    {
        proof {
            reveal_strlit("/dev/null");
        }
        let ghost tv = views(targets@);
        let mut i: usize = 0;
        assert(tv.subrange(0, tv.len() as int) =~= tv);
        while i < targets.len()
            invariant
                i <= targets.len(),
                tv == views(targets@),
                target_refusal(tv, output, self.profile_policy, self.file_policy) == target_refusal(
                    tv.subrange(i as int, tv.len() as int),
                    output,
                    self.profile_policy,
                    self.file_policy,
                ),
            decreases targets.len() - i,
        {
            let ghost rest = tv.subrange(i as int, tv.len() as int);
            assert(rest.drop_first() =~= tv.subrange(i + 1, tv.len() as int));
            assert(rest[0] == targets@[i as int]@);
            let t = targets[i].as_str();
            let skipped = output && (is_fd_redirection_target(t) || str_eq(t, "/dev/null"));
            if !skipped {
                let cs = chars_of(t);
                let mut k: usize = 0;
                let mut dynamic = false;
                while k < cs.len()
                    invariant
                        k <= cs.len(),
                        cs@ == t@,
                        dynamic == exists|j: int| 0 <= j < k && dynamic_char(#[trigger] cs@[j]),
                    decreases cs.len() - k,
                {
                    let c = cs[k];
                    if c == '$' || c == '`' || c == '*' || c == '?' || c == '[' || c == ']' || c == '{' || c == '}'
                        || c == '~' {
                        dynamic = true;
                    }
                    k += 1;
                }
                if dynamic {
                    let mut m = if output {
                        "command output redirection target `".to_owned()
                    } else {
                        "command input redirection target `".to_owned()
                    };
                    m.append(t);
                    m.append("` must be a literal workspace-relative path");
                    return Some(m);
                }
                let verdict = if output {
                    self.policy(t, "write")
                } else {
                    self.policy(t, "read")
                };
                proof {
                    reveal_strlit("write");
                    reveal_strlit("read");
                }
                match verdict {
                    PathPolicy::Refused(reason) => {
                        let mut m = if output {
                            "command output redirection to `".to_owned()
                        } else {
                            "command input redirection from `".to_owned()
                        };
                        m.append(t);
                        m.append("` refused: ");
                        m.append(reason.as_str());
                        return Some(m);
                    },
                    _ => {},
                }
            }
            i += 1;
        }
        None
    }
}

/// The body registered for the skill catalogue location `path`: that of
/// the first entry at `path`.
pub open spec fn skill_body_at(bodies: Seq<(String, String)>, path: Seq<char>) -> Option<Seq<char>>
    decreases bodies.len(),
{
    if bodies.len() == 0 {
        None
    } else if bodies[0].0@ == path {
        Some(bodies[0].1@)
    } else {
        skill_body_at(bodies.drop_first(), path)
    }
}

impl FileToolExecutor {
    /// The registered body a `read` of `path` resolves to, where `path` is
    /// a skill catalogue location; such a read bypasses the file policy and
    /// the filesystem.
    pub fn skill_body(&self, path: &str) -> (r: Option<&str>)
        ensures
            match r {
                Some(b) => skill_body_at(self.skill_bodies@, path@) == Some(b@),
                None => skill_body_at(self.skill_bodies@, path@) is None,
            },
    {
        let mut i: usize = 0;
        assert(self.skill_bodies@.subrange(0, self.skill_bodies@.len() as int) =~= self.skill_bodies@);
        while i < self.skill_bodies.len()
            invariant
                i <= self.skill_bodies@.len(),
                skill_body_at(self.skill_bodies@, path@) == skill_body_at(
                    self.skill_bodies@.subrange(i as int, self.skill_bodies@.len() as int),
                    path@,
                ),
            decreases self.skill_bodies.len() - i,
        {
            let ghost rest = self.skill_bodies@.subrange(i as int, self.skill_bodies@.len() as int);
            assert(rest.drop_first() =~= self.skill_bodies@.subrange(i + 1, self.skill_bodies@.len() as int));
            assert(rest[0] == self.skill_bodies@[i as int]);
            if str_eq(self.skill_bodies[i].0.as_str(), path) {
                return Some(self.skill_bodies[i].1.as_str());
            }
            i += 1;
        }
        None
    }
}

/// The tool a call names.
#[derive(Clone, Copy, Debug, PartialEq, Eq, Structural)]
pub enum ToolRoute {
    ListTodos,
    AddTodo,
    UpdateTodo,
    Bash,
    Read,
    Write,
    Edit,
    Grep,
    Find,
    Ls,
    Recall,
    /// The registered workflow tool at this index.
    Workflow(usize),
}

/// The index of the first workflow tool named `name`.
pub open spec fn workflow_tool_index(tools: Seq<WorkflowToolEntry>, name: Seq<char>) -> Option<int>
    decreases tools.len(),
{
    if tools.len() == 0 {
        None
    } else {
        match workflow_tool_index(tools.drop_last(), name) {
            Some(k) => Some(k),
            None => if tools.last().name@ == name {
                Some(tools.len() - 1)
            } else {
                None
            },
        }
    }
}

/// The tool a call of `name` routes to: a built-in tool by its name, else
/// the first registered workflow tool of that name; `None` for an unknown
/// tool.
pub open spec fn tool_route_spec(name: Seq<char>, tools: Seq<WorkflowToolEntry>) -> Option<ToolRoute> {
    if name == TOOL_LIST_TODOS@ {
        Some(ToolRoute::ListTodos)
    } else if name == TOOL_ADD_TODO@ {
        Some(ToolRoute::AddTodo)
    } else if name == TOOL_UPDATE_TODO@ {
        Some(ToolRoute::UpdateTodo)
    } else if name == TOOL_BASH@ {
        Some(ToolRoute::Bash)
    } else if name == TOOL_READ@ {
        Some(ToolRoute::Read)
    } else if name == TOOL_WRITE@ {
        Some(ToolRoute::Write)
    } else if name == TOOL_EDIT@ {
        Some(ToolRoute::Edit)
    } else if name == TOOL_GREP@ {
        Some(ToolRoute::Grep)
    } else if name == TOOL_FIND@ {
        Some(ToolRoute::Find)
    } else if name == TOOL_LS@ {
        Some(ToolRoute::Ls)
    } else if name == TOOL_RECALL@ {
        Some(ToolRoute::Recall)
    } else {
        match workflow_tool_index(tools, name) {
            Some(k) => Some(ToolRoute::Workflow(k as usize)),
            None => None,
        }
    }
}

/// What a tool call comes to once it ran: whether it succeeded, the text
/// the model sees (capped to the output budget), and whether the full
/// output is to be captured for `recall` (a success over the budget, with a
/// content store) so that its recall footer follows the text.
pub struct ToolOutcome {
    pub ok: bool,
    pub content: String,
    pub captured: bool,
}

impl FileToolExecutor {
    /// The tool a call of `name` routes to; an unknown tool is refused.
    pub fn route_tool(&self, name: &str) -> (r: Result<ToolRoute, String>)
        ensures
            match tool_route_spec(name@, self.workflow_tools@) {
                Some(route) => r == Ok::<ToolRoute, String>(route),
                None => r matches Err(m) && m@ == "unknown tool `"@ + name@ + "`"@,
            },
    {
        if str_eq(name, TOOL_LIST_TODOS) {
            return Ok(ToolRoute::ListTodos);
        }
        if str_eq(name, TOOL_ADD_TODO) {
            return Ok(ToolRoute::AddTodo);
        }
        if str_eq(name, TOOL_UPDATE_TODO) {
            return Ok(ToolRoute::UpdateTodo);
        }
        if str_eq(name, TOOL_BASH) {
            return Ok(ToolRoute::Bash);
        }
        if str_eq(name, TOOL_READ) {
            return Ok(ToolRoute::Read);
        }
        if str_eq(name, TOOL_WRITE) {
            return Ok(ToolRoute::Write);
        }
        if str_eq(name, TOOL_EDIT) {
            return Ok(ToolRoute::Edit);
        }
        if str_eq(name, TOOL_GREP) {
            return Ok(ToolRoute::Grep);
        }
        if str_eq(name, TOOL_FIND) {
            return Ok(ToolRoute::Find);
        }
        if str_eq(name, TOOL_LS) {
            return Ok(ToolRoute::Ls);
        }
        if str_eq(name, TOOL_RECALL) {
            return Ok(ToolRoute::Recall);
        }
        let mut i: usize = 0;
        while i < self.workflow_tools.len()
            invariant
                i <= self.workflow_tools@.len(),
                tool_route_spec(name@, self.workflow_tools@) == match workflow_tool_index(self.workflow_tools@, name@) {
                    Some(k) => Some(ToolRoute::Workflow(k as usize)),
                    None => None::<ToolRoute>,
                },
                workflow_tool_index(self.workflow_tools@.subrange(0, i as int), name@) is None,
            decreases self.workflow_tools.len() - i,
        {
            let ghost pre = self.workflow_tools@.subrange(0, i + 1);
            assert(pre.drop_last() =~= self.workflow_tools@.subrange(0, i as int));
            if str_eq(self.workflow_tools[i].name.as_str(), name) {
                proof {
                    assert(workflow_tool_index(pre, name@) == Some(i as int));
                    lemma_workflow_tool_prefix(self.workflow_tools@, name@, i as int + 1);
                }
                return Ok(ToolRoute::Workflow(i));
            }
            i += 1;
        }
        assert(self.workflow_tools@.subrange(0, self.workflow_tools@.len() as int) =~= self.workflow_tools@);
        let mut m = "unknown tool `".to_owned();
        m.append(name);
        m.append("`");
        Err(m)
    }

    /// Why a routed tool cannot run in this turn before it touches anything:
    /// `recall` (after its `id` argument) needs a content store,
    /// `list_todos` a tracker, and a workflow tool the profile's invoke
    /// grant, then a store.
    pub fn tool_unavailable(&self, route: ToolRoute, args: &Json) -> (r: Option<String>)
        ensures
            route is Recall ==> match args.get_spec("id"@) {
                Some(v) if v.str_spec() is Some => if self.content_store_path is None {
                    r matches Some(m) && m@ == "recall is not available for this turn"@
                } else {
                    r is None
                },
                _ => r matches Some(m) && m@ == "missing required string argument `"@ + "id"@ + "`"@,
            },
            route is ListTodos ==> if self.tracker_queue is None {
                r matches Some(m) && m@ == "tracker tools are not enabled for this turn (no tracker configured)"@
            } else {
                r is None
            },
            route is Workflow ==> if !self.profile_policy.workflow_invoke {
                r matches Some(m) && m@ == "workflow tool invoke is not permitted by profile `"@ + (match self.profile_policy.profile {
                    Some(p) => p@,
                    None => "<unspecified>"@,
                }) + "`"@
            } else if self.store_path is None {
                r matches Some(m) && m@ == "workflow tools are not enabled for this turn (no store configured)"@
            } else {
                r is None
            },
            !(route is Recall || route is ListTodos || route is Workflow) ==> r is None,
    {
        match route {
            ToolRoute::Recall => match crate::files::str_arg(args, "id") {
                Err(e) => Some(e),
                Ok(_) => if self.content_store_path.is_none() {
                    Some("recall is not available for this turn".to_owned())
                } else {
                    None
                },
            },
            ToolRoute::ListTodos => if self.tracker_queue.is_none() {
                Some("tracker tools are not enabled for this turn (no tracker configured)".to_owned())
            } else {
                None
            },
            ToolRoute::Workflow(_) => if !self.profile_policy.workflow_invoke {
                let mut m = "workflow tool invoke is not permitted by profile `".to_owned();
                m.append(self.profile_policy.profile_name());
                m.append("`");
                Some(m)
            } else if self.store_path.is_none() {
                Some("workflow tools are not enabled for this turn (no store configured)".to_owned())
            } else {
                None
            },
            _ => None,
        }
    }

    /// What the model sees of a tool's result: the text capped to the
    /// output budget (middle-truncated), marked for capture where a success
    /// overflowed it and a content store is configured.
    pub fn tool_outcome(&self, result: Result<String, String>) -> (r: ToolOutcome)
        ensures
            match result {
                Ok(content) => r.ok && r.content@ == crate::budget::middle_truncated(
                    vstd::utf8::encode_utf8(content@),
                    self.max_bytes as int,
                ) && r.captured == (vstd::utf8::encode_utf8(content@).len() > self.max_bytes && self.content_store_path is Some),
                Err(reason) => !r.ok && r.content@ == crate::budget::middle_truncated(
                    vstd::utf8::encode_utf8(reason@),
                    self.max_bytes as int,
                ) && !r.captured,
            },
    {
        match result {
            Ok(content) => {
                let over = crate::budget::byte_len(content.as_str()) > self.max_bytes;
                ToolOutcome {
                    ok: true,
                    content: crate::budget::middle_truncate(content.as_str(), self.max_bytes),
                    captured: over && self.content_store_path.is_some(),
                }
            },
            Err(reason) => ToolOutcome {
                ok: false,
                content: crate::budget::middle_truncate(reason.as_str(), self.max_bytes),
                captured: false,
            },
        }
    }
}

proof fn lemma_workflow_tool_prefix(tools: Seq<WorkflowToolEntry>, name: Seq<char>, n: int)
    requires
        1 <= n <= tools.len(),
        workflow_tool_index(tools.subrange(0, n), name) is Some,
    ensures
        workflow_tool_index(tools, name) == workflow_tool_index(tools.subrange(0, n), name),
    decreases tools.len(),
{
    if tools.len() > n {
        assert(tools.drop_last().subrange(0, n) =~= tools.subrange(0, n));
        lemma_workflow_tool_prefix(tools.drop_last(), name, n);
    } else {
        assert(tools.subrange(0, n) =~= tools);
    }
}

impl FileToolExecutor {
    /// A `read` of a skill catalogue location: the registered body in the
    /// line window asked for, bypassing the file policy and the filesystem;
    /// `None` where `path` is no registered location (the read goes to the
    /// filesystem).
    pub fn read_skill(&self, path: &str, offset: Option<usize>, limit: Option<usize>) -> (r: Option<Result<String, String>>)
        requires
            ({
                let start = match offset {
                    Some(o) => if o >= 1 { o - 1 } else { 0 },
                    None => 0,
                };
                let window = match limit {
                    Some(l) => l as int,
                    None => crate::lines::DEFAULT_READ_LINE_LIMIT as int,
                };
                start + window <= usize::MAX
            }),
        ensures
            match skill_body_at(self.skill_bodies@, path@) {
                Some(body) => r matches Some(x) && crate::lines::text_result_view(x) == crate::lines::line_window(
                    body,
                    offset,
                    limit,
                ),
                None => r is None,
            },
    {
        match self.skill_body(path) {
            Some(body) => Some(crate::lines::read_line_window(body, offset, limit)),
            None => None,
        }
    }
}


/// Whether a glob list admits a path, by the matcher's verdict on each
/// glob: an empty list admits any path.
pub open spec fn globs_admit(matched: Seq<bool>) -> bool {
    matched.len() == 0 || exists|i: int| 0 <= i < matched.len() && matched[i]
}

/// Which ceiling a path routed to a store meets.
pub enum CeilingVerdict {
    /// Both the turn grant and the store's own globs admit the path.
    Admitted,
    /// The turn grant's globs do not admit the path; the message says so.
    OutsideGrant(String),
    /// The turn grant admits the path but the store's own globs do not.
    OutsideStore,
}

/// Whether some verdict is a match, or there are none.
fn admits(matched: &Vec<bool>) -> (r: bool)
    ensures
        r == globs_admit(matched@),
{
    if matched.len() == 0 {
        return true;
    }
    let mut i: usize = 0;
    while i < matched.len()
        invariant
            i <= matched@.len(),
            forall|j: int| 0 <= j < i ==> !matched@[j],
        decreases matched.len() - i,
    {
        if matched[i] {
            return true;
        }
        i += 1;
    }
    false
}

/// The ceilings of a path routed to a store (see [`PathPolicy::Store`]):
/// first the turn's grant globs, then the store's own globs, so a turn
/// grant never widens what the store allows. `grant_matched[i]` and
/// `store_matched[i]` are whether the `i`-th glob of each list matches the
/// store-relative path.
pub fn store_ceiling(path: &str, store_name: &str, op: &str, grant_matched: &Vec<bool>, store_matched: &Vec<bool>) -> (r: CeilingVerdict)
    ensures
        !globs_admit(grant_matched@) ==> (r matches CeilingVerdict::OutsideGrant(m) && m@ == "path `"@ + path@
            + "` is not in the turn grant for store `"@ + store_name@ + "` (`"@ + op@ + "`)"@),
        globs_admit(grant_matched@) && !globs_admit(store_matched@) ==> r is OutsideStore,
        globs_admit(grant_matched@) && globs_admit(store_matched@) ==> r is Admitted,
{
    if !admits(grant_matched) {
        let mut m = "path `".to_owned();
        m.append(path);
        m.append("` is not in the turn grant for store `");
        m.append(store_name);
        m.append("` (`");
        m.append(op);
        m.append("`)");
        return CeilingVerdict::OutsideGrant(m);
    }
    if !admits(store_matched) {
        return CeilingVerdict::OutsideStore;
    }
    CeilingVerdict::Admitted
}


/// Why reading a stored output back failed: opening the content store, or
/// reading from it; each with the store's error text.
pub enum RecallFailure {
    Open(String),
    Get(String),
}

impl FileToolExecutor {
    /// What `recall` answers for the stored output `id`, given what the
    /// content store gave back for it (`None` where none is stored): an
    /// error where this turn has no content store or the store failed,
    /// otherwise the stored text, paged by the 1-based line offset and
    /// limit.
    pub fn recall_reply(
        &self,
        id: &str,
        lookup: Result<Option<String>, RecallFailure>,
        offset: Option<usize>,
        limit: Option<usize>,
    ) -> (r: Result<String, String>)
        requires
            ({
                let start = match offset {
                    Some(o) => if o >= 1 { o - 1 } else { 0 },
                    None => 0,
                };
                limit matches Some(l) ==> start + l <= usize::MAX
            }),
        ensures
            self.content_store_path is None ==> (r matches Err(m) && m@ == "recall is not available for this turn"@),
            self.content_store_path is Some ==> match lookup {
                Err(RecallFailure::Open(e)) => r matches Err(m) && m@ == "recall failed to open store: "@ + e@,
                Err(RecallFailure::Get(e)) => r matches Err(m) && m@ == "recall failed: "@ + e@,
                Ok(None) => r matches Err(m) && m@ == "no stored output with id `"@ + id@ + "`"@,
                Ok(Some(body)) => r matches Ok(t) && t@ == crate::lines::sliced_lines(body@, offset, limit),
            },
    {
        if self.content_store_path.is_none() {
            return Err("recall is not available for this turn".to_owned());
        }
        match lookup {
            Err(RecallFailure::Open(e)) => {
                let mut m = "recall failed to open store: ".to_owned();
                m.append(e.as_str());
                Err(m)
            },
            Err(RecallFailure::Get(e)) => {
                let mut m = "recall failed: ".to_owned();
                m.append(e.as_str());
                Err(m)
            },
            Ok(None) => {
                let mut m = "no stored output with id `".to_owned();
                m.append(id);
                m.append("`");
                Err(m)
            },
            Ok(Some(body)) => Ok(crate::lines::slice_lines(body.as_str(), offset, limit)),
        }
    }
}

} // verus!
