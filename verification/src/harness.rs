//! Authority of one owned-harness turn: profile policies, tracker grants,
//! file-store scopes, and the decisions the tool executor makes from them.
use vstd::prelude::*;
use crate::text::{str_eq};

verus! {

pub const TOOL_READ: &'static str = "read";
pub const TOOL_WRITE: &'static str = "write";
pub const TOOL_EDIT: &'static str = "edit";
pub const TOOL_GREP: &'static str = "grep";
pub const TOOL_FIND: &'static str = "find";
pub const TOOL_LS: &'static str = "ls";
pub const TOOL_BASH: &'static str = "bash";
pub const TOOL_RECALL: &'static str = "recall";
pub const TOOL_LIST_TODOS: &'static str = "list_todos";
pub const TOOL_ADD_TODO: &'static str = "add_todo";
pub const TOOL_UPDATE_TODO: &'static str = "update_todo";

/// The tracker grants of one turn (`with access to tracker { ... }`).
#[derive(Clone, Copy, Debug, PartialEq, Eq)]
pub struct TurnTrackerAccess {
    pub file: bool,
    pub claim: bool,
    pub finish: bool,
    pub release: bool,
}

/// The tracker status an update grant covers: `in_progress` is a claim,
/// `completed` a finish, `pending` a release; no other status is covered.
pub open spec fn status_allowed(claim: bool, finish: bool, release: bool, status: Seq<char>) -> bool {
    if status == "in_progress"@ {
        claim
    } else if status == "completed"@ {
        finish
    } else if status == "pending"@ {
        release
    } else {
        false
    }
}

fn status_allowed_exec(claim: bool, finish: bool, release: bool, status: &str) -> (r: bool)
    ensures
        r == status_allowed(claim, finish, release, status@),
{
    if str_eq(status, "in_progress") {
        claim
    } else if str_eq(status, "completed") {
        finish
    } else if str_eq(status, "pending") {
        release
    } else {
        false
    }
}

impl TurnTrackerAccess {
    /// No tracker authority.
    pub fn deny_all() -> (r: Self)
        ensures
            !r.file && !r.claim && !r.finish && !r.release,
    {
        TurnTrackerAccess { file: false, claim: false, finish: false, release: false }
    }

    /// Grants claiming, finishing and releasing items.
    pub fn grant_update(&mut self)
        ensures
            final(self).file == old(self).file,
            final(self).claim && final(self).finish && final(self).release,
    {
        self.claim = true;
        self.finish = true;
        self.release = true;
    }

    /// Grants filing items and every update.
    pub fn grant_write(&mut self)
        ensures
            final(self).file && final(self).claim && final(self).finish && final(self).release,
    {
        self.file = true;
        self.grant_update();
    }

    /// Some item update is granted.
    pub fn allows_update(&self) -> (r: bool)
        ensures
            r == (self.claim || self.finish || self.release),
    {
        self.claim || self.finish || self.release
    }

    /// Moving an item to `status` is granted.
    pub fn allows_status(&self, status: &str) -> (r: bool)
        ensures
            r == status_allowed(self.claim, self.finish, self.release, status@),
    {
        status_allowed_exec(self.claim, self.finish, self.release, status)
    }

    /// The grants let the turn change tracker state.
    pub fn mutates(&self) -> (r: bool)
        ensures
            r == (self.file || self.claim || self.finish || self.release),
    {
        self.file || self.allows_update()
    }
}


/// The eight tool authorities a profile policy decides.
#[derive(Clone, Copy, Debug, PartialEq, Eq)]
pub struct ToolCaps {
    pub read_files: bool,
    pub write_files: bool,
    pub bash: bool,
    pub tracker_file: bool,
    pub tracker_claim: bool,
    pub tracker_finish: bool,
    pub tracker_release: bool,
    pub workflow_invoke: bool,
}

/// Every authority set to `v`.
pub open spec fn uniform_caps(v: bool) -> ToolCaps {
    ToolCaps {
        read_files: v,
        write_files: v,
        bash: v,
        tracker_file: v,
        tracker_claim: v,
        tracker_finish: v,
        tracker_release: v,
        workflow_invoke: v,
    }
}

/// Only workflow invocation, plus file reads when `read` holds.
pub open spec fn invoke_only_caps(read: bool) -> ToolCaps {
    ToolCaps { read_files: read, workflow_invoke: true, ..uniform_caps(false) }
}

/// The named profiles that may read files but change nothing.
pub open spec fn is_reader_profile(n: Seq<char>) -> bool {
    n == "repo-reader"@ || n == "human-review"@
}

/// The named profiles without repository access.
pub open spec fn is_no_repo_profile(n: Seq<char>) -> bool {
    n == "no-repo"@ || n == "internet-research"@
}

/// The named profiles with full authority.
pub open spec fn is_writer_profile(n: Seq<char>) -> bool {
    n == "repo-writer"@ || n == "permissive"@ || n == "release-operator"@
}

/// The built-in policy of a profile: readers read, no-repo profiles only
/// invoke workflows, writers and unknown or absent profiles may do all.
pub open spec fn builtin_caps(profile: Option<Seq<char>>) -> ToolCaps {
    match profile {
        Some(n) => if is_reader_profile(n) {
            invoke_only_caps(true)
        } else if is_no_repo_profile(n) {
            invoke_only_caps(false)
        } else {
            uniform_caps(true)
        },
        None => uniform_caps(true),
    }
}

/// The profile name a built-in policy records: only the named profiles keep it.
pub open spec fn builtin_profile_name(profile: Option<Seq<char>>) -> Option<Seq<char>> {
    match profile {
        Some(n) => if is_reader_profile(n) || is_no_repo_profile(n) || is_writer_profile(n) {
            Some(n)
        } else {
            None
        },
        None => None,
    }
}

/// Componentwise conjunction.
pub open spec fn caps_and(a: ToolCaps, b: ToolCaps) -> ToolCaps {
    ToolCaps {
        read_files: a.read_files && b.read_files,
        write_files: a.write_files && b.write_files,
        bash: a.bash && b.bash,
        tracker_file: a.tracker_file && b.tracker_file,
        tracker_claim: a.tracker_claim && b.tracker_claim,
        tracker_finish: a.tracker_finish && b.tracker_finish,
        tracker_release: a.tracker_release && b.tracker_release,
        workflow_invoke: a.workflow_invoke && b.workflow_invoke,
    }
}

/// The view of an optional string slice.
pub open spec fn opt_str_view(o: Option<&str>) -> Option<Seq<char>> {
    match o {
        Some(s) => Some(s@),
        None => None,
    }
}

/// The view of an optional owned string.
pub open spec fn opt_string_seq(o: Option<String>) -> Option<Seq<char>> {
    match o {
        Some(s) => Some(s@),
        None => None,
    }
}

/// A profile policy registered in the store: its enforcement mode and the
/// capabilities it allows (`*` allows every capability).
#[derive(Clone, Debug, PartialEq, Eq)]
pub struct RegisteredProfilePolicy {
    pub enforcement_mode: String,
    pub allowed_capabilities: Vec<String>,
}

/// The registered policy allows `cap`.
pub open spec fn registered_allows(allowed: Seq<String>, cap: Seq<char>) -> bool {
    exists|i: int| 0 <= i < allowed.len() && (#[trigger] allowed[i]@ == "*"@ || allowed[i]@ == cap)
}

/// The authorities a registered policy grants: everything in `audit` mode,
/// otherwise what its allowed capabilities name.
pub open spec fn registered_caps(mode: Seq<char>, allowed: Seq<String>) -> ToolCaps {
    if mode == "audit"@ {
        uniform_caps(true)
    } else {
        let write = registered_allows(allowed, "tracker.write"@);
        let update = registered_allows(allowed, "tracker.update"@);
        ToolCaps {
            read_files: registered_allows(allowed, "repo.read"@),
            write_files: registered_allows(allowed, "repo.write"@),
            bash: registered_allows(allowed, "command.run"@),
            tracker_file: write || registered_allows(allowed, "tracker.file"@),
            tracker_claim: write || update || registered_allows(allowed, "tracker.claim"@),
            tracker_finish: write || update || registered_allows(allowed, "tracker.finish"@),
            tracker_release: write || update || registered_allows(allowed, "tracker.release"@),
            workflow_invoke: registered_allows(allowed, "workflow.invoke"@),
        }
    }
}

fn allows_capability(allowed: &Vec<String>, cap: &str) -> (r: bool)
    ensures
        r == registered_allows(allowed@, cap@),
{
    let mut i: usize = 0;
    while i < allowed.len()
        invariant
            i <= allowed.len(),
            forall|j: int| 0 <= j < i ==> !(#[trigger] allowed@[j]@ == "*"@ || allowed@[j]@ == cap@),
        decreases allowed.len() - i,
    {
        if str_eq(allowed[i].as_str(), "*") || str_eq(allowed[i].as_str(), cap) {
            return true;
        }
        i += 1;
    }
    false
}

/// Which tools the owned harness offers and runs under a profile.
#[derive(Clone, Debug, PartialEq, Eq)]
pub struct HarnessProfilePolicy {
    pub profile: Option<String>,
    pub read_files: bool,
    pub write_files: bool,
    pub bash: bool,
    pub tracker_file: bool,
    pub tracker_claim: bool,
    pub tracker_finish: bool,
    pub tracker_release: bool,
    pub workflow_invoke: bool,
}

impl HarnessProfilePolicy {
    /// The authorities of this policy.
    pub open spec fn caps(&self) -> ToolCaps {
        ToolCaps {
            read_files: self.read_files,
            write_files: self.write_files,
            bash: self.bash,
            tracker_file: self.tracker_file,
            tracker_claim: self.tracker_claim,
            tracker_finish: self.tracker_finish,
            tracker_release: self.tracker_release,
            workflow_invoke: self.workflow_invoke,
        }
    }

    fn with_caps(profile: Option<String>, c: ToolCaps) -> (r: Self)
        ensures
            r.profile == profile,
            r.caps() == c,
    {
        HarnessProfilePolicy {
            profile,
            read_files: c.read_files,
            write_files: c.write_files,
            bash: c.bash,
            tracker_file: c.tracker_file,
            tracker_claim: c.tracker_claim,
            tracker_finish: c.tracker_finish,
            tracker_release: c.tracker_release,
            workflow_invoke: c.workflow_invoke,
        }
    }

    /// No profile, every authority.
    pub fn permissive() -> (r: Self)
        ensures
            r.profile is None,
            r.caps() == uniform_caps(true),
    {
        Self::with_caps(None, ToolCaps {
            read_files: true,
            write_files: true,
            bash: true,
            tracker_file: true,
            tracker_claim: true,
            tracker_finish: true,
            tracker_release: true,
            workflow_invoke: true,
        })
    }

    /// The built-in policy of a profile name.
    pub fn for_profile(profile: Option<&str>) -> (r: Self)
        ensures
            opt_string_seq(r.profile) == builtin_profile_name(opt_str_view(profile)),
            r.caps() == builtin_caps(opt_str_view(profile)),
    {
        match profile {
            Some(name) => {
                if str_eq(name, "repo-reader") || str_eq(name, "human-review") {
                    Self::with_caps(
                        Some(name.to_owned()),
                        ToolCaps {
                            read_files: true,
                            write_files: false,
                            bash: false,
                            tracker_file: false,
                            tracker_claim: false,
                            tracker_finish: false,
                            tracker_release: false,
                            workflow_invoke: true,
                        },
                    )
                } else if str_eq(name, "no-repo") || str_eq(name, "internet-research") {
                    Self::with_caps(
                        Some(name.to_owned()),
                        ToolCaps {
                            read_files: false,
                            write_files: false,
                            bash: false,
                            tracker_file: false,
                            tracker_claim: false,
                            tracker_finish: false,
                            tracker_release: false,
                            workflow_invoke: true,
                        },
                    )
                } else if str_eq(name, "repo-writer") || str_eq(name, "permissive") || str_eq(
                    name,
                    "release-operator",
                ) {
                    let p = Self::permissive();
                    Self::with_caps(Some(name.to_owned()), p.caps_exec())
                } else {
                    Self::permissive()
                }
            },
            None => Self::permissive(),
        }
    }

    fn caps_exec(&self) -> (c: ToolCaps)
        ensures
            c == self.caps(),
    {
        ToolCaps {
            read_files: self.read_files,
            write_files: self.write_files,
            bash: self.bash,
            tracker_file: self.tracker_file,
            tracker_claim: self.tracker_claim,
            tracker_finish: self.tracker_finish,
            tracker_release: self.tracker_release,
            workflow_invoke: self.workflow_invoke,
        }
    }

    /// The policy a registered profile policy grants, under `profile`.
    pub fn from_registered_policy(profile: Option<&str>, registered: &RegisteredProfilePolicy) -> (r: Self)
        ensures
            opt_string_seq(r.profile) == opt_str_view(profile),
            r.caps() == registered_caps(
                registered.enforcement_mode@,
                registered.allowed_capabilities@,
            ),
    {
        let name = match profile {
            Some(p) => Some(p.to_owned()),
            None => None,
        };
        if str_eq(registered.enforcement_mode.as_str(), "audit") {
            let p = Self::permissive();
            return Self::with_caps(name, p.caps_exec());
        }
        let allowed = &registered.allowed_capabilities;
        let write = allows_capability(allowed, "tracker.write");
        let update = allows_capability(allowed, "tracker.update");
        Self::with_caps(
            name,
            ToolCaps {
                read_files: allows_capability(allowed, "repo.read"),
                write_files: allows_capability(allowed, "repo.write"),
                bash: allows_capability(allowed, "command.run"),
                tracker_file: write || allows_capability(allowed, "tracker.file"),
                tracker_claim: write || update || allows_capability(allowed, "tracker.claim"),
                tracker_finish: write || update || allows_capability(allowed, "tracker.finish"),
                tracker_release: write || update || allows_capability(allowed, "tracker.release"),
                workflow_invoke: allows_capability(allowed, "workflow.invoke"),
            },
        )
    }

    /// The built-in policy of the profile, narrowed by its registered policy
    /// when there is one.
    pub fn for_profile_with_registry(
        profile: Option<&str>,
        registered: Option<&RegisteredProfilePolicy>,
    ) -> (r: Self)
        ensures
            registered is None ==> opt_string_seq(r.profile) == builtin_profile_name(
                opt_str_view(profile),
            ) && r.caps() == builtin_caps(opt_str_view(profile)),
            registered matches Some(reg) ==> opt_string_seq(r.profile) == (
            match builtin_profile_name(opt_str_view(profile)) {
                Some(n) => Some(n),
                None => opt_str_view(profile),
            }) && r.caps() == caps_and(
                builtin_caps(opt_str_view(profile)),
                registered_caps(reg.enforcement_mode@, reg.allowed_capabilities@),
            ),
    {
        let base = Self::for_profile(profile);
        match registered {
            None => base,
            Some(reg) => base.intersect(&Self::from_registered_policy(profile, reg)),
        }
    }

    /// The authorities both policies grant; the first policy's profile name,
    /// else the second's.
    pub fn intersect(&self, other: &Self) -> (r: Self)
        ensures
            r.profile == (match self.profile {
                Some(p) => Some(p),
                None => other.profile,
            }),
            r.caps() == caps_and(self.caps(), other.caps()),
    {
        let profile = match &self.profile {
            Some(p) => Some(p.clone()),
            None => other.profile.clone(),
        };
        HarnessProfilePolicy {
            profile,
            read_files: self.read_files && other.read_files,
            write_files: self.write_files && other.write_files,
            bash: self.bash && other.bash,
            tracker_file: self.tracker_file && other.tracker_file,
            tracker_claim: self.tracker_claim && other.tracker_claim,
            tracker_finish: self.tracker_finish && other.tracker_finish,
            tracker_release: self.tracker_release && other.tracker_release,
            workflow_invoke: self.workflow_invoke && other.workflow_invoke,
        }
    }

    /// The profile name for messages (`<unspecified>` without one).
    pub fn profile_name(&self) -> (r: &str)
        ensures
            r@ == (match self.profile {
                Some(p) => p@,
                None => "<unspecified>"@,
            }),
    {
        match &self.profile {
            Some(p) => p.as_str(),
            None => "<unspecified>",
        }
    }

    /// Some tracker update is allowed.
    pub fn allows_tracker_update(&self) -> (r: bool)
        ensures
            r == (self.tracker_claim || self.tracker_finish || self.tracker_release),
    {
        self.tracker_claim || self.tracker_finish || self.tracker_release
    }

    /// Moving a tracker item to `status` is allowed.
    pub fn allows_tracker_status(&self, status: &str) -> (r: bool)
        ensures
            r == status_allowed(self.tracker_claim, self.tracker_finish, self.tracker_release, status@),
    {
        status_allowed_exec(self.tracker_claim, self.tracker_finish, self.tracker_release, status)
    }

    /// Whether the policy allows the named tool: read-class tools need file
    /// reads, `write`/`edit` file writes, `bash` commands, `add_todo` filing and
    /// `update_todo` some update; every other tool is allowed.
    pub fn allows_tool(&self, tool: &str) -> (r: bool)
        ensures
            r == tool_allowed(self.caps(), tool@),
    {
        if str_eq(tool, TOOL_READ) || str_eq(tool, TOOL_GREP) || str_eq(tool, TOOL_FIND) || str_eq(
            tool,
            TOOL_LS,
        ) || str_eq(tool, TOOL_RECALL) {
            self.read_files
        } else if str_eq(tool, TOOL_WRITE) || str_eq(tool, TOOL_EDIT) {
            self.write_files
        } else if str_eq(tool, TOOL_BASH) {
            self.bash
        } else if str_eq(tool, TOOL_ADD_TODO) {
            self.tracker_file
        } else if str_eq(tool, TOOL_UPDATE_TODO) {
            self.allows_tracker_update()
        } else {
            true
        }
    }

    /// The policy granting what a list of required capabilities names, or
    /// `None` when it names no capability the harness knows.
    pub fn from_required_capabilities(required: &[String]) -> (r: Option<Self>)
        ensures
            r is Some == required_recognized(required@),
            r matches Some(p) ==> p.profile is None && p.caps() == required_caps(required@),
    {
        let read = names_capability(required, "repo.read");
        let write_files = names_capability(required, "repo.write");
        let run = names_capability(required, "command.run");
        let file = names_capability(required, "tracker.file");
        let claim = names_capability(required, "tracker.claim");
        let finish = names_capability(required, "tracker.finish");
        let release = names_capability(required, "tracker.release");
        let update = names_capability(required, "tracker.update");
        let write = names_capability(required, "tracker.write");
        let invoke = names_capability(required, "workflow.invoke");
        if read || write_files || run || file || claim || finish || release || update || write
            || invoke {
            Some(
                Self::with_caps(
                    None,
                    ToolCaps {
                        read_files: read,
                        write_files,
                        bash: run,
                        tracker_file: write || file,
                        tracker_claim: write || update || claim,
                        tracker_finish: write || update || finish,
                        tracker_release: write || update || release,
                        workflow_invoke: invoke,
                    },
                ),
            )
        } else {
            None
        }
    }
}

fn names_capability(required: &[String], name: &str) -> (r: bool)
    ensures
        r == has_name(required@, name@),
{
    let mut i: usize = 0;
    while i < required.len()
        invariant
            i <= required@.len(),
            forall|j: int| 0 <= j < i ==> #[trigger] required@[j]@ != name@,
        decreases required.len() - i,
    {
        if str_eq(required[i].as_str(), name) {
            return true;
        }
        i += 1;
    }
    false
}

/// Whether a tool is allowed under the given authorities.
pub open spec fn tool_allowed(c: ToolCaps, tool: Seq<char>) -> bool {
    if tool == "read"@ || tool == "grep"@ || tool == "find"@ || tool == "ls"@ || tool == "recall"@ {
        c.read_files
    } else if tool == "write"@ || tool == "edit"@ {
        c.write_files
    } else if tool == "bash"@ {
        c.bash
    } else if tool == "add_todo"@ {
        c.tracker_file
    } else if tool == "update_todo"@ {
        c.tracker_claim || c.tracker_finish || c.tracker_release
    } else {
        true
    }
}

/// The list names the capability `n`.
pub open spec fn has_name(req: Seq<String>, n: Seq<char>) -> bool {
    exists|i: int| 0 <= i < req.len() && #[trigger] req[i]@ == n
}

/// The list names some capability the harness knows.
pub open spec fn required_recognized(req: Seq<String>) -> bool {
    ||| has_name(req, "repo.read"@)
    ||| has_name(req, "repo.write"@)
    ||| has_name(req, "command.run"@)
    ||| has_name(req, "tracker.file"@)
    ||| has_name(req, "tracker.claim"@)
    ||| has_name(req, "tracker.finish"@)
    ||| has_name(req, "tracker.release"@)
    ||| has_name(req, "tracker.update"@)
    ||| has_name(req, "tracker.write"@)
    ||| has_name(req, "workflow.invoke"@)
}

/// The authorities a list of required capabilities names; `tracker.update`
/// covers claim, finish and release, `tracker.write` those and filing.
pub open spec fn required_caps(req: Seq<String>) -> ToolCaps {
    let write = has_name(req, "tracker.write"@);
    let update = has_name(req, "tracker.update"@);
    ToolCaps {
        read_files: has_name(req, "repo.read"@),
        write_files: has_name(req, "repo.write"@),
        bash: has_name(req, "command.run"@),
        tracker_file: write || has_name(req, "tracker.file"@),
        tracker_claim: write || update || has_name(req, "tracker.claim"@),
        tracker_finish: write || update || has_name(req, "tracker.finish"@),
        tracker_release: write || update || has_name(req, "tracker.release"@),
        workflow_invoke: has_name(req, "workflow.invoke"@),
    }
}

} // verus!
